//! Global properties of the legality filter and the search, stated and
//! proved over the same spec functions that the executable contracts use.

use vstd::prelude::*;

use crate::board::{head_room, BoardV, Dir, SnakeV};
use crate::filter::{
    all_disallowed, allowed_moves, disallowed, fatal, neck_blocked, step_spec,
};
use crate::search::{
    advance_board, best_move_spec, best_pair, max_score, score_floor, search_spec,
};

verus! {

/// The snake's neck (second body segment) is either stacked on the head or
/// exactly one cell away in a cardinal direction — true of every snake a
/// game ever produces, since the body is a connected chain.
pub open spec fn neck_adjacent(you: SnakeV) -> bool {
    you.body.len() >= 2 ==> {
        ||| you.body[1] == you.head
        ||| you.body[1] == step_spec(you.head, Dir::Up)
        ||| you.body[1] == step_spec(you.head, Dir::Down)
        ||| you.body[1] == step_spec(you.head, Dir::Left)
        ||| you.body[1] == step_spec(you.head, Dir::Right)
    }
}

/// The neck lies in cardinal direction `d` from the head: on the same row
/// or column, strictly toward `d`.
pub open spec fn neck_toward(you: SnakeV, d: Dir) -> bool {
    let h = you.head;
    let n = you.body[1];
    match d {
        Dir::Up => n.x == h.x && n.y > h.y,
        Dir::Down => n.x == h.x && n.y < h.y,
        Dir::Left => n.y == h.y && n.x < h.x,
        Dir::Right => n.y == h.y && n.x > h.x,
    }
}

/// When the neck lies directly in cardinal direction `d` from the head,
/// the filter never marks that reversal direction allowed — unless the
/// starvation fallback overrides every mark.
pub proof fn lemma_neck_reversal_disallowed(b: BoardV, you: SnakeV, d: Dir)
    requires
        you.body.len() >= 2,
        neck_toward(you, d),
        !all_disallowed(b, you),
    ensures
        !allowed_moves(b, you).allows(d),
{
    assert(neck_blocked(you, d));
}

/// A neck-blocked move against an adjacent neck is also a self-collision:
/// the blocked direction steps straight onto the neck cell.
pub proof fn lemma_neck_block_is_fatal(b: BoardV, you: SnakeV, d: Dir)
    requires
        head_room(you.head, 1),
        neck_adjacent(you),
        neck_blocked(you, d),
    ensures
        fatal(b, you, d),
{
    let h = you.head;
    let n = you.body[1];
    assert(you.body.contains(n)) by {
        assert(you.body[1] == n);
    }
    if n == step_spec(h, Dir::Up) {
        assert(d == Dir::Up);
    } else if n == step_spec(h, Dir::Down) {
        assert(d == Dir::Down);
    } else if n == step_spec(h, Dir::Left) {
        assert(d == Dir::Left);
    } else if n == step_spec(h, Dir::Right) {
        assert(d == Dir::Right);
    }
    assert(step_spec(h, d) == n);
}

/// If some direction is non-fatal (in bounds, no self-collision, no
/// equal-or-larger opponent on the target cell), the filter marks that
/// direction allowed and does not mark all four disallowed.
pub proof fn lemma_nonfatal_direction_allowed(b: BoardV, you: SnakeV, d: Dir)
    requires
        head_room(you.head, 1),
        neck_adjacent(you),
        !fatal(b, you, d),
    ensures
        allowed_moves(b, you).allows(d),
        !all_disallowed(b, you),
{
    if neck_blocked(you, d) {
        lemma_neck_block_is_fatal(b, you, d);
    }
    assert(!disallowed(b, you, d));
}

/// The filter never returns an empty move set: on any board some direction
/// comes back allowed — the non-fallback case by construction, the
/// starvation fallback because it allows everything.
pub proof fn lemma_filter_never_empty(b: BoardV, you: SnakeV)
    ensures
        allowed_moves(b, you).allows(Dir::Up) || allowed_moves(b, you).allows(Dir::Down)
            || allowed_moves(b, you).allows(Dir::Left) || allowed_moves(b, you).allows(
            Dir::Right,
        ),
{
}

/// With the filter never empty, the search always reaches a leaf: its value
/// is a real evaluation, never the `score_floor()` sentinel.
pub proof fn lemma_search_score_nonneg(b: BoardV, idx: int, depth: nat)
    ensures
        search_spec(b, idx, depth) >= 0,
    decreases depth,
{
    if depth == 0 {
    } else {
        let m = allowed_moves(b, b.snakes[idx]);
        let dm1 = (depth - 1) as nat;
        let s0 = score_floor();
        let s1 = if m.up {
            max_score(s0, search_spec(advance_board(b, idx, Dir::Up), idx, dm1))
        } else {
            s0
        };
        let s2 = if m.down {
            max_score(s1, search_spec(advance_board(b, idx, Dir::Down), idx, dm1))
        } else {
            s1
        };
        let s3 = if m.left {
            max_score(s2, search_spec(advance_board(b, idx, Dir::Left), idx, dm1))
        } else {
            s2
        };
        let s4 = if m.right {
            max_score(s3, search_spec(advance_board(b, idx, Dir::Right), idx, dm1))
        } else {
            s3
        };
        assert(search_spec(b, idx, depth) == s4);
        lemma_filter_never_empty(b, b.snakes[idx]);
        if m.up {
            lemma_search_score_nonneg(advance_board(b, idx, Dir::Up), idx, dm1);
            assert(s1 >= 0);
        } else if m.down {
            lemma_search_score_nonneg(advance_board(b, idx, Dir::Down), idx, dm1);
            assert(s2 >= 0);
        } else if m.left {
            lemma_search_score_nonneg(advance_board(b, idx, Dir::Left), idx, dm1);
            assert(s3 >= 0);
        } else {
            lemma_search_score_nonneg(advance_board(b, idx, Dir::Right), idx, dm1);
            assert(s4 >= 0);
        }
    }
}

/// With at least one ply of lookahead, the chosen move is always one the
/// filter allows: the first allowed direction's score beats the sentinel
/// seed, and every later replacement is itself allowed.
pub proof fn lemma_best_move_allowed(b: BoardV, idx: int, depth: nat)
    requires
        depth >= 1,
    ensures
        allowed_moves(b, b.snakes[idx]).allows(best_move_spec(b, idx, depth)),
{
    let m = allowed_moves(b, b.snakes[idx]);
    let dm1 = (depth - 1) as nat;
    lemma_filter_never_empty(b, b.snakes[idx]);
    lemma_search_score_nonneg(advance_board(b, idx, Dir::Up), idx, dm1);
    lemma_search_score_nonneg(advance_board(b, idx, Dir::Down), idx, dm1);
    lemma_search_score_nonneg(advance_board(b, idx, Dir::Left), idx, dm1);
    lemma_search_score_nonneg(advance_board(b, idx, Dir::Right), idx, dm1);
    assert(m.allows(best_pair(b, idx, depth).0));
}

} // verus!
