//! The legality filter: a one-ply, static-obstacle fatality check that
//! prunes moves leading to immediate, certain death.
//!
//! The filter is deliberately approximate: opponents are treated as frozen
//! obstacles for one ply, head cells are not distinguished from body cells,
//! and tail cells that may vacate are still counted as blocking.

use vstd::prelude::*;

use crate::board::{contains_coord, Battlesnake, Board, BoardV, Coord, Dir, MoveSet, SnakeV};

verus! {

/// The cell one step from `c` in direction `d` (up = +y, down = -y,
/// right = +x, left = -x), truncated to the `i32` grid representation.
pub open spec fn step_spec(c: Coord, d: Dir) -> Coord {
    match d {
        Dir::Up => Coord { x: c.x, y: (c.y + 1) as i32 },
        Dir::Down => Coord { x: c.x, y: (c.y - 1) as i32 },
        Dir::Left => Coord { x: (c.x - 1) as i32, y: c.y },
        Dir::Right => Coord { x: (c.x + 1) as i32, y: c.y },
    }
}

/// `c` lies on the grid of `b`: inside `[0, width) x [0, height)`.
pub open spec fn in_bounds(b: BoardV, c: Coord) -> bool {
    &&& 0 <= c.x < b.width
    &&& 0 <= c.y < b.height
}

/// Moving onto `p` runs into the body of some opponent whose length is
/// greater than or equal to `you`'s length.
pub open spec fn attacks_spec(b: BoardV, you: SnakeV, p: Coord) -> bool {
    exists|i: int|
        0 <= i < b.snakes.len() && #[trigger] b.snakes[i].id != you.id
            && b.snakes[i].length >= you.length && b.snakes[i].body.contains(p)
}

/// The neck-reversal rule: the single direction that would move the head
/// back toward the neck (the second body segment) is blocked. A snake with
/// fewer than two segments has no neck and blocks nothing.
pub open spec fn neck_blocked(you: SnakeV, d: Dir) -> bool {
    you.body.len() >= 2 && {
        let h = you.head;
        let n = you.body[1];
        if n.x < h.x {
            d == Dir::Left
        } else if n.x > h.x {
            d == Dir::Right
        } else if n.y < h.y {
            d == Dir::Down
        } else if n.y > h.y {
            d == Dir::Up
        } else {
            false
        }
    }
}

/// Moving in direction `d` is immediately fatal: the new head either leaves
/// the grid, hits the snake's own body, or hits an equal-or-larger opponent.
pub open spec fn fatal(b: BoardV, you: SnakeV, d: Dir) -> bool {
    let p = step_spec(you.head, d);
    ||| !in_bounds(b, p)
    ||| you.body.contains(p)
    ||| attacks_spec(b, you, p)
}

/// Direction `d` is marked disallowed before the starvation fallback:
/// either by the neck-reversal rule or because it is fatal.
pub open spec fn disallowed(b: BoardV, you: SnakeV, d: Dir) -> bool {
    neck_blocked(you, d) || fatal(b, you, d)
}

/// All four directions are marked disallowed.
pub open spec fn all_disallowed(b: BoardV, you: SnakeV) -> bool {
    &&& disallowed(b, you, Dir::Up)
    &&& disallowed(b, you, Dir::Down)
    &&& disallowed(b, you, Dir::Left)
    &&& disallowed(b, you, Dir::Right)
}

/// The filter's result. If every direction would be disallowed, the marks
/// are discarded and all four come back allowed (move somewhere rather than
/// forfeit); otherwise a direction is allowed exactly when not disallowed.
pub open spec fn allowed_moves(b: BoardV, you: SnakeV) -> MoveSet {
    if all_disallowed(b, you) {
        MoveSet { up: true, down: true, left: true, right: true }
    } else {
        MoveSet {
            up: !disallowed(b, you, Dir::Up),
            down: !disallowed(b, you, Dir::Down),
            left: !disallowed(b, you, Dir::Left),
            right: !disallowed(b, you, Dir::Right),
        }
    }
}

/// The cell one step from `pos` in direction `mov`.
pub fn next_pos(pos: &Coord, mov: Dir) -> (r: Coord)
    requires
        i32::MIN < pos.x < i32::MAX,
        i32::MIN < pos.y < i32::MAX,
    ensures
        r == step_spec(*pos, mov),
{
    match mov {
        Dir::Up => Coord { x: pos.x, y: pos.y + 1 },
        Dir::Down => Coord { x: pos.x, y: pos.y - 1 },
        Dir::Left => Coord { x: pos.x - 1, y: pos.y },
        Dir::Right => Coord { x: pos.x + 1, y: pos.y },
    }
}

/// Whether `pos` lies on an equal-or-larger opponent's body.
pub fn attacks_opponent(pos: &Coord, mysnake: &Battlesnake, board: &Board) -> (r: bool)
    ensures
        r == attacks_spec(board@, mysnake@, *pos),
{
    let mut i: usize = 0;
    while i < board.snakes.len()
        invariant
            0 <= i <= board.snakes@.len(),
            board@.snakes.len() == board.snakes@.len(),
            forall|j: int| 0 <= j < board.snakes@.len() ==> board@.snakes[j] == board.snakes@[j]@,
            forall|j: int|
                0 <= j < i ==> !(#[trigger] board@.snakes[j].id != mysnake@.id
                    && board@.snakes[j].length >= mysnake@.length
                    && board@.snakes[j].body.contains(*pos)),
        decreases board.snakes@.len() - i,
    {
        let snake = &board.snakes[i];
        if !(snake.id == mysnake.id) {
            if snake.length >= mysnake.length && contains_coord(&snake.body, *pos) {
                assert(board@.snakes[i as int].id != mysnake@.id
                    && board@.snakes[i as int].length >= mysnake@.length
                    && board@.snakes[i as int].body.contains(*pos));
                return true;
            }
        }
        i += 1;
    }
    false
}

/// Whether a single move in direction `d` is immediately fatal for `you`.
fn is_fatal(board: &Board, you: &Battlesnake, d: Dir) -> (r: bool)
    requires
        i32::MIN < you.head.x < i32::MAX,
        i32::MIN < you.head.y < i32::MAX,
    ensures
        r == fatal(board@, you@, d),
{
    let p = next_pos(&you.head, d);
    if p.x < 0 || p.x >= board.width || p.y < 0 || p.y >= board.height {
        return true;
    }
    if contains_coord(&you.body, p) {
        return true;
    }
    attacks_opponent(&p, you, board)
}

/// The legality filter: marks each of the four directions allowed unless it
/// reverses onto the neck or is immediately fatal; if that would disallow
/// all four, the marks are discarded and every direction comes back allowed.
pub fn filter_trivially_bad_moves(board: &Board, you: &Battlesnake) -> (r: MoveSet)
    requires
        i32::MIN < you.head.x < i32::MAX,
        i32::MIN < you.head.y < i32::MAX,
    ensures
        r == allowed_moves(board@, you@),
{
    // Neck-reversal marks.
    let mut neck_up = false;
    let mut neck_down = false;
    let mut neck_left = false;
    let mut neck_right = false;
    if you.body.len() >= 2 {
        let head = you.head;
        let neck = you.body[1];
        if neck.x < head.x {
            neck_left = true;
        } else if neck.x > head.x {
            neck_right = true;
        } else if neck.y < head.y {
            neck_down = true;
        } else if neck.y > head.y {
            neck_up = true;
        }
    }
    assert(neck_up == neck_blocked(you@, Dir::Up));
    assert(neck_down == neck_blocked(you@, Dir::Down));
    assert(neck_left == neck_blocked(you@, Dir::Left));
    assert(neck_right == neck_blocked(you@, Dir::Right));

    // Combined disallowed marks.
    let dis_up = neck_up || is_fatal(board, you, Dir::Up);
    let dis_down = neck_down || is_fatal(board, you, Dir::Down);
    let dis_left = neck_left || is_fatal(board, you, Dir::Left);
    let dis_right = neck_right || is_fatal(board, you, Dir::Right);

    // Starvation fallback: better a doomed move than no move at all.
    if dis_up && dis_down && dis_left && dis_right {
        MoveSet { up: true, down: true, left: true, right: true }
    } else {
        MoveSet { up: !dis_up, down: !dis_down, left: !dis_left, right: !dis_right }
    }
}

} // verus!
