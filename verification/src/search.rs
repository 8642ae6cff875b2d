//! The bounded search engine: a depth-limited, single-agent lookahead over
//! cloned board states. Each ply advances only the searching snake; all
//! opponents stay frozen as static obstacles. Leaves are scored by a food
//! heuristic and the move with the best reachable leaf score wins, ties
//! going to the first direction in the fixed order up, down, left, right.

use vstd::prelude::*;
use vstd::string::StringExecFns;

use crate::board::{
    board_wf, clone_board, clone_coords, head_room, lemma_unique_index, snake_wf, str_eq,
    Battlesnake, Board, BoardV, Coord, Dir, Game, SnakeV,
};
use crate::filter::{allowed_moves, filter_trivially_bad_moves, next_pos, step_spec};

verus! {

/// Fold seed for the move scores: lower than every reachable score, so any
/// explored child replaces it.
pub open spec fn score_floor() -> int {
    -99999
}

/// `s` with its head moved to the cell `h`: `h` is prepended to the body
/// and the tail cell dropped, so the body slithers forward with its length
/// kept.
pub open spec fn move_snake_to(s: SnakeV, h: Coord) -> SnakeV {
    SnakeV { id: s.id, body: seq![h] + s.body.drop_last(), head: h, length: s.length }
}

/// `s` after one move in direction `d`.
pub open spec fn move_snake(s: SnakeV, d: Dir) -> SnakeV {
    move_snake_to(s, step_spec(s.head, d))
}

/// `b` after the snake at `idx` moves one cell in direction `d`; every other
/// snake, the food, and the grid bounds are unchanged.
pub open spec fn advance_board(b: BoardV, idx: int, d: Dir) -> BoardV {
    BoardV {
        width: b.width,
        height: b.height,
        food: b.food,
        snakes: b.snakes.update(idx, move_snake(b.snakes[idx], d)),
    }
}

/// Leaf evaluation: 100 when the searching snake's head sits on a food
/// cell, otherwise 0.
pub open spec fn eval_spec(b: BoardV, idx: int) -> int {
    if b.food.contains(b.snakes[idx].head) {
        100
    } else {
        0
    }
}

/// Larger of two scores.
pub open spec fn max_score(a: int, b: int) -> int {
    if a >= b {
        a
    } else {
        b
    }
}

/// The depth-bounded search value: at depth 0 the leaf evaluation; else the
/// maximum over the filter-allowed children, folded in the fixed direction
/// order over the seed `score_floor()`.
pub open spec fn search_spec(b: BoardV, idx: int, depth: nat) -> int
    decreases depth,
{
    if depth == 0 {
        eval_spec(b, idx)
    } else {
        let m = allowed_moves(b, b.snakes[idx]);
        let s0 = score_floor();
        let s1 = if m.up {
            max_score(s0, search_spec(advance_board(b, idx, Dir::Up), idx, (depth - 1) as nat))
        } else {
            s0
        };
        let s2 = if m.down {
            max_score(s1, search_spec(advance_board(b, idx, Dir::Down), idx, (depth - 1) as nat))
        } else {
            s1
        };
        let s3 = if m.left {
            max_score(s2, search_spec(advance_board(b, idx, Dir::Left), idx, (depth - 1) as nat))
        } else {
            s2
        };
        let s4 = if m.right {
            max_score(s3, search_spec(advance_board(b, idx, Dir::Right), idx, (depth - 1) as nat))
        } else {
            s3
        };
        s4
    }
}

/// The score one ply below the root for direction `d`.
pub open spec fn root_score(b: BoardV, idx: int, depth: nat, d: Dir) -> int {
    search_spec(advance_board(b, idx, d), idx, (depth - 1) as nat)
}

/// One fold step of the argmax: `d` replaces the running best exactly when
/// it is allowed and its score strictly beats the running maximum.
pub open spec fn pick_step(acc: (Dir, int), d: Dir, allowed: bool, sc: int) -> (Dir, int) {
    if allowed && sc > acc.1 {
        (d, sc)
    } else {
        acc
    }
}

/// The chosen direction and its score at the root: the four directions are
/// folded in the fixed order up, down, left, right, starting from the
/// defensive default `(up, score_floor())`, and the first direction that
/// attains the running maximum is kept.
pub open spec fn best_pair(b: BoardV, idx: int, depth: nat) -> (Dir, int) {
    let m = allowed_moves(b, b.snakes[idx]);
    let a0 = (Dir::Up, score_floor());
    let a1 = pick_step(a0, Dir::Up, m.up, root_score(b, idx, depth, Dir::Up));
    let a2 = pick_step(a1, Dir::Down, m.down, root_score(b, idx, depth, Dir::Down));
    let a3 = pick_step(a2, Dir::Left, m.left, root_score(b, idx, depth, Dir::Left));
    pick_step(a3, Dir::Right, m.right, root_score(b, idx, depth, Dir::Right))
}

/// The move the engine selects for the snake at `idx` with `depth` plies of
/// lookahead.
pub open spec fn best_move_spec(b: BoardV, idx: int, depth: nat) -> Dir {
    best_pair(b, idx, depth).0
}

/// A search node: an independently owned board snapshot plus the identity
/// and index of the searching snake. Branches of the search tree never
/// share mutable state.
pub struct SearchState {
    pub board: Board,
    pub mysnake_id: String,
    pub idx: usize,
}

/// Mathematical view of a [`SearchState`].
#[verifier::ext_equal]
pub ghost struct SearchStateV {
    pub board: BoardV,
    pub id: Seq<char>,
    pub idx: int,
}

impl View for SearchState {
    type V = SearchStateV;

    open spec fn view(&self) -> SearchStateV {
        SearchStateV { board: self.board@, id: self.mysnake_id@, idx: self.idx as int }
    }
}

/// A search state is well formed when its board is, its index lies on the
/// board, and the snake there carries the searching snake's identifier.
pub open spec fn state_wf(s: SearchStateV) -> bool {
    &&& board_wf(s.board)
    &&& 0 <= s.idx < s.board.snakes.len()
    &&& s.board.snakes[s.idx].id == s.id
}

/// Advancing a well-formed board keeps it well formed: the moved snake's
/// body stays non-empty with the head as its first cell, and no identifier
/// changes.
pub proof fn lemma_advance_preserves_wf(b: BoardV, idx: int, d: Dir)
    requires
        board_wf(b),
        0 <= idx < b.snakes.len(),
    ensures
        board_wf(advance_board(b, idx, d)),
        advance_board(b, idx, d).snakes.len() == b.snakes.len(),
        advance_board(b, idx, d).snakes[idx].id == b.snakes[idx].id,
{
    let b2 = advance_board(b, idx, d);
    assert(snake_wf(b.snakes[idx]));
    assert(b2.snakes[idx].body.len() == 1 + (b.snakes[idx].body.len() - 1));
    assert(b2.snakes[idx].body[0] == b2.snakes[idx].head);
    assert(forall|i: int| 0 <= i < b2.snakes.len() ==> snake_wf(#[trigger] b2.snakes[i]));
}

impl Battlesnake {
    /// Slither one cell: the new head is pushed to the front of the body and
    /// the tail cell is dropped, keeping the length.
    pub fn update_body(&mut self, new_head: Coord)
        requires
            old(self)@.body.len() >= 1,
        ensures
            final(self)@ == move_snake_to(old(self)@, new_head),
    {
        self.body.insert(0, new_head);
        self.body.pop();
        self.head = new_head;
        assert(self@.body =~= seq![new_head] + old(self)@.body.drop_last());
    }
}

impl SearchState {
    /// Root constructor: clones the board and locates the searching snake by
    /// identifier. Returns `None` exactly when no snake on the board carries
    /// `id` — an explicit invalid-input signal rather than a silent default.
    pub fn new(board: &Board, id: &str) -> (r: Option<SearchState>)
        ensures
            r.is_some() <==> crate::board::has_snake(board@, id@),
            r.is_some() ==> {
                let s = r.unwrap()@;
                &&& s.board == board@
                &&& s.id == id@
                &&& 0 <= s.idx < board@.snakes.len()
                &&& board@.snakes[s.idx].id == id@
            },
            board_wf(board@) && r.is_some() ==> state_wf(r.unwrap()@),
    {
        let cloned = clone_board(board);
        let mut found: bool = false;
        let mut idx: usize = 0;
        let mut i: usize = 0;
        while i < board.snakes.len()
            invariant
                0 <= i <= board.snakes@.len(),
                board@.snakes.len() == board.snakes@.len(),
                forall|j: int|
                    0 <= j < board.snakes@.len() ==> board@.snakes[j] == board.snakes@[j]@,
                !found ==> forall|j: int| 0 <= j < i ==> board@.snakes[j].id != id@,
                found ==> 0 <= idx < board@.snakes.len() && board@.snakes[idx as int].id == id@,
            decreases board.snakes@.len() - i,
        {
            if str_eq(board.snakes[i].id.as_str(), id) {
                found = true;
                idx = i;
            }
            i += 1;
        }
        if found {
            Some(SearchState { board: cloned, mysnake_id: String::from_str(id), idx })
        } else {
            assert(!crate::board::has_snake(board@, id@));
            None
        }
    }

    /// Moves every snake carrying identifier `id` (under board
    /// well-formedness, the one such snake) one cell in direction `mov`,
    /// in place; nothing else on the board changes. When `id` is the
    /// searching snake's own identifier this advances the board.
    pub fn in_place_update(&mut self, id: String, mov: Dir)
        requires
            forall|i: int|
                0 <= i < old(self)@.board.snakes.len()
                    && (#[trigger] old(self)@.board.snakes[i]).id == id@ ==> old(
                    self,
                )@.board.snakes[i].body.len() >= 1 && head_room(
                    old(self)@.board.snakes[i].head,
                    1,
                ),
        ensures
            final(self)@.id == old(self)@.id,
            final(self)@.idx == old(self)@.idx,
            final(self)@.board.width == old(self)@.board.width,
            final(self)@.board.height == old(self)@.board.height,
            final(self)@.board.food == old(self)@.board.food,
            final(self)@.board.snakes.len() == old(self)@.board.snakes.len(),
            forall|i: int|
                0 <= i < old(self)@.board.snakes.len() ==> final(self)@.board.snakes[i] == (
                if (#[trigger] old(self)@.board.snakes[i]).id == id@ {
                    move_snake(old(self)@.board.snakes[i], mov)
                } else {
                    old(self)@.board.snakes[i]
                }),
            state_wf(old(self)@) && id@ == old(self)@.id ==> final(self)@.board == advance_board(
                old(self)@.board,
                old(self)@.idx,
                mov,
            ),
    {
        let ghost pre = self@;
        let n = self.board.snakes.len();
        let mut i: usize = 0;
        while i < n
            invariant
                0 <= i <= n,
                n == self.board.snakes@.len(),
                self@.id == pre.id,
                self@.idx == pre.idx,
                self@.board.width == pre.board.width,
                self@.board.height == pre.board.height,
                self@.board.food == pre.board.food,
                self@.board.snakes.len() == pre.board.snakes.len(),
                forall|j: int|
                    0 <= j < pre.board.snakes.len() ==> (#[trigger] pre.board.snakes[j]).id
                        == id@ ==> pre.board.snakes[j].body.len() >= 1 && head_room(
                        pre.board.snakes[j].head,
                        1,
                    ),
                forall|j: int|
                    0 <= j < i ==> self@.board.snakes[j] == (
                    if (#[trigger] pre.board.snakes[j]).id == id@ {
                        move_snake(pre.board.snakes[j], mov)
                    } else {
                        pre.board.snakes[j]
                    }),
                forall|j: int| i <= j < n ==> self@.board.snakes[j] == pre.board.snakes[j],
            decreases n - i,
        {
            let matches_id = self.board.snakes[i].id == id;
            if matches_id {
                assert(self@.board.snakes[i as int].id == id@);
                assert(pre.board.snakes[i as int].id == id@);
                assert(pre.board.snakes[i as int].body.len() >= 1 && head_room(
                    pre.board.snakes[i as int].head,
                    1,
                ));
                let new_head = next_pos(&self.board.snakes[i].head, mov);
                assert(new_head == step_spec(pre.board.snakes[i as int].head, mov));
                let snake = &mut self.board.snakes[i];
                snake.update_body(new_head);
                assert(self@.board.snakes[i as int] == move_snake(pre.board.snakes[i as int], mov));
            }
            i += 1;
        }
        proof {
            if state_wf(pre) && id@ == pre.id {
                let b2 = advance_board(pre.board, pre.idx, mov);
                assert forall|j: int| 0 <= j < pre.board.snakes.len() implies self@.board.snakes[j]
                    == b2.snakes[j] by {
                    if pre.board.snakes[j].id == id@ {
                        lemma_unique_index(pre.board, j, pre.idx);
                    }
                }
                assert(self@.board =~= b2);
            }
        }
    }

    /// One search step: a fresh state whose board is the parent's board with
    /// the searching snake advanced one cell in direction `mov`. The parent
    /// is not touched.
    pub fn update(&self, mov: Dir) -> (r: SearchState)
        requires
            state_wf(self@),
            head_room(self@.board.snakes[self@.idx].head, 1),
        ensures
            r@.id == self@.id,
            r@.idx == self@.idx,
            r@.board == advance_board(self@.board, self@.idx, mov),
            state_wf(r@),
    {
        let opt = SearchState::new(&self.board, self.mysnake_id.as_str());
        let mut new_state = match opt {
            Some(s) => s,
            None => {
                proof {
                    assert(self@.board.snakes[self@.idx].id == self@.id);
                    assert(crate::board::has_snake(self@.board, self@.id));
                }
                unreached()
            },
        };
        proof {
            lemma_unique_index(self@.board, new_state@.idx, self@.idx);
        }
        let id_copy = new_state.mysnake_id.clone();
        new_state.in_place_update(id_copy, mov);
        proof {
            lemma_advance_preserves_wf(self@.board, self@.idx, mov);
        }
        new_state
    }

    /// The body of the first snake carrying `id`, or an empty vector when no
    /// snake does.
    pub fn get_snake_body(&self, id: String) -> (r: Vec<Coord>)
        ensures
            (forall|i: int|
                0 <= i < self@.board.snakes.len() ==> (#[trigger] self@.board.snakes[i]).id
                    != id@) ==> r@ == Seq::<Coord>::empty(),
            forall|i: int|
                0 <= i < self@.board.snakes.len() && (#[trigger] self@.board.snakes[i]).id == id@
                    && (forall|j: int| 0 <= j < i ==> self@.board.snakes[j].id != id@) ==> r@
                    == self@.board.snakes[i].body,
    {
        let n = self.board.snakes.len();
        let mut i: usize = 0;
        while i < n
            invariant
                0 <= i <= n,
                n == self.board.snakes@.len(),
                self@.board.snakes.len() == n,
                forall|j: int| 0 <= j < i ==> (#[trigger] self@.board.snakes[j]).id != id@,
            decreases n - i,
        {
            if self.board.snakes[i].id == id {
                assert(self@.board.snakes[i as int].id == id@);
                let r = clone_coords(&self.board.snakes[i].body);
                assert(r@ == self@.board.snakes[i as int].body);
                return r;
            }
            i += 1;
        }
        Vec::new()
    }

    /// Leaf evaluation: exactly 100 when the searching snake's head sits on
    /// a food cell, exactly 0 otherwise. Mutates nothing.
    pub fn eval(&self) -> (r: i32)
        requires
            0 <= self@.idx < self@.board.snakes.len(),
        ensures
            r as int == eval_spec(self@.board, self@.idx),
            r == 100 || r == 0,
            (r == 100) <==> self@.board.food.contains(self@.board.snakes[self@.idx].head),
    {
        let head = self.board.snakes[self.idx].head;
        if crate::board::contains_coord(&self.board.food, head) {
            100
        } else {
            0
        }
    }

    /// Depth-bounded exploration: returns the best leaf score reachable
    /// within `depth` further plies, folding the filter-allowed children in
    /// the fixed direction order over the seed score.
    pub fn dfs(&self, depth: usize) -> (r: i32)
        requires
            state_wf(self@),
            head_room(self@.board.snakes[self@.idx].head, depth + 1),
        ensures
            r as int == search_spec(self@.board, self@.idx, depth as nat),
        decreases depth,
    {
        if depth == 0 {
            return self.eval();
        }
        let ghost b = self@.board;
        let ghost ix = self@.idx;
        let ghost dm1 = (depth - 1) as nat;
        let moves = filter_trivially_bad_moves(&self.board, &self.board.snakes[self.idx]);
        assert(moves == allowed_moves(b, b.snakes[ix]));
        let ghost s0: int = score_floor();
        let mut max_sc: i32 = -99999;

        if moves.up {
            let child = self.update(Dir::Up);
            proof { lemma_step_head_room(b.snakes[ix].head, Dir::Up, depth as int); }
            let sc = child.dfs(depth - 1);
            if sc > max_sc {
                max_sc = sc;
            }
        }
        let ghost s1 = if moves.up {
            max_score(s0, search_spec(advance_board(b, ix, Dir::Up), ix, dm1))
        } else {
            s0
        };
        assert(max_sc as int == s1);

        if moves.down {
            let child = self.update(Dir::Down);
            proof { lemma_step_head_room(b.snakes[ix].head, Dir::Down, depth as int); }
            let sc = child.dfs(depth - 1);
            if sc > max_sc {
                max_sc = sc;
            }
        }
        let ghost s2 = if moves.down {
            max_score(s1, search_spec(advance_board(b, ix, Dir::Down), ix, dm1))
        } else {
            s1
        };
        assert(max_sc as int == s2);

        if moves.left {
            let child = self.update(Dir::Left);
            proof { lemma_step_head_room(b.snakes[ix].head, Dir::Left, depth as int); }
            let sc = child.dfs(depth - 1);
            if sc > max_sc {
                max_sc = sc;
            }
        }
        let ghost s3 = if moves.left {
            max_score(s2, search_spec(advance_board(b, ix, Dir::Left), ix, dm1))
        } else {
            s2
        };
        assert(max_sc as int == s3);

        if moves.right {
            let child = self.update(Dir::Right);
            proof { lemma_step_head_room(b.snakes[ix].head, Dir::Right, depth as int); }
            let sc = child.dfs(depth - 1);
            if sc > max_sc {
                max_sc = sc;
            }
        }
        let ghost s4 = if moves.right {
            max_score(s3, search_spec(advance_board(b, ix, Dir::Right), ix, dm1))
        } else {
            s3
        };
        assert(max_sc as int == s4);

        max_sc
    }

    /// Selects the move for the searching snake with `depth_limit` plies of
    /// lookahead: each filter-allowed direction is advanced one ply and
    /// searched; the first direction in the fixed order up, down, left,
    /// right whose score strictly beats the running maximum is kept, with
    /// `up` as the defensive default.
    pub fn best_move(&self, depth_limit: usize) -> (r: Dir)
        requires
            state_wf(self@),
            depth_limit >= 1,
            head_room(self@.board.snakes[self@.idx].head, depth_limit + 1),
        ensures
            r == best_move_spec(self@.board, self@.idx, depth_limit as nat),
    {
        let ghost b = self@.board;
        let ghost ix = self@.idx;
        let ghost dep = depth_limit as nat;
        let moves = filter_trivially_bad_moves(&self.board, &self.board.snakes[self.idx]);
        assert(moves == allowed_moves(b, b.snakes[ix]));
        let ghost a0 = (Dir::Up, score_floor());
        let mut best: Dir = Dir::Up;
        let mut max_sc: i32 = -99999;

        if moves.up {
            let child = self.update(Dir::Up);
            proof { lemma_step_head_room(b.snakes[ix].head, Dir::Up, depth_limit as int); }
            let sc = child.dfs(depth_limit - 1);
            if sc > max_sc {
                max_sc = sc;
                best = Dir::Up;
            }
        }
        let ghost a1 = pick_step(a0, Dir::Up, moves.up, root_score(b, ix, dep, Dir::Up));
        assert(best == a1.0 && max_sc as int == a1.1);

        if moves.down {
            let child = self.update(Dir::Down);
            proof { lemma_step_head_room(b.snakes[ix].head, Dir::Down, depth_limit as int); }
            let sc = child.dfs(depth_limit - 1);
            if sc > max_sc {
                max_sc = sc;
                best = Dir::Down;
            }
        }
        let ghost a2 = pick_step(a1, Dir::Down, moves.down, root_score(b, ix, dep, Dir::Down));
        assert(best == a2.0 && max_sc as int == a2.1);

        if moves.left {
            let child = self.update(Dir::Left);
            proof { lemma_step_head_room(b.snakes[ix].head, Dir::Left, depth_limit as int); }
            let sc = child.dfs(depth_limit - 1);
            if sc > max_sc {
                max_sc = sc;
                best = Dir::Left;
            }
        }
        let ghost a3 = pick_step(a2, Dir::Left, moves.left, root_score(b, ix, dep, Dir::Left));
        assert(best == a3.0 && max_sc as int == a3.1);

        if moves.right {
            let child = self.update(Dir::Right);
            proof { lemma_step_head_room(b.snakes[ix].head, Dir::Right, depth_limit as int); }
            let sc = child.dfs(depth_limit - 1);
            if sc > max_sc {
                max_sc = sc;
                best = Dir::Right;
            }
        }
        let ghost a4 = pick_step(a3, Dir::Right, moves.right, root_score(b, ix, dep, Dir::Right));
        assert(best == a4.0 && max_sc as int == a4.1);
        assert(a4 == best_pair(b, ix, dep));

        best
    }
}

/// Stepping a coordinate consumes one cell of head room.
pub proof fn lemma_step_head_room(c: Coord, d: Dir, k: int)
    requires
        k >= 0,
        head_room(c, k + 1),
    ensures
        head_room(step_spec(c, d), k),
{
}

/// The literal token for direction `d`, as handed back to the caller.
pub open spec fn dir_token(d: Dir) -> Seq<char> {
    match d {
        Dir::Up => "up"@,
        Dir::Down => "down"@,
        Dir::Left => "left"@,
        Dir::Right => "right"@,
    }
}

/// The directional token for `d`: one of `"up"`, `"down"`, `"left"`,
/// `"right"`.
pub fn dir_to_string(d: Dir) -> (r: String)
    ensures
        r@ == dir_token(d),
{
    match d {
        Dir::Up => String::from_str("up"),
        Dir::Down => String::from_str("down"),
        Dir::Left => String::from_str("left"),
        Dir::Right => String::from_str("right"),
    }
}

/// Game-start hook. The engine keeps no state across turns, so there is
/// nothing to set up; the serving layer may log the event.
pub fn start(_game: &Game, _turn: &u32, _board: &Board, _you: &Battlesnake) {
}

/// Game-end hook. The engine keeps no state across turns, so there is
/// nothing to tear down; the serving layer may log the event.
pub fn end(_game: &Game, _turn: &u32, _board: &Board, _you: &Battlesnake) {
}

/// One turn of the engine: builds a search root for the snake `you` on
/// `board` and returns the token of the move chosen by a four-ply search.
/// The caller must hand a board that actually carries `you`.
pub fn get_move(_game: &Game, _turn: &u32, board: &Board, you: &Battlesnake) -> (r: String)
    requires
        board_wf(board@),
        crate::board::has_snake(board@, you@.id),
        head_room(board@.snakes[crate::board::snake_index(board@, you@.id)].head, 5),
    ensures
        r@ == dir_token(
            best_move_spec(board@, crate::board::snake_index(board@, you@.id), 4),
        ),
{
    let ghost j = crate::board::snake_index(board@, you@.id);
    proof {
        assert(0 <= j < board@.snakes.len() && board@.snakes[j].id == you@.id);
    }
    let state = match SearchState::new(board, you.id.as_str()) {
        Some(s) => s,
        None => {
            proof {
                assert(crate::board::has_snake(board@, you@.id));
            }
            unreached()
        },
    };
    proof {
        lemma_unique_index(board@, state@.idx, j);
    }
    let chosen = state.best_move(4);
    dir_to_string(chosen)
}

} // verus!
