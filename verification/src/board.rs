//! Board data model: coordinates, snakes, the board aggregate, and their
//! mathematical views, together with the well-formedness invariants that the
//! engine relies on.

use vstd::prelude::*;

verus! {

/// A cell of the grid. Cells are indexed `[0, width) x [0, height)`;
/// `y` grows upward.
#[derive(Clone, Copy, PartialEq, Eq, Structural, Debug)]
pub struct Coord {
    pub x: i32,
    pub y: i32,
}

/// One of the four cardinal moves, in the engine's fixed iteration order:
/// up, down, left, right.
#[derive(Clone, Copy, PartialEq, Eq, Structural, Debug)]
pub enum Dir {
    Up,
    Down,
    Left,
    Right,
}

/// The legality filter's answer: one flag per direction, `true` meaning
/// "not yet known to be fatal".
#[derive(Clone, Copy, PartialEq, Eq, Structural, Debug)]
pub struct MoveSet {
    pub up: bool,
    pub down: bool,
    pub left: bool,
    pub right: bool,
}

impl MoveSet {
    /// Whether direction `d` is marked allowed.
    pub open spec fn allows(self, d: Dir) -> bool {
        match d {
            Dir::Up => self.up,
            Dir::Down => self.down,
            Dir::Left => self.left,
            Dir::Right => self.right,
        }
    }

    /// Executable lookup of the flag for direction `d`.
    pub fn get(&self, d: Dir) -> (r: bool)
        ensures
            r == self.allows(d),
    {
        match d {
            Dir::Up => self.up,
            Dir::Down => self.down,
            Dir::Left => self.left,
            Dir::Right => self.right,
        }
    }
}

/// A snake: unique identifier, body cells ordered from head to tail,
/// a cached head coordinate, and a length used to break collisions by size.
#[derive(Clone, PartialEq, Eq, Debug)]
pub struct Battlesnake {
    pub id: String,
    pub body: Vec<Coord>,
    pub head: Coord,
    pub length: u32,
}

/// Mathematical view of a [`Battlesnake`].
#[verifier::ext_equal]
pub ghost struct SnakeV {
    pub id: Seq<char>,
    pub body: Seq<Coord>,
    pub head: Coord,
    pub length: u32,
}

impl View for Battlesnake {
    type V = SnakeV;

    open spec fn view(&self) -> SnakeV {
        SnakeV { id: self.id@, body: self.body@, head: self.head, length: self.length }
    }
}

/// The board: grid bounds, food cells, and every snake currently alive
/// (including the searching snake).
#[derive(Clone, PartialEq, Eq, Debug)]
pub struct Board {
    pub width: i32,
    pub height: i32,
    pub food: Vec<Coord>,
    pub snakes: Vec<Battlesnake>,
}

/// Mathematical view of a [`Board`].
#[verifier::ext_equal]
pub ghost struct BoardV {
    pub width: int,
    pub height: int,
    pub food: Seq<Coord>,
    pub snakes: Seq<SnakeV>,
}

impl View for Board {
    type V = BoardV;

    open spec fn view(&self) -> BoardV {
        BoardV {
            width: self.width as int,
            height: self.height as int,
            food: self.food@,
            snakes: Seq::new(self.snakes@.len(), |i: int| self.snakes@[i]@),
        }
    }
}

/// Per-turn metadata handed along with a board; used only for diagnostics,
/// never for decision logic.
#[derive(Clone, PartialEq, Eq, Debug)]
pub struct Game {
    pub id: String,
}

/// A snake is well formed when its body is non-empty and its cached head
/// equals the first body cell.
pub open spec fn snake_wf(s: SnakeV) -> bool {
    &&& s.body.len() >= 1
    &&& s.head == s.body[0]
}

/// A board is well formed when its grid is non-degenerate, every snake is
/// well formed, and snake identifiers are unique.
pub open spec fn board_wf(b: BoardV) -> bool {
    &&& b.width >= 1
    &&& b.height >= 1
    &&& forall|i: int| 0 <= i < b.snakes.len() ==> snake_wf(#[trigger] b.snakes[i])
    &&& forall|i: int, j: int|
        0 <= i < j < b.snakes.len() ==> b.snakes[i].id != b.snakes[j].id
}

/// `c` has at least `k` cells of room to every side before the `i32`
/// representation would overflow.
pub open spec fn head_room(c: Coord, k: int) -> bool {
    &&& i32::MIN + k <= c.x <= i32::MAX - k
    &&& i32::MIN + k <= c.y <= i32::MAX - k
}

/// Whether some snake on `b` carries identifier `id`.
pub open spec fn has_snake(b: BoardV, id: Seq<char>) -> bool {
    exists|i: int| 0 <= i < b.snakes.len() && b.snakes[i].id == id
}

/// The index of the snake carrying `id`; meaningful only when
/// `has_snake(b, id)` holds, and unique under `board_wf`.
pub open spec fn snake_index(b: BoardV, id: Seq<char>) -> int {
    choose|i: int| 0 <= i < b.snakes.len() && b.snakes[i].id == id
}

/// On a well-formed board, two snakes with the same identifier are the same
/// snake.
pub proof fn lemma_unique_index(b: BoardV, i: int, j: int)
    requires
        board_wf(b),
        0 <= i < b.snakes.len(),
        0 <= j < b.snakes.len(),
        b.snakes[i].id == b.snakes[j].id,
    ensures
        i == j,
{
    if i < j {
        assert(b.snakes[i].id != b.snakes[j].id);
    } else if j < i {
        assert(b.snakes[j].id != b.snakes[i].id);
    }
}

/// Relies on `str`'s `PartialEq`: `==` on string slices compares their
/// character contents.
#[verifier::external_body]
pub(crate) fn str_eq(a: &str, b: &str) -> (r: bool)
    ensures
        r == (a@ == b@),
{
    a == b
}

/// True iff `v` holds the cell `c`.
pub fn contains_coord(v: &Vec<Coord>, c: Coord) -> (r: bool)
    ensures
        r == v@.contains(c),
{
    let mut i: usize = 0;
    while i < v.len()
        invariant
            0 <= i <= v@.len(),
            forall|j: int| 0 <= j < i ==> v@[j] != c,
        decreases v@.len() - i,
    {
        if v[i] == c {
            assert(v@.contains(c));
            return true;
        }
        i += 1;
    }
    assert(forall|j: int| 0 <= j < v@.len() ==> v@[j] != c);
    false
}

/// Copy of a coordinate vector with the same contents.
pub(crate) fn clone_coords(v: &Vec<Coord>) -> (r: Vec<Coord>)
    ensures
        r@ == v@,
{
    let mut r: Vec<Coord> = Vec::new();
    let mut i: usize = 0;
    while i < v.len()
        invariant
            0 <= i <= v@.len(),
            r@ == v@.subrange(0, i as int),
        decreases v@.len() - i,
    {
        r.push(v[i]);
        assert(r@ =~= v@.subrange(0, i + 1 as int));
        i += 1;
    }
    assert(r@ =~= v@);
    r
}

/// Copy of a snake with an equal view.
pub(crate) fn clone_snake(s: &Battlesnake) -> (r: Battlesnake)
    ensures
        r@ == s@,
{
    Battlesnake {
        id: s.id.clone(),
        body: clone_coords(&s.body),
        head: s.head,
        length: s.length,
    }
}

/// Copy of a board with an equal view.
pub(crate) fn clone_board(b: &Board) -> (r: Board)
    ensures
        r@ == b@,
{
    let mut snakes: Vec<Battlesnake> = Vec::new();
    let mut i: usize = 0;
    while i < b.snakes.len()
        invariant
            0 <= i <= b.snakes@.len(),
            snakes@.len() == i,
            forall|j: int| 0 <= j < i ==> snakes@[j]@ == b.snakes@[j]@,
        decreases b.snakes@.len() - i,
    {
        snakes.push(clone_snake(&b.snakes[i]));
        i += 1;
    }
    let r = Board { width: b.width, height: b.height, food: clone_coords(&b.food), snakes };
    assert(r@ =~= b@);
    r
}

} // verus!
