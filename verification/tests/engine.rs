use snake_engine::{
    attacks_opponent, filter_trivially_bad_moves, get_move, next_pos, Battlesnake, Board, Coord,
    Dir, Game, SearchState,
};

fn c(x: i32, y: i32) -> Coord {
    Coord { x, y }
}

fn snake(id: &str, cells: Vec<Coord>) -> Battlesnake {
    let head = cells[0];
    let length = cells.len() as u32;
    Battlesnake { id: String::from(id), body: cells, head, length }
}

fn board(width: i32, height: i32, food: Vec<Coord>, snakes: Vec<Battlesnake>) -> Board {
    Board { width, height, food, snakes }
}

fn game() -> Game {
    Game { id: String::from("game-1") }
}

#[test]
fn neck_below_blocks_down() {
    let you = snake("me", vec![c(5, 5), c(5, 4)]);
    let b = board(11, 11, vec![], vec![you.clone()]);
    let m = filter_trivially_bad_moves(&b, &you);
    assert!(!m.down);
    assert!(m.up);
    assert!(m.left);
    assert!(m.right);
}

#[test]
fn neck_left_blocks_left() {
    let you = snake("me", vec![c(5, 5), c(4, 5)]);
    let b = board(11, 11, vec![], vec![you.clone()]);
    let m = filter_trivially_bad_moves(&b, &you);
    assert!(!m.left);
    assert!(m.up && m.down && m.right);
}

#[test]
fn neck_right_blocks_right() {
    let you = snake("me", vec![c(5, 5), c(6, 5)]);
    let b = board(11, 11, vec![], vec![you.clone()]);
    let m = filter_trivially_bad_moves(&b, &you);
    assert!(!m.right);
    assert!(m.up && m.down && m.left);
}

#[test]
fn neck_above_blocks_up() {
    let you = snake("me", vec![c(5, 5), c(5, 6)]);
    let b = board(11, 11, vec![], vec![you.clone()]);
    let m = filter_trivially_bad_moves(&b, &you);
    assert!(!m.up);
    assert!(m.down && m.left && m.right);
}

#[test]
fn stacked_neck_blocks_nothing() {
    // At game start the body is stacked: neck equals head, no reversal mark.
    let you = snake("me", vec![c(5, 5), c(5, 5), c(5, 5)]);
    let b = board(11, 11, vec![], vec![you.clone()]);
    let m = filter_trivially_bad_moves(&b, &you);
    assert!(m.up && m.down && m.left && m.right);
}

#[test]
fn single_segment_skips_neck_rule() {
    let you = snake("me", vec![c(5, 5)]);
    let b = board(11, 11, vec![], vec![you.clone()]);
    let m = filter_trivially_bad_moves(&b, &you);
    assert!(m.up && m.down && m.left && m.right);
}

#[test]
fn walls_are_fatal() {
    let you = snake("me", vec![c(0, 0)]);
    let b = board(11, 11, vec![], vec![you.clone()]);
    let m = filter_trivially_bad_moves(&b, &you);
    assert!(!m.left);
    assert!(!m.down);
    assert!(m.up);
    assert!(m.right);
}

#[test]
fn own_body_is_fatal() {
    // Body bends: cells right of and below the head are own body.
    let you = snake("me", vec![c(5, 5), c(6, 5), c(6, 4), c(5, 4)]);
    let b = board(11, 11, vec![], vec![you.clone()]);
    let m = filter_trivially_bad_moves(&b, &you);
    assert!(!m.right);
    assert!(!m.down);
    assert!(m.up);
    assert!(m.left);
}

#[test]
fn larger_opponent_body_is_fatal() {
    let you = snake("me", vec![c(5, 5), c(5, 4)]);
    let other = snake("them", vec![c(5, 6), c(6, 6), c(7, 6)]);
    let b = board(11, 11, vec![], vec![you.clone(), other]);
    let m = filter_trivially_bad_moves(&b, &you);
    assert!(!m.up);
    assert!(m.left && m.right);
}

#[test]
fn smaller_opponent_body_is_not_fatal() {
    let you = snake("me", vec![c(5, 5), c(5, 4), c(4, 4)]);
    let other = snake("them", vec![c(5, 6)]);
    let b = board(11, 11, vec![], vec![you.clone(), other]);
    let m = filter_trivially_bad_moves(&b, &you);
    assert!(m.up);
}

#[test]
fn attacks_opponent_checks_size_and_identity() {
    let you = snake("me", vec![c(5, 5), c(5, 4)]);
    let equal = snake("them", vec![c(5, 6), c(6, 6)]);
    let b = board(11, 11, vec![], vec![you.clone(), equal]);
    // Equal length counts as fatal.
    assert!(attacks_opponent(&c(5, 6), &you, &b));
    // A cell nobody occupies is safe.
    assert!(!attacks_opponent(&c(4, 5), &you, &b));
    // The snake's own cells are skipped when checking opponents.
    assert!(!attacks_opponent(&c(5, 4), &you, &b));
}

#[test]
fn boxed_in_by_walls_allows_everything() {
    // 1x1 board: every direction leaves the grid, so the starvation
    // fallback hands back all four.
    let you = snake("me", vec![c(0, 0)]);
    let b = board(1, 1, vec![], vec![you.clone()]);
    let m = filter_trivially_bad_moves(&b, &you);
    assert!(m.up && m.down && m.left && m.right);
}

#[test]
fn boxed_in_by_bodies_allows_everything() {
    // The searching snake's own ring surrounds its head: all four
    // neighbours are body cells, so the fallback applies.
    let you = snake(
        "me",
        vec![
            c(1, 1),
            c(1, 0),
            c(0, 0),
            c(0, 1),
            c(0, 2),
            c(1, 2),
            c(2, 2),
            c(2, 1),
            c(2, 0),
        ],
    );
    let b = board(3, 3, vec![], vec![you.clone()]);
    let m = filter_trivially_bad_moves(&b, &you);
    assert!(m.up && m.down && m.left && m.right);
}

#[test]
fn next_pos_unit_vectors() {
    let p = c(3, 7);
    assert_eq!(next_pos(&p, Dir::Up), c(3, 8));
    assert_eq!(next_pos(&p, Dir::Down), c(3, 6));
    assert_eq!(next_pos(&p, Dir::Left), c(2, 7));
    assert_eq!(next_pos(&p, Dir::Right), c(4, 7));
}

#[test]
fn new_finds_snake_by_id() {
    let you = snake("me", vec![c(5, 5), c(5, 4)]);
    let other = snake("them", vec![c(1, 1)]);
    let b = board(11, 11, vec![], vec![other, you]);
    let state = SearchState::new(&b, "me").expect("snake present");
    assert_eq!(state.idx, 1);
    assert_eq!(state.mysnake_id, "me");
}

#[test]
fn new_missing_id_is_an_error() {
    let you = snake("me", vec![c(5, 5)]);
    let b = board(11, 11, vec![], vec![you]);
    assert!(SearchState::new(&b, "nobody").is_none());
}

#[test]
fn advance_never_mutates_parent() {
    let you = snake("me", vec![c(5, 5), c(5, 4)]);
    let other = snake("them", vec![c(1, 1), c(1, 2)]);
    let b = board(11, 11, vec![c(3, 3)], vec![you, other]);
    let state = SearchState::new(&b, "me").expect("snake present");
    let before = state.board.clone();
    let _child = state.update(Dir::Up);
    assert_eq!(state.board, before);
    assert_eq!(state.board, b);
}

#[test]
fn update_moves_only_the_searching_snake() {
    let you = snake("me", vec![c(5, 5), c(5, 4)]);
    let other = snake("them", vec![c(1, 1), c(1, 2)]);
    let b = board(11, 11, vec![], vec![you, other]);
    let state = SearchState::new(&b, "me").expect("snake present");
    let child = state.update(Dir::Up);
    // The searching snake slithered: new head prepended, tail dropped.
    assert_eq!(child.get_snake_body(String::from("me")), vec![c(5, 6), c(5, 5)]);
    assert_eq!(child.board.snakes[0].head, c(5, 6));
    assert_eq!(child.board.snakes[0].length, 2);
    // The opponent did not move.
    assert_eq!(child.get_snake_body(String::from("them")), vec![c(1, 1), c(1, 2)]);
    // Food and bounds are untouched.
    assert_eq!(child.board.width, 11);
    assert_eq!(child.board.height, 11);
    assert!(child.board.food.is_empty());
}

#[test]
fn get_snake_body_absent_is_empty() {
    let you = snake("me", vec![c(5, 5)]);
    let b = board(11, 11, vec![], vec![you]);
    let state = SearchState::new(&b, "me").expect("snake present");
    assert_eq!(state.get_snake_body(String::from("ghost-id")), Vec::<Coord>::new());
}

#[test]
fn eval_is_100_on_food_else_0() {
    let you = snake("me", vec![c(5, 5), c(5, 4)]);
    let b_hit = board(11, 11, vec![c(2, 2), c(5, 5)], vec![you.clone()]);
    let state = SearchState::new(&b_hit, "me").expect("snake present");
    assert_eq!(state.eval(), 100);

    let b_miss = board(11, 11, vec![c(2, 2)], vec![you.clone()]);
    let state = SearchState::new(&b_miss, "me").expect("snake present");
    assert_eq!(state.eval(), 0);

    let b_empty = board(11, 11, vec![], vec![you]);
    let state = SearchState::new(&b_empty, "me").expect("snake present");
    assert_eq!(state.eval(), 0);
}

#[test]
fn dfs_depth_zero_is_eval() {
    let you = snake("me", vec![c(5, 5), c(5, 4)]);
    let b = board(11, 11, vec![c(5, 5)], vec![you]);
    let state = SearchState::new(&b, "me").expect("snake present");
    assert_eq!(state.dfs(0), state.eval());
    assert_eq!(state.dfs(0), 100);
}

#[test]
fn best_move_reaches_adjacent_food() {
    // Food one cell up; at any depth >= 1 only "up" scores 100.
    let you = snake("me", vec![c(5, 5), c(5, 4)]);
    let b = board(11, 11, vec![c(5, 6)], vec![you.clone()]);
    let state = SearchState::new(&b, "me").expect("snake present");
    assert_eq!(state.best_move(1), Dir::Up);
    let state = SearchState::new(&b, "me").expect("snake present");
    assert_eq!(state.best_move(4), Dir::Up);
    assert_eq!(get_move(&game(), &0, &b, &you), "up");
}

#[test]
fn corner_snake_never_reverses_onto_neck() {
    // Head in the corner with the neck above: "up" is disallowed, "down"
    // and "left" leave the grid, so the only legal move is "right".
    let you = snake("me", vec![c(0, 0), c(0, 1)]);
    let b = board(11, 11, vec![], vec![you.clone()]);
    let m = filter_trivially_bad_moves(&b, &you);
    assert!(!m.up);
    assert!(!m.get(Dir::Up));
    assert!(m.get(Dir::Right));
    let chosen = get_move(&game(), &0, &b, &you);
    assert_ne!(chosen, "up");
    assert!(chosen == "down" || chosen == "left" || chosen == "right");
    assert_eq!(chosen, "right");
}

#[test]
fn boxed_in_search_still_moves() {
    // Fully boxed in: the fallback keeps the tree non-empty, every branch
    // scores alike, and the tie-break hands back the first direction.
    let you = snake("me", vec![c(0, 0)]);
    let b = board(1, 1, vec![], vec![you.clone()]);
    let state = SearchState::new(&b, "me").expect("snake present");
    assert_eq!(state.best_move(2), Dir::Up);
    assert_eq!(get_move(&game(), &0, &b, &you), "up");
}

#[test]
fn fixed_depth_is_deterministic() {
    let you = snake("me", vec![c(5, 5), c(5, 4)]);
    let other = snake("them", vec![c(3, 3), c(3, 4), c(4, 4)]);
    let b = board(11, 11, vec![c(7, 7)], vec![you.clone(), other]);
    let first = get_move(&game(), &0, &b, &you);
    let second = get_move(&game(), &0, &b, &you);
    assert_eq!(first, second);
    let s1 = SearchState::new(&b, "me").expect("snake present");
    let s2 = SearchState::new(&b, "me").expect("snake present");
    assert_eq!(s1.best_move(3), s2.best_move(3));
}
