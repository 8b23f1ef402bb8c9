use sokoban::game::{Game, Status, GAME_LEVEL_COUNT, MAP_SIZE};
use sokoban::level::{Level, Position};
use sokoban::tile::{Direction, Tile};

fn start(text: &str, levels: usize) -> Game {
    let level = Level::decode(text.as_bytes(), 4).unwrap();
    assert!(level.is_playable());
    let mut game = Game::new(4, levels);
    game.initialize(level);
    game
}

fn cells(game: &Game) -> Vec<Tile> {
    let mut v = Vec::new();
    for row in 0..4 {
        for col in 0..4 {
            v.push(game.tile_at(col, row));
        }
    }
    v
}

fn count(game: &Game, f: fn(Tile) -> bool) -> usize {
    cells(game).into_iter().filter(|t| f(*t)).count()
}

fn is_box(t: Tile) -> bool {
    t == Tile::Box || t == Tile::BoxOnTarget
}

fn is_player(t: Tile) -> bool {
    matches!(
        t,
        Tile::PlayerFacingDown | Tile::PlayerFacingLeft | Tile::PlayerFacingRight | Tile::PlayerFacingUp
    )
}

fn act(game: &mut Game, d: Direction) {
    game.queue_action(d);
    game.advance();
}

#[test]
fn push_right_then_blocked_at_edge() {
    let mut game = start("1111\n1111\n1532\n1111\n", 50);
    assert_eq!(game.position(), Position { col: 1, row: 1 });
    act(&mut game, Direction::Right);
    assert_eq!(game.position(), Position { col: 2, row: 1 });
    assert_eq!(game.tile_at(2, 1), Tile::PlayerFacingLeft);
    assert_eq!(game.tile_at(3, 1), Tile::Box);
    assert_eq!(game.tile_at(1, 1), Tile::Ground);
    assert_eq!(game.under_tile(), Tile::Ground);
    assert!(game.is_dirty());
    assert_eq!(game.status(), Status::InProgress);
    game.clear_dirty();
    let before = cells(&game);
    act(&mut game, Direction::Right);
    assert_eq!(cells(&game), before);
    assert_eq!(game.position(), Position { col: 2, row: 1 });
    assert!(!game.is_dirty());
}

#[test]
fn walk_onto_target_and_back() {
    let mut game = start("1113\n1111\n1541\n1111\n", 50);
    act(&mut game, Direction::Right);
    assert_eq!(game.under_tile(), Tile::Target);
    assert_eq!(game.tile_at(1, 1), Tile::Ground);
    act(&mut game, Direction::Left);
    assert_eq!(game.tile_at(2, 1), Tile::Target);
    assert_eq!(game.tile_at(1, 1), Tile::PlayerFacingRight);
    assert_eq!(game.under_tile(), Tile::Ground);
}

#[test]
fn walls_and_blank_block_the_player() {
    let mut game = start("0003\n2122\n2502\n2222\n", 50);
    game.clear_dirty();
    let before = cells(&game);
    act(&mut game, Direction::Up);
    act(&mut game, Direction::Right);
    assert_eq!(cells(&game), before);
    assert_eq!(game.position(), Position { col: 1, row: 1 });
    assert!(!game.is_dirty());
    act(&mut game, Direction::Down);
    assert_eq!(game.position(), Position { col: 1, row: 0 });
    assert_eq!(game.tile_at(1, 0), Tile::PlayerFacingDown);
    act(&mut game, Direction::Left);
    assert_eq!(game.tile_at(0, 0), Tile::PlayerFacingRight);
}

#[test]
fn off_grid_step_changes_nothing() {
    let mut game = start("5222\n2222\n2232\n2222\n", 50);
    game.clear_dirty();
    let before = cells(&game);
    act(&mut game, Direction::Up);
    act(&mut game, Direction::Left);
    assert_eq!(cells(&game), before);
    assert_eq!(game.position(), Position { col: 0, row: 3 });
    assert!(!game.is_dirty());
}

#[test]
fn push_into_wall_box_or_blank_is_refused() {
    for text in ["2222\n5312\n2222\n2222\n", "2222\n5332\n2222\n2222\n", "2222\n5392\n2222\n2222\n", "2222\n5302\n2222\n2222\n"] {
        let mut game = start(text, 50);
        game.clear_dirty();
        let before = cells(&game);
        act(&mut game, Direction::Right);
        assert_eq!(cells(&game), before);
        assert_eq!(game.position(), Position { col: 0, row: 2 });
        assert!(!game.is_dirty());
    }
}

#[test]
fn push_off_target_onto_target() {
    let mut game = start("3222\n5942\n2222\n2222\n", 50);
    act(&mut game, Direction::Right);
    assert_eq!(game.tile_at(0, 2), Tile::Ground);
    assert_eq!(game.tile_at(1, 2), Tile::PlayerFacingLeft);
    assert_eq!(game.tile_at(2, 2), Tile::BoxOnTarget);
    assert_eq!(game.under_tile(), Tile::Target);
    assert_eq!(game.status(), Status::InProgress);
    act(&mut game, Direction::Right);
    assert_eq!(game.tile_at(1, 2), Tile::Target);
    assert_eq!(game.tile_at(2, 2), Tile::PlayerFacingLeft);
    assert_eq!(game.tile_at(3, 2), Tile::Box);
    assert_eq!(game.under_tile(), Tile::Target);
}

#[test]
fn boxes_and_player_are_kept_over_a_walk() {
    let mut game = start("2222\n2392\n2532\n2242\n", 50);
    let boxes = count(&game, is_box);
    let moves = [Direction::Up, Direction::Right, Direction::Down, Direction::Left, Direction::Up, Direction::Up, Direction::Right, Direction::Right, Direction::Down, Direction::Down, Direction::Left];
    for d in moves {
        act(&mut game, d);
        assert_eq!(count(&game, is_box), boxes);
        assert_eq!(count(&game, is_player), 1);
        let p = game.position();
        assert!(is_player(game.tile_at(p.col, p.row)));
    }
}

#[test]
fn winning_moves_to_the_next_level() {
    let mut game = start("2222\n2222\n5342\n2222\n", 50);
    assert!(!game.is_won());
    act(&mut game, Direction::Right);
    assert!(game.is_won());
    assert_eq!(game.status(), Status::AwaitingLevelLoad);
    assert_eq!(game.current_level_index(), 2);
    act(&mut game, Direction::Right);
    assert_eq!(game.tile_at(1, 1), Tile::PlayerFacingLeft);
}

#[test]
fn won_ignores_targets_and_covered_boxes() {
    let game = start("4444\n9999\n5222\n4229\n", 50);
    assert!(game.is_won());
    let game = start("4444\n9999\n5223\n4229\n", 50);
    assert!(!game.is_won());
}

#[test]
fn last_level_wraps_to_first() {
    let mut game = start("2222\n2222\n5342\n2222\n", 3);
    game.level = 3;
    act(&mut game, Direction::Right);
    assert_eq!(game.status(), Status::AwaitingLevelLoad);
    assert_eq!(game.current_level_index(), 1);
}

#[test]
fn actions_wait_for_a_level() {
    let mut game = Game::new(4, 50);
    game.queue_action(Direction::Up);
    game.advance();
    assert_eq!(game.status(), Status::AwaitingLevelLoad);
    assert_eq!(game.pending, None);
    assert_eq!(game.position(), Position { col: 0, row: 0 });
}

#[test]
fn pending_action_is_replaced_and_cleared() {
    let mut game = start("2222\n2222\n2522\n2222\n", 50);
    game.queue_action(Direction::Up);
    game.queue_action(Direction::Right);
    assert_eq!(game.pending, Some(Direction::Right));
    game.advance();
    assert_eq!(game.pending, None);
    assert_eq!(game.position(), Position { col: 2, row: 1 });
    game.clear_dirty();
    game.advance();
    assert!(!game.is_dirty());
    assert_eq!(game.position(), Position { col: 2, row: 1 });
}

#[test]
fn default_game_waits_for_first_level() {
    let game = Game::default();
    assert_eq!(game.current_level_index(), 1);
    assert_eq!(game.level_count, GAME_LEVEL_COUNT);
    assert_eq!(game.grid.size, MAP_SIZE);
    assert_eq!(game.status(), Status::AwaitingLevelLoad);
    assert!(game.is_dirty());
    assert!(!game.is_won() || game.grid.cells.iter().all(|t| *t == Tile::Blank));
}

#[test]
fn default_game_is_blank_at_origin_on_ground() {
    let game = Game::default();
    assert!(game.grid.cells.iter().all(|t| *t == Tile::Blank));
    assert_eq!(game.grid.cells.len(), MAP_SIZE * MAP_SIZE);
    assert_eq!(game.position(), Position { col: 0, row: 0 });
    assert_eq!(game.under_tile(), Tile::Ground);
    assert_eq!(game.pending, None);
}

#[test]
fn step_pushes_box_directly() {
    let mut game = start("3222\n5321\n2222\n2222\n", 50);
    assert!(game.step(Direction::Right));
    assert_eq!(game.tile_at(2, 2), Tile::Box);
    assert_eq!(game.tile_at(1, 2), Tile::PlayerFacingLeft);
    assert!(!game.step(Direction::Right));
    assert_eq!(game.position(), Position { col: 1, row: 2 });
}
