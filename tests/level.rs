use sokoban::level::{count_defaulted_cells, DecodeError, Level, Position, normalize_newlines};
use sokoban::tile::{Direction, Tile};

#[test]
fn decode_flips_rows_and_finds_start() {
    let level = Level::decode(b"0500\n0000\n0000\n0000\n", 4).unwrap();
    assert_eq!(level.start, Position { col: 1, row: 3 });
    assert_eq!(level.grid.get(1, 3), Tile::PlayerFacingDown);
    assert_eq!(level.grid.get(0, 3), Tile::Blank);
    assert_eq!(level.grid.get(1, 0), Tile::Blank);
    assert!(level.is_playable());
}

#[test]
fn decode_reads_every_code() {
    let level = Level::decode(b"0123\n4567\n8900\n0000\n", 4).unwrap();
    assert_eq!(level.grid.get(0, 3), Tile::Blank);
    assert_eq!(level.grid.get(1, 3), Tile::Wall);
    assert_eq!(level.grid.get(2, 3), Tile::Ground);
    assert_eq!(level.grid.get(3, 3), Tile::Box);
    assert_eq!(level.grid.get(0, 2), Tile::Target);
    assert_eq!(level.grid.get(1, 2), Tile::PlayerFacingDown);
    assert_eq!(level.grid.get(2, 2), Tile::PlayerFacingRight);
    assert_eq!(level.grid.get(3, 2), Tile::PlayerFacingLeft);
    assert_eq!(level.grid.get(0, 1), Tile::PlayerFacingUp);
    assert_eq!(level.grid.get(1, 1), Tile::BoxOnTarget);
    assert_eq!(level.start, Position { col: 1, row: 2 });
    assert!(!level.is_playable());
}

#[test]
fn decode_accepts_crlf() {
    let level = Level::decode(b"1111\r\n1522\r\n1231\r\n1111\r\n", 4).unwrap();
    assert_eq!(level.start, Position { col: 1, row: 2 });
    assert_eq!(level.grid.get(3, 2), Tile::Ground);
    assert_eq!(level.grid.get(2, 1), Tile::Box);
    assert_eq!(level.grid.get(3, 1), Tile::Wall);
}

#[test]
fn decode_defaults_bad_and_missing_cells_to_blank() {
    let level = Level::decode(b"x5\n2", 2).unwrap();
    assert_eq!(level.grid.get(0, 1), Tile::Blank);
    assert_eq!(level.grid.get(1, 1), Tile::PlayerFacingDown);
    assert_eq!(level.grid.get(0, 0), Tile::Ground);
    assert_eq!(level.grid.get(1, 0), Tile::Blank);
}

#[test]
fn decode_without_player_starts_at_origin() {
    let level = Level::decode(b"22\n22\n", 2).unwrap();
    assert_eq!(level.start, Position { col: 0, row: 0 });
    assert!(!level.is_playable());
}

#[test]
fn decode_rejects_invalid_utf8() {
    let r = Level::decode(&[0x35, 0xff, 0xfe, 0x0a], 2);
    assert_eq!(r.err(), Some(DecodeError::InvalidText));
}

#[test]
fn decode_empty_text_is_blank() {
    let level = Level::decode(b"", 3).unwrap();
    for col in 0..3 {
        for row in 0..3 {
            assert_eq!(level.grid.get(col, row), Tile::Blank);
        }
    }
}

#[test]
fn normalize_newlines_drops_cr_before_lf_only() {
    assert_eq!(normalize_newlines(b"a\r\nb\rc\r\r\n"), b"a\nb\rc\r\n".to_vec());
    assert_eq!(normalize_newlines(b""), Vec::<u8>::new());
}

#[test]
fn tile_codes_round_trip() {
    for c in 0u8..10 {
        assert_eq!(Tile::from_code(c).code(), c);
        assert_eq!(Tile::from_char(b'0' + c), Tile::from_code(c));
    }
    assert_eq!(Tile::from_code(10), Tile::Blank);
    assert_eq!(Tile::from_char(b'a'), Tile::Blank);
}

#[test]
fn player_tiles_swap_left_and_right() {
    assert_eq!(Direction::Right.player_tile(), Tile::PlayerFacingLeft);
    assert_eq!(Direction::Left.player_tile(), Tile::PlayerFacingRight);
    assert_eq!(Direction::Up.player_tile(), Tile::PlayerFacingUp);
    assert_eq!(Direction::Down.player_tile(), Tile::PlayerFacingDown);
}

#[test]
fn keys_pick_the_last_in_order() {
    assert_eq!(Direction::from_keys(true, true, true, true), Some(Direction::Down));
    assert_eq!(Direction::from_keys(true, true, true, false), Some(Direction::Up));
    assert_eq!(Direction::from_keys(true, true, false, false), Some(Direction::Right));
    assert_eq!(Direction::from_keys(true, false, false, false), Some(Direction::Left));
    assert_eq!(Direction::from_keys(false, false, false, false), None);
}

#[test]
fn count_defaulted_cells_counts_non_digits_and_missing() {
    assert_eq!(count_defaulted_cells(b"0500\n0000\n0000\n0000\n", 4), 0);
    assert_eq!(count_defaulted_cells(b"x5\n2", 2), 2);
    assert_eq!(count_defaulted_cells(b"x5\r\n2a\r\n", 2), 2);
    assert_eq!(count_defaulted_cells(b"", 3), 9);
}

#[test]
fn crlf_and_lf_texts_decode_alike() {
    let a = Level::decode(b"1111\n1532\n1241\n1111\n", 4).unwrap();
    let b = Level::decode(b"1111\r\n1532\r\n1241\r\n1111\r\n", 4).unwrap();
    assert_eq!(a.start, b.start);
    assert_eq!(a.grid.cells, b.grid.cells);
}
