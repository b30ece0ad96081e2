//! The shorthand reader: well-formed lines and each rejection.

use rummikub::tiles::{
    deserialize_set, BasicTile, DeserializeError, Joker, JokerVariant, Tile, TileColor,
};

#[test]
fn test_vectorize_set_1() {
    let input = "r1 r2 r3 j d r7".to_string();
    let expected = vec![
        Tile::Basic(BasicTile::new(TileColor::Red, 1)),
        Tile::Basic(BasicTile::new(TileColor::Red, 2)),
        Tile::Basic(BasicTile::new(TileColor::Red, 3)),
        Tile::Joker(Joker::new(JokerVariant::Single)),
        Tile::Joker(Joker::new(JokerVariant::Double)),
        Tile::Basic(BasicTile::new(TileColor::Red, 7)),
    ];
    assert_eq!(deserialize_set(input).unwrap(), expected);
}

#[test]
fn test_vectorize_set_2() {
    let input = "a6 c u8 u9 m j u8 c a6".to_string();
    let expected = vec![
        Tile::Basic(BasicTile::new(TileColor::Black, 6)),
        Tile::Joker(Joker::new(JokerVariant::ColorChange)),
        Tile::Basic(BasicTile::new(TileColor::Blue, 8)),
        Tile::Basic(BasicTile::new(TileColor::Blue, 9)),
        Tile::Joker(Joker::new(JokerVariant::Mirror)),
        Tile::Joker(Joker::new(JokerVariant::Single)),
        Tile::Basic(BasicTile::new(TileColor::Blue, 8)),
        Tile::Joker(Joker::new(JokerVariant::ColorChange)),
        Tile::Basic(BasicTile::new(TileColor::Black, 6)),
    ];
    assert_eq!(deserialize_set(input).unwrap(), expected);
}

#[test]
fn test_vectorize_all_colors_and_jokers() {
    let input = "r1 o13 u7 a10 j d m c".to_string();
    let expected = vec![
        Tile::Basic(BasicTile::new(TileColor::Red, 1)),
        Tile::Basic(BasicTile::new(TileColor::Orange, 13)),
        Tile::Basic(BasicTile::new(TileColor::Blue, 7)),
        Tile::Basic(BasicTile::new(TileColor::Black, 10)),
        Tile::Joker(Joker::new(JokerVariant::Single)),
        Tile::Joker(Joker::new(JokerVariant::Double)),
        Tile::Joker(Joker::new(JokerVariant::Mirror)),
        Tile::Joker(Joker::new(JokerVariant::ColorChange)),
    ];
    assert_eq!(deserialize_set(input).unwrap(), expected);
}

#[test]
fn test_vectorize_accepts_sign_and_leading_zeros() {
    // the numeral is read the way `u8` parsing reads it: an optional
    // leading plus sign and leading zeros are fine
    let input = "r+7 o007".to_string();
    let expected = vec![
        Tile::Basic(BasicTile::new(TileColor::Red, 7)),
        Tile::Basic(BasicTile::new(TileColor::Orange, 7)),
    ];
    assert_eq!(deserialize_set(input).unwrap(), expected);
}

#[test]
fn test_vectorize_empty_input() {
    let result = deserialize_set("".to_string());
    assert_eq!(result, Err(DeserializeError::EmptyToken));
}

#[test]
fn test_vectorize_leading_space() {
    let result = deserialize_set(" r1".to_string());
    assert_eq!(result, Err(DeserializeError::EmptyToken));
}

#[test]
fn test_vectorize_trailing_space() {
    let result = deserialize_set("r1 ".to_string());
    assert_eq!(result, Err(DeserializeError::EmptyToken));
}

#[test]
fn test_vectorize_doubled_space() {
    let result = deserialize_set("r1  r2".to_string());
    assert_eq!(result, Err(DeserializeError::EmptyToken));
}

#[test]
fn test_vectorize_unknown_letter() {
    let result = deserialize_set("x5".to_string());
    assert_eq!(result, Err(DeserializeError::UnrecognizedToken));
}

#[test]
fn test_vectorize_joker_with_trailing_characters() {
    let result = deserialize_set("j5".to_string());
    assert_eq!(result, Err(DeserializeError::UnrecognizedJokerToken));
}

#[test]
fn test_vectorize_missing_value() {
    let result = deserialize_set("r".to_string());
    assert_eq!(result, Err(DeserializeError::MalformedTileValue));
}

#[test]
fn test_vectorize_non_numeric_value() {
    let result = deserialize_set("rx".to_string());
    assert_eq!(result, Err(DeserializeError::MalformedTileValue));
}

#[test]
fn test_vectorize_value_too_wide_for_a_byte() {
    let result = deserialize_set("r300".to_string());
    assert_eq!(result, Err(DeserializeError::MalformedTileValue));
}

#[test]
fn test_vectorize_value_zero() {
    let result = deserialize_set("r0".to_string());
    assert_eq!(result, Err(DeserializeError::TileValueOutOfRange));
}

#[test]
fn test_vectorize_value_above_thirteen() {
    let result = deserialize_set("r14".to_string());
    assert_eq!(result, Err(DeserializeError::TileValueOutOfRange));
}

#[test]
fn test_vectorize_reports_first_error() {
    let result = deserialize_set("r1 d5 x7".to_string());
    assert_eq!(result, Err(DeserializeError::UnrecognizedJokerToken));
}

#[test]
fn test_basic_tile_construction() {
    let tile = BasicTile::new(TileColor::Blue, 13);
    assert_eq!(tile.color, TileColor::Blue);
    assert_eq!(tile.value, 13);
}

#[test]
fn test_joker_construction() {
    let joker = Joker::new(JokerVariant::Mirror);
    assert_eq!(joker.variant, JokerVariant::Mirror);
}
