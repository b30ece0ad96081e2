//! Scenarios for the three-way checker, the symmetry resolver, the color
//! allowance maps, and the win search stub.

use rummikub::colors::Colors;
use rummikub::parser::{check_set, is_symmetric, is_valid_set, Verdict};
use rummikub::solve::can_win;
use rummikub::tiles::{BasicTile, Joker, JokerVariant, Tile, TileColor};

fn basic(color: TileColor, value: u8) -> Tile {
    Tile::Basic(BasicTile::new(color, value))
}

fn joker(variant: JokerVariant) -> Tile {
    Tile::Joker(Joker::new(variant))
}

#[test]
fn test_empty_and_tiny_sequences_are_invalid() {
    assert_eq!(is_valid_set(&vec![]), false);
    assert_eq!(is_valid_set(&vec![basic(TileColor::Red, 5)]), false);
    assert_eq!(
        is_valid_set(&vec![joker(JokerVariant::Single), joker(JokerVariant::Single)]),
        false
    );
}

#[test]
fn test_checking_twice_gives_the_same_answer() {
    let set = vec![
        basic(TileColor::Red, 5),
        basic(TileColor::Red, 6),
        basic(TileColor::Red, 7),
    ];
    let first = is_valid_set(&set);
    let second = is_valid_set(&set);
    assert_eq!(first, second);
    assert_eq!(set.len(), 3);
}

#[test]
fn test_leading_joker_cannot_push_run_start_below_one() {
    // the joker would have to stand for a 0 tile
    let set = vec![
        joker(JokerVariant::Single),
        basic(TileColor::Red, 1),
        basic(TileColor::Red, 2),
    ];
    assert_eq!(is_valid_set(&set), false);
    let ok = vec![
        joker(JokerVariant::Single),
        basic(TileColor::Red, 2),
        basic(TileColor::Red, 3),
    ];
    assert_eq!(is_valid_set(&ok), true);
}

#[test]
fn test_five_leading_slots_need_a_value_of_five() {
    // four joker slots then the first numbered tile: the run reads 1..5
    let set = vec![
        joker(JokerVariant::Single),
        joker(JokerVariant::Single),
        joker(JokerVariant::Double),
        basic(TileColor::Red, 5),
    ];
    assert_eq!(is_valid_set(&set), true);
    let short = vec![
        joker(JokerVariant::Single),
        joker(JokerVariant::Single),
        joker(JokerVariant::Double),
        basic(TileColor::Red, 4),
    ];
    assert_eq!(is_valid_set(&short), false);
}

#[test]
fn test_run_forced_by_leading_jokers_still_counts_values() {
    // after j j d the next tile locks the value: no gap may follow it
    let consecutive = vec![
        joker(JokerVariant::Single),
        joker(JokerVariant::Single),
        joker(JokerVariant::Double),
        basic(TileColor::Red, 6),
        basic(TileColor::Red, 7),
    ];
    assert_eq!(is_valid_set(&consecutive), true);
    let gap = vec![
        joker(JokerVariant::Single),
        joker(JokerVariant::Single),
        joker(JokerVariant::Double),
        basic(TileColor::Red, 6),
        basic(TileColor::Red, 8),
    ];
    assert_eq!(is_valid_set(&gap), false);
}

#[test]
fn test_many_single_jokers_keep_the_count() {
    // r5 j j j j reads 5 6 7 8 9, so red 10 continues it and red 11 does not
    let continued = vec![
        basic(TileColor::Red, 5),
        joker(JokerVariant::Single),
        joker(JokerVariant::Single),
        joker(JokerVariant::Single),
        joker(JokerVariant::Single),
        basic(TileColor::Red, 10),
    ];
    assert_eq!(is_valid_set(&continued), true);
    let skewed = vec![
        basic(TileColor::Red, 5),
        joker(JokerVariant::Single),
        joker(JokerVariant::Single),
        joker(JokerVariant::Single),
        joker(JokerVariant::Single),
        basic(TileColor::Red, 11),
    ];
    assert_eq!(is_valid_set(&skewed), false);
}

#[test]
fn test_color_change_after_a_joker_counts_both_slots() {
    // r5 j c reads 5 6 7, so the change's own slot stands for 7 and the
    // run continues at 8
    let continued = vec![
        basic(TileColor::Red, 5),
        joker(JokerVariant::Single),
        joker(JokerVariant::ColorChange),
        basic(TileColor::Blue, 8),
    ];
    assert_eq!(is_valid_set(&continued), true);
    let skewed = vec![
        basic(TileColor::Red, 5),
        joker(JokerVariant::Single),
        joker(JokerVariant::ColorChange),
        basic(TileColor::Blue, 7),
    ];
    assert_eq!(is_valid_set(&skewed), false);
}

#[test]
fn test_run_start_beats_group_reading() {
    // the first two numbered tiles share a color with consecutive values,
    // so the sequence is a run and the group-like third tile breaks it
    let set = vec![
        basic(TileColor::Red, 8),
        basic(TileColor::Red, 9),
        basic(TileColor::Orange, 9),
    ];
    assert_eq!(is_valid_set(&set), false);
}

#[test]
fn test_color_change_in_group_is_invalid() {
    let set = vec![
        basic(TileColor::Red, 7),
        basic(TileColor::Blue, 7),
        joker(JokerVariant::ColorChange),
        basic(TileColor::Black, 7),
    ];
    assert_eq!(is_valid_set(&set), false);
}

#[test]
fn test_group_repeating_a_color_later_is_invalid() {
    // the repeated color appears after classification: the fourth tile
    // reuses orange, whose allowance the third tile already consumed
    let set = vec![
        basic(TileColor::Red, 7),
        basic(TileColor::Blue, 7),
        basic(TileColor::Orange, 7),
        basic(TileColor::Orange, 7),
    ];
    assert_eq!(is_valid_set(&set), false);
}

#[test]
fn test_five_tiles_of_one_value_are_invalid() {
    let set = vec![
        basic(TileColor::Red, 7),
        basic(TileColor::Blue, 7),
        basic(TileColor::Orange, 7),
        basic(TileColor::Black, 7),
        basic(TileColor::Red, 7),
    ];
    assert_eq!(is_valid_set(&set), false);
}

#[test]
fn test_check_set_reports_valid_and_invalid() {
    let run = vec![
        basic(TileColor::Blue, 3),
        basic(TileColor::Blue, 4),
        basic(TileColor::Blue, 5),
    ];
    assert_eq!(check_set(&run), Verdict::Valid);
    let broken = vec![
        basic(TileColor::Blue, 3),
        basic(TileColor::Blue, 5),
        basic(TileColor::Blue, 7),
    ];
    assert_eq!(check_set(&broken), Verdict::Invalid);
}

#[test]
fn test_check_set_reports_allowance_fault() {
    // a third color change arrives while all four colors are allowed: the
    // allowance count is neither 1 nor 3, the checker's internal fault
    let set = vec![
        basic(TileColor::Blue, 6),
        joker(JokerVariant::ColorChange),
        basic(TileColor::Red, 8),
        joker(JokerVariant::ColorChange),
        joker(JokerVariant::ColorChange),
    ];
    assert_eq!(check_set(&set), Verdict::Fault);
}

#[test]
fn test_check_set_reports_allowance_fault_after_adjacent_changes() {
    let set = vec![
        basic(TileColor::Red, 5),
        basic(TileColor::Red, 6),
        joker(JokerVariant::ColorChange),
        joker(JokerVariant::ColorChange),
        joker(JokerVariant::ColorChange),
    ];
    assert_eq!(check_set(&set), Verdict::Fault);
}

#[test]
fn test_symmetry_axis_at_the_edge_fails() {
    let set = vec![
        joker(JokerVariant::Mirror),
        basic(TileColor::Red, 5),
        basic(TileColor::Red, 5),
    ];
    assert_eq!(is_symmetric(&set, 0), false);
    assert_eq!(is_symmetric(&set, 2), false);
}

#[test]
fn test_symmetry_plain_reflection() {
    let set = vec![
        basic(TileColor::Red, 5),
        joker(JokerVariant::Mirror),
        basic(TileColor::Red, 5),
    ];
    assert_eq!(is_symmetric(&set, 1), true);
    let skew = vec![
        basic(TileColor::Red, 5),
        joker(JokerVariant::Mirror),
        basic(TileColor::Blue, 5),
    ];
    assert_eq!(is_symmetric(&skew, 1), false);
}

#[test]
fn test_symmetry_double_joker_spans_two_positions() {
    // one side reads 3 j 5, the other 5 d: the double joker stands for
    // both remaining positions
    let set = vec![
        basic(TileColor::Blue, 3),
        joker(JokerVariant::Single),
        basic(TileColor::Blue, 5),
        joker(JokerVariant::Mirror),
        basic(TileColor::Blue, 5),
        joker(JokerVariant::Double),
    ];
    assert_eq!(is_valid_set(&set), true);
}

#[test]
fn test_symmetry_lone_double_joker_side_fails() {
    // a double joker spans two positions but only one tile faces it
    assert_eq!(
        is_valid_set(&vec![
            basic(TileColor::Blue, 5),
            joker(JokerVariant::Mirror),
            joker(JokerVariant::Double),
        ]),
        false
    );
    assert_eq!(
        is_valid_set(&vec![
            joker(JokerVariant::Double),
            joker(JokerVariant::Mirror),
            basic(TileColor::Blue, 5),
        ]),
        false
    );
}

#[test]
fn test_symmetry_color_changes_must_pair() {
    let paired = vec![
        basic(TileColor::Blue, 6),
        joker(JokerVariant::ColorChange),
        basic(TileColor::Red, 8),
        joker(JokerVariant::Mirror),
        basic(TileColor::Red, 8),
        joker(JokerVariant::ColorChange),
        basic(TileColor::Blue, 6),
    ];
    assert_eq!(is_valid_set(&paired), true);
    let lone = vec![
        basic(TileColor::Blue, 6),
        joker(JokerVariant::ColorChange),
        basic(TileColor::Red, 8),
        joker(JokerVariant::Mirror),
        basic(TileColor::Red, 8),
        basic(TileColor::Blue, 6),
        basic(TileColor::Blue, 6),
    ];
    assert_eq!(is_valid_set(&lone), false);
}

#[test]
fn test_colors_builders() {
    let all = Colors::all();
    assert_eq!(all.count(), 4);
    let none = Colors::none();
    assert_eq!(none.count(), 0);
    let only_red = Colors::only(TileColor::Red);
    assert_eq!(only_red.count(), 1);
    assert!(only_red.allows(TileColor::Red));
    assert!(!only_red.allows(TileColor::Blue));
    let except_red = Colors::except(TileColor::Red);
    assert_eq!(except_red.count(), 3);
    assert!(!except_red.allows(TileColor::Red));
    assert!(except_red.allows(TileColor::Orange));
}

#[test]
fn test_colors_point_mutation_and_flip() {
    let mut map = Colors::only(TileColor::Black);
    map.set_allowed(TileColor::Orange, true);
    assert_eq!(map.count(), 2);
    assert!(map.allows(TileColor::Black));
    assert!(map.allows(TileColor::Orange));
    let flipped = map.flipped();
    assert_eq!(flipped.count(), 2);
    assert!(flipped.allows(TileColor::Red));
    assert!(flipped.allows(TileColor::Blue));
    assert!(!flipped.allows(TileColor::Black));
}

#[test]
fn test_can_win_finds_no_move_yet() {
    let board = vec![
        vec![
            basic(TileColor::Red, 5),
            basic(TileColor::Red, 6),
            basic(TileColor::Red, 7),
        ],
        vec![
            basic(TileColor::Red, 9),
            basic(TileColor::Blue, 9),
            basic(TileColor::Orange, 9),
        ],
    ];
    let rack = vec![basic(TileColor::Black, 1)];
    assert_eq!(can_win(&board, &rack), Err(()));
}
