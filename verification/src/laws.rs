//! General properties of the validator, stated and proved against the
//! specification state machine of `crate::parser`.

use vstd::prelude::*;
use crate::colors::Colors;
use crate::parser::{
    Verdict, check_from_group, check_from_run, check_from_undetermined, spec_check_set,
};
use crate::tiles::{BasicTile, Joker, JokerVariant, Tile, TileColor, valid_tile_value};

verus! {

/// Whether `tile` is a numbered tile carrying exactly `value`.
pub open spec fn is_value_tile(tile: Tile, value: int) -> bool {
    match tile {
        Tile::Basic(b) => b.value == value,
        Tile::Joker(_) => false,
    }
}

/// The color of a numbered tile; jokers, which carry none, default to black.
pub open spec fn basic_color(tile: Tile) -> TileColor {
    match tile {
        Tile::Basic(b) => b.color,
        Tile::Joker(_) => TileColor::Black,
    }
}

/// No sequence of fewer than three tiles is ever valid.
pub proof fn lemma_short_sequence_invalid(s: Seq<Tile>)
    requires
        s.len() < 3,
    ensures
        spec_check_set(s) == Verdict::Invalid,
{
}

/// The verdict is a pure function of the tile sequence: equal inputs always
/// receive equal verdicts, and checking reads the sequence without changing
/// it, so repeated checks agree.
pub proof fn lemma_verdict_deterministic(s1: Seq<Tile>, s2: Seq<Tile>)
    requires
        s1 == s2,
    ensures
        spec_check_set(s1) == spec_check_set(s2),
{
}

/// When the sequence opens with two numbered tiles of one color and
/// consecutive values, it is committed to run classification right there,
/// with the second tile's value and color locked in.
pub proof fn lemma_first_two_basics_run(s: Seq<Tile>, t0: BasicTile, t1: BasicTile)
    requires
        3 <= s.len(),
        s[0] == Tile::Basic(t0),
        s[1] == Tile::Basic(t1),
        valid_tile_value(t0.value),
        t1.color == t0.color,
        t1.value as int == t0.value as int + 1,
    ensures
        spec_check_set(s) == check_from_run(
            s,
            2,
            Some(t1.value as int),
            Colors::spec_only(t1.color),
            2,
        ),
{
    reveal_with_fuel(check_from_undetermined, 3);
}

/// When the sequence opens with two numbered tiles of one value and two
/// different colors, it is committed to group classification right there,
/// with both colors spent from the allowance map.
pub proof fn lemma_first_two_basics_group(s: Seq<Tile>, t0: BasicTile, t1: BasicTile)
    requires
        3 <= s.len(),
        s[0] == Tile::Basic(t0),
        s[1] == Tile::Basic(t1),
        t1.color != t0.color,
        t1.value == t0.value,
    ensures
        spec_check_set(s) == check_from_group(
            s,
            2,
            t0.value as int,
            Colors::spec_except(t1.color).spec_set(t0.color, false),
            2,
        ),
{
    reveal_with_fuel(check_from_undetermined, 3);
}

/// When the first two tiles are numbered but related in neither of the two
/// ways above, the sequence is invalid outright: classification follows the
/// first two numbered tiles' relationship exactly once, deterministically.
pub proof fn lemma_first_two_basics_mismatch(s: Seq<Tile>, t0: BasicTile, t1: BasicTile)
    requires
        3 <= s.len(),
        s[0] == Tile::Basic(t0),
        s[1] == Tile::Basic(t1),
        !(t1.color == t0.color && t1.value as int == t0.value as int + 1),
        !(t1.color != t0.color && t1.value == t0.value),
    ensures
        spec_check_set(s) == Verdict::Invalid,
{
    reveal_with_fuel(check_from_undetermined, 3);
}

/// Induction step behind the ascending-run law: a run state whose remaining
/// tiles continue the color `c` with consecutive values runs to the end.
proof fn lemma_run_tail_valid(s: Seq<Tile>, i: int, v: int, c: TileColor, size: int)
    requires
        0 <= i <= s.len(),
        0 <= size <= v,
        v + (s.len() - i) <= 13,
        forall|j: int|
            i <= j < s.len() ==> #[trigger] s[j] == Tile::Basic(
                BasicTile { color: c, value: (v + 1 + (j - i)) as u8 },
            ),
    ensures
        check_from_run(s, i, Some(v), Colors::spec_only(c), size) == Verdict::Valid,
    decreases s.len() - i,
{
    if i < s.len() {
        assert(s[i] == Tile::Basic(BasicTile { color: c, value: (v + 1) as u8 }));
        assert(Colors::spec_only(c).spec_allows(c));
        lemma_run_tail_valid(s, i + 1, v + 1, c, size + 1);
    }
}

/// A pure ascending run — one color, values climbing by one, no jokers, at
/// least three tiles — is always valid.
pub proof fn lemma_pure_ascending_run_valid(s: Seq<Tile>, c: TileColor, v0: int)
    requires
        3 <= s.len(),
        1 <= v0,
        v0 + s.len() - 1 <= 13,
        forall|j: int|
            0 <= j < s.len() ==> #[trigger] s[j] == Tile::Basic(
                BasicTile { color: c, value: (v0 + j) as u8 },
            ),
    ensures
        spec_check_set(s) == Verdict::Valid,
{
    let t0 = BasicTile { color: c, value: v0 as u8 };
    let t1 = BasicTile { color: c, value: (v0 + 1) as u8 };
    assert(s[0] == Tile::Basic(t0));
    assert(s[1] == Tile::Basic(t1));
    lemma_first_two_basics_run(s, t0, t1);
    lemma_run_tail_valid(s, 2, v0 + 1, c, 2);
}

/// The same tiles laid descending — values stepping down by one — are never
/// valid: the second tile already contradicts both classifications.
pub proof fn lemma_pure_descending_run_invalid(s: Seq<Tile>, c: TileColor, v0: int)
    requires
        3 <= s.len(),
        v0 <= 13,
        1 <= v0 - (s.len() - 1),
        forall|j: int|
            0 <= j < s.len() ==> #[trigger] s[j] == Tile::Basic(
                BasicTile { color: c, value: (v0 - j) as u8 },
            ),
    ensures
        spec_check_set(s) == Verdict::Invalid,
{
    let t0 = BasicTile { color: c, value: v0 as u8 };
    let t1 = BasicTile { color: c, value: (v0 - 1) as u8 };
    assert(s[0] == Tile::Basic(t0));
    assert(s[1] == Tile::Basic(t1));
    lemma_first_two_basics_mismatch(s, t0, t1);
}

/// Induction step behind the group laws: from a group state, a remainder of
/// numbered `value`-tiles runs to the end exactly when each remaining color
/// is still allowed, the remaining colors are pairwise distinct, and the
/// slots fit in four.
proof fn lemma_group_tail(s: Seq<Tile>, i: int, value: int, allow: Colors, size: int)
    requires
        0 <= i <= s.len(),
        0 <= size <= 4,
        forall|j: int| i <= j < s.len() ==> is_value_tile(#[trigger] s[j], value),
    ensures
        check_from_group(s, i, value, allow, size) == (if (forall|j: int|
            i <= j < s.len() ==> allow.spec_allows(basic_color(#[trigger] s[j]))) && (forall|
            j: int,
            k: int,
        |
            i <= j < k < s.len() ==> basic_color(s[j]) != basic_color(s[k])) && size + (s.len()
            - i) <= 4 {
            Verdict::Valid
        } else {
            Verdict::Invalid
        }),
    decreases s.len() - i,
{
    if i < s.len() {
        let t = s[i];
        assert(is_value_tile(t, value));
        let c = basic_color(t);
        if allow.spec_allows(c) && size + 1 <= 4 {
            let remaining = allow.spec_set(c, false);
            lemma_group_tail(s, i + 1, value, remaining, size + 1);
            // spending the color `c` makes "allowed by the remainder map"
            // the same as "allowed before, and different from `c`"
            assert(forall|j: int|
                i + 1 <= j < s.len() ==> (remaining.spec_allows(basic_color(#[trigger] s[j]))
                    <==> allow.spec_allows(basic_color(s[j])) && basic_color(s[j]) != c));
        }
    }
}

/// A pure group — one value, three or four numbered tiles, pairwise distinct
/// colors — is always valid.
pub proof fn lemma_pure_group_valid(s: Seq<Tile>, v: int)
    requires
        3 <= s.len() <= 4,
        1 <= v <= 13,
        forall|j: int| 0 <= j < s.len() ==> is_value_tile(#[trigger] s[j], v),
        forall|j: int, k: int|
            0 <= j < k < s.len() ==> basic_color(s[j]) != basic_color(s[k]),
    ensures
        spec_check_set(s) == Verdict::Valid,
{
    let t0 = s[0]->Basic_0;
    let t1 = s[1]->Basic_0;
    assert(basic_color(s[0]) != basic_color(s[1]));
    lemma_first_two_basics_group(s, t0, t1);
    let allow = Colors::spec_except(t1.color).spec_set(t0.color, false);
    lemma_group_tail(s, 2, v, allow, 2);
    assert forall|j: int| 2 <= j < s.len() implies allow.spec_allows(
        basic_color(#[trigger] s[j]),
    ) by {
        assert(basic_color(s[0]) != basic_color(s[j]));
        assert(basic_color(s[1]) != basic_color(s[j]));
    }
}

/// A sequence of numbered tiles sharing one value but repeating a color is
/// never a valid group.
pub proof fn lemma_group_repeated_color_invalid(s: Seq<Tile>, v: int, a: int, b: int)
    requires
        3 <= s.len(),
        1 <= v <= 13,
        forall|j: int| 0 <= j < s.len() ==> is_value_tile(#[trigger] s[j], v),
        0 <= a < b < s.len(),
        basic_color(s[a]) == basic_color(s[b]),
    ensures
        spec_check_set(s) == Verdict::Invalid,
{
    let t0 = s[0]->Basic_0;
    let t1 = s[1]->Basic_0;
    if t0.color == t1.color {
        lemma_first_two_basics_mismatch(s, t0, t1);
    } else {
        lemma_first_two_basics_group(s, t0, t1);
        let allow = Colors::spec_except(t1.color).spec_set(t0.color, false);
        lemma_group_tail(s, 2, v, allow, 2);
        if b >= 2 {
            if a >= 2 {
                assert(basic_color(s[a]) == basic_color(s[b]) && 2 <= a < b < s.len());
            } else {
                assert(!allow.spec_allows(basic_color(s[b])));
            }
        }
    }
}

/// Five or more tiles of one value can never form a valid group: a group
/// tops out at four slots.
pub proof fn lemma_overlong_group_invalid(s: Seq<Tile>, v: int)
    requires
        5 <= s.len(),
        1 <= v <= 13,
        forall|j: int| 0 <= j < s.len() ==> is_value_tile(#[trigger] s[j], v),
    ensures
        spec_check_set(s) == Verdict::Invalid,
{
    let t0 = s[0]->Basic_0;
    let t1 = s[1]->Basic_0;
    if t0.color == t1.color {
        lemma_first_two_basics_mismatch(s, t0, t1);
    } else {
        lemma_first_two_basics_group(s, t0, t1);
        lemma_group_tail(s, 2, v, Colors::spec_except(t1.color).spec_set(t0.color, false), 2);
    }
}

/// Induction step behind the color-change law: a group state whose remaining
/// tiles lead, through numbered tiles only, to a color-change joker is
/// doomed, whatever happens on the way there.
proof fn lemma_group_tail_color_change(
    s: Seq<Tile>,
    i: int,
    value: int,
    allow: Colors,
    size: int,
    pos: int,
)
    requires
        0 <= i <= pos < s.len(),
        s[pos] == Tile::Joker(Joker { variant: JokerVariant::ColorChange }),
        forall|j: int| i <= j < pos ==> is_value_tile(#[trigger] s[j], value),
    ensures
        check_from_group(s, i, value, allow, size) == Verdict::Invalid,
    decreases pos - i,
{
    if i < pos {
        let t = s[i];
        assert(is_value_tile(t, value));
        let c = basic_color(t);
        if allow.spec_allows(c) && size + 1 <= 4 {
            lemma_group_tail_color_change(s, i + 1, value, allow.spec_set(c, false), size + 1, pos);
        }
    }
}

/// A color-change joker inside an otherwise-valid group always invalidates
/// the sequence, wherever it sits.
pub proof fn lemma_color_change_in_group_invalid(s: Seq<Tile>, v: int, pos: int)
    requires
        4 <= s.len() <= 5,
        0 <= pos < s.len(),
        s[pos] == Tile::Joker(Joker { variant: JokerVariant::ColorChange }),
        1 <= v <= 13,
        forall|j: int| 0 <= j < s.len() && j != pos ==> is_value_tile(#[trigger] s[j], v),
        forall|j: int, k: int|
            0 <= j < k < s.len() && j != pos && k != pos ==> basic_color(s[j]) != basic_color(
                s[k],
            ),
    ensures
        spec_check_set(s) == Verdict::Invalid,
{
    if pos == 0 {
        // the joker commits the sequence to a run; the first numbered tile
        // locks its color, and the second, being a different color, is barred
        let t1 = s[1]->Basic_0;
        let t2 = s[2]->Basic_0;
        assert(basic_color(s[1]) != basic_color(s[2]));
        assert(check_from_undetermined(s, 0, None, 0) == check_from_run(
            s,
            1,
            None,
            Colors::spec_all(),
            1,
        ));
        if t1.value as int <= 1 {
            assert(check_from_run(s, 1, None, Colors::spec_all(), 1) == Verdict::Invalid);
        } else {
            assert(check_from_run(s, 1, None, Colors::spec_all(), 1) == check_from_run(
                s,
                2,
                Some(v),
                Colors::spec_only(t1.color),
                2,
            ));
            assert(!Colors::spec_only(t1.color).spec_allows(t2.color));
            assert(check_from_run(s, 2, Some(v), Colors::spec_only(t1.color), 2)
                == Verdict::Invalid);
        }
    } else if pos == 1 {
        // a run locked to value v + 2 next, while the next tile carries v
        let t0 = s[0]->Basic_0;
        let t2 = s[2]->Basic_0;
        assert(basic_color(s[0]) != basic_color(s[2]));
        assert(check_from_undetermined(s, 0, None, 0) == check_from_undetermined(
            s,
            1,
            Some((t0, 1)),
            1,
        ));
        assert(check_from_undetermined(s, 1, Some((t0, 1)), 1) == check_from_run(
            s,
            2,
            Some(v + 1),
            Colors::spec_except(t0.color),
            2,
        ));
        assert(check_from_run(s, 2, Some(v + 1), Colors::spec_except(t0.color), 2)
            == Verdict::Invalid);
    } else {
        let t0 = s[0]->Basic_0;
        let t1 = s[1]->Basic_0;
        assert(basic_color(s[0]) != basic_color(s[1]));
        lemma_first_two_basics_group(s, t0, t1);
        lemma_group_tail_color_change(
            s,
            2,
            v,
            Colors::spec_except(t1.color).spec_set(t0.color, false),
            2,
            pos,
        );
    }
}

} // verus!
