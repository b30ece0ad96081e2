//! The sequence validator: a single left-to-right pass classifies a tile
//! sequence as a run, a group, or invalid, and a mirror joker hands the
//! decision to the symmetry resolver.
//!
//! The behavior is pinned down by a specification-level state machine
//! (`spec_check_set` and its three state functions) that the executable
//! checker is proved to follow step by step.

use vstd::prelude::*;
use crate::colors::Colors;
use crate::tiles::{BasicTile, Joker, JokerVariant, Tile};

verus! {

/// The three-way outcome of checking one tile sequence.
#[derive(Clone, Copy, Debug, PartialEq, Eq, Structural)]
pub enum Verdict {
    /// The sequence is a legal run or group.
    Valid,
    /// The sequence breaks a run, group or symmetry rule.
    Invalid,
    /// The checker's internal color-allowance invariant broke: a color-change
    /// joker arrived while the allowance count was neither 1 nor 3. This is a
    /// defect signal, deliberately distinct from `Invalid`.
    Fault,
}

/// Whether `tile` is a double joker.
pub open spec fn is_double_joker(tile: Tile) -> bool {
    match tile {
        Tile::Joker(j) => j.variant == JokerVariant::Double,
        Tile::Basic(_) => false,
    }
}

/// One pairwise comparison of the symmetry scan, between the tile under the
/// left cursor and the tile under the right cursor, given the two "pending
/// double joker" flags. `None` means the pair can never match and the scan
/// fails. Otherwise the result carries, in order: whether the left cursor
/// advances, whether the right cursor advances, and the new pending flags.
///
/// A double joker spans two ordinary positions, so it does not match on its
/// first comparison alone: its side is marked pending and only the opposite
/// cursor advances; on the following comparison it counts as matched and its
/// cursor moves too. Two double jokers facing each other cancel over the same
/// two comparisons, and two color-change jokers cancel directly. A mirror
/// joker, or a color-change joker paired with anything else, never matches.
pub open spec fn sym_step(tl: Tile, tr: Tile, pend_l: bool, pend_r: bool) -> Option<
    (bool, bool, bool, bool),
> {
    match (tl, tr) {
        (Tile::Basic(bl), Tile::Basic(br)) => {
            if bl == br {
                Some((true, true, pend_l, pend_r))
            } else {
                None
            }
        },
        (Tile::Basic(_), Tile::Joker(jr)) => match jr.variant {
            JokerVariant::Single => Some((true, true, pend_l, pend_r)),
            JokerVariant::Double => {
                if pend_r {
                    Some((true, true, pend_l, false))
                } else {
                    Some((true, false, pend_l, true))
                }
            },
            _ => None,
        },
        (Tile::Joker(jl), Tile::Basic(_)) => match jl.variant {
            JokerVariant::Single => Some((true, true, pend_l, pend_r)),
            JokerVariant::Double => {
                if pend_l {
                    Some((true, true, false, pend_r))
                } else {
                    Some((false, true, true, pend_r))
                }
            },
            _ => None,
        },
        (Tile::Joker(jl), Tile::Joker(jr)) => match (jl.variant, jr.variant) {
            (JokerVariant::Single, JokerVariant::Single) => Some((true, true, pend_l, pend_r)),
            (JokerVariant::Single, JokerVariant::Double) => {
                if pend_r {
                    Some((true, true, pend_l, false))
                } else {
                    Some((true, false, pend_l, true))
                }
            },
            (JokerVariant::Double, JokerVariant::Single) => {
                if pend_l {
                    Some((true, true, false, pend_r))
                } else {
                    Some((false, true, true, pend_r))
                }
            },
            (JokerVariant::Double, JokerVariant::Double) => {
                let new_l = !pend_l;
                let new_r = !pend_r;
                Some((pend_l, pend_r, new_l, new_r))
            },
            (JokerVariant::ColorChange, JokerVariant::ColorChange) => Some(
                (true, true, pend_l, pend_r),
            ),
            _ => None,
        },
    }
}

/// The symmetry scan from cursor positions `left` and `right` outward.
///
/// The scan succeeds exactly when the cursors reach the two ends of the
/// sequence together with no unmatched tile left on either side. A double
/// joker that sits at an end while still pending gets one further comparison
/// before the scan may stop; if honoring it would push a cursor off the
/// sequence, the double joker is unmatched and the scan fails.
pub open spec fn sym_scan(s: Seq<Tile>, left: int, right: int, pend_l: bool, pend_r: bool) -> bool
    decreases
            2 * left + 2 * (s.len() - 1 - right) + (if pend_l {
                0int
            } else {
                1int
            }) + (if pend_r {
                0int
            } else {
                1int
            }),
{
    if !(0 <= left && left < right && right < s.len()) {
        false
    } else {
        match sym_step(s[left], s[right], pend_l, pend_r) {
            None => false,
            Some(step) => {
                let (move_l, move_r, new_l, new_r) = step;
                if left == 0 && is_double_joker(s[left]) && new_l {
                    // the pending double joker at the left end still owes its
                    // second comparison: keep scanning without ending
                    if move_r {
                        if right == s.len() - 1 {
                            false
                        } else {
                            sym_scan(s, left, right + 1, new_l, new_r)
                        }
                    } else {
                        sym_scan(s, left, right, new_l, new_r)
                    }
                } else if right == s.len() - 1 && is_double_joker(s[right]) && new_r {
                    if move_l {
                        if left == 0 {
                            false
                        } else {
                            sym_scan(s, left - 1, right, new_l, new_r)
                        }
                    } else {
                        sym_scan(s, left, right, new_l, new_r)
                    }
                } else if left == 0 || right == s.len() - 1 {
                    left == 0 && right == s.len() - 1
                } else {
                    sym_scan(
                        s,
                        if move_l {
                            left - 1
                        } else {
                            left
                        },
                        if move_r {
                            right + 1
                        } else {
                            right
                        },
                        new_l,
                        new_r,
                    )
                }
            },
        }
    }
}

/// Whether the tiles on the two sides of position `axis` mirror each other
/// under the joker-aware equivalence of `sym_step`. An axis at either end of
/// the sequence has nothing on one side and is never symmetric.
pub open spec fn spec_symmetric(s: Seq<Tile>, axis: int) -> bool {
    if axis <= 0 || axis >= s.len() - 1 {
        false
    } else {
        sym_scan(s, axis - 1, axis + 1, false, false)
    }
}

/// The validator while the classification is still open: `seen` holds the
/// first numbered tile and the run-distance from it to the current position,
/// once one has appeared; `size` counts the slots consumed so far (a double
/// joker counts two).
pub open spec fn check_from_undetermined(
    s: Seq<Tile>,
    i: int,
    seen: Option<(BasicTile, int)>,
    size: int,
) -> Verdict
    decreases s.len() - i,
{
    if i < 0 || i >= s.len() {
        Verdict::Valid
    } else {
        match s[i] {
            Tile::Basic(t) => match seen {
                Some(st) => {
                    let (ts, dist) = st;
                    if t.value == ts.value + dist && t.color == ts.color {
                        // the second numbered tile continues the first: a run,
                        // unless the `size` leading slots would push the run's
                        // implied start, `t.value - size`, below 1
                        if size >= t.value {
                            Verdict::Invalid
                        } else {
                            check_from_run(
                                s,
                                i + 1,
                                Some(t.value as int),
                                Colors::spec_only(t.color),
                                size + 1,
                            )
                        }
                    } else if t.value == ts.value && t.color != ts.color {
                        // same value, new color: a group, which tops out at 4 slots
                        if size > 3 {
                            Verdict::Invalid
                        } else {
                            check_from_group(
                                s,
                                i + 1,
                                ts.value as int,
                                Colors::spec_except(t.color).spec_set(ts.color, false),
                                size + 1,
                            )
                        }
                    } else {
                        Verdict::Invalid
                    }
                },
                None => {
                    if size + 1 > 4 {
                        // no group holds 5 slots, so this can only be a run;
                        // its implied start, `t.value - size`, must stay at 1
                        // or above
                        if t.value <= size {
                            Verdict::Invalid
                        } else {
                            check_from_run(
                                s,
                                i + 1,
                                Some(t.value as int),
                                Colors::spec_only(t.color),
                                size + 1,
                            )
                        }
                    } else {
                        check_from_undetermined(s, i + 1, Some((t, 1)), size + 1)
                    }
                },
            },
            Tile::Joker(j) => match j.variant {
                JokerVariant::Single => match seen {
                    Some(st) => {
                        let (ts, dist) = st;
                        if size + 1 > 4 {
                            // the joker sits `dist` slots after the first
                            // numbered tile and stands for that value
                            check_from_run(
                                s,
                                i + 1,
                                Some(ts.value + dist),
                                Colors::spec_only(ts.color),
                                size + 1,
                            )
                        } else {
                            check_from_undetermined(s, i + 1, Some((ts, dist + 1)), size + 1)
                        }
                    },
                    None => {
                        if size + 1 > 4 {
                            check_from_run(s, i + 1, None, Colors::spec_all(), size + 1)
                        } else {
                            check_from_undetermined(s, i + 1, None, size + 1)
                        }
                    },
                },
                JokerVariant::Double => match seen {
                    Some(st) => {
                        let (ts, dist) = st;
                        if size + 2 > 4 {
                            // the double joker covers the slots `dist` and
                            // `dist + 1` after the first numbered tile; its
                            // second slot is the one the run continues from
                            check_from_run(
                                s,
                                i + 1,
                                Some(ts.value + dist + 1),
                                Colors::spec_only(ts.color),
                                size + 2,
                            )
                        } else {
                            check_from_undetermined(s, i + 1, Some((ts, dist + 2)), size + 2)
                        }
                    },
                    None => {
                        if size + 2 > 4 {
                            check_from_run(s, i + 1, None, Colors::spec_all(), size + 2)
                        } else {
                            check_from_undetermined(s, i + 1, None, size + 2)
                        }
                    },
                },
                JokerVariant::Mirror => {
                    if spec_symmetric(s, i) {
                        Verdict::Valid
                    } else {
                        Verdict::Invalid
                    }
                },
                JokerVariant::ColorChange => match seen {
                    // a color change can only live in a run, so it commits the
                    // classification at once; its own slot, `dist` after the
                    // first numbered tile, stands for that value
                    Some(st) => check_from_run(
                        s,
                        i + 1,
                        Some(st.0.value + st.1),
                        Colors::spec_except(st.0.color),
                        size + 1,
                    ),
                    None => check_from_run(s, i + 1, None, Colors::spec_all(), size + 1),
                },
            },
        }
    }
}

/// The validator once the sequence is classified as a run. `last` is the
/// value the previous slot stands for, unknown while only jokers and color
/// changes have been consumed; `allow` is the set of colors the next numbered
/// tile may take; `size` counts consumed slots.
pub open spec fn check_from_run(
    s: Seq<Tile>,
    i: int,
    last: Option<int>,
    allow: Colors,
    size: int,
) -> Verdict
    decreases s.len() - i,
{
    if i < 0 || i >= s.len() {
        Verdict::Valid
    } else {
        match s[i] {
            Tile::Basic(t) => {
                if !allow.spec_allows(t.color) {
                    Verdict::Invalid
                } else if t.value <= size {
                    // guards against leading jokers outrunning the value range
                    Verdict::Invalid
                } else {
                    match last {
                        Some(v) => {
                            if t.value == v + 1 {
                                check_from_run(s, i + 1, Some(v + 1), allow, size + 1)
                            } else {
                                Verdict::Invalid
                            }
                        },
                        None => check_from_run(
                            s,
                            i + 1,
                            Some(t.value as int),
                            Colors::spec_only(t.color),
                            size + 1,
                        ),
                    }
                }
            },
            Tile::Joker(j) => match j.variant {
                JokerVariant::Single => match last {
                    Some(v) => {
                        if v + 1 > 13 {
                            Verdict::Invalid
                        } else {
                            check_from_run(s, i + 1, Some(v + 1), allow, size + 1)
                        }
                    },
                    None => check_from_run(s, i + 1, None, allow, size + 1),
                },
                JokerVariant::Double => match last {
                    Some(v) => {
                        if v + 2 > 13 {
                            Verdict::Invalid
                        } else {
                            check_from_run(s, i + 1, Some(v + 2), allow, size + 2)
                        }
                    },
                    None => check_from_run(s, i + 1, None, allow, size + 2),
                },
                JokerVariant::Mirror => {
                    if spec_symmetric(s, i) {
                        Verdict::Valid
                    } else {
                        Verdict::Invalid
                    }
                },
                JokerVariant::ColorChange => match last {
                    Some(v) => {
                        if v + 1 > 13 {
                            Verdict::Invalid
                        } else {
                            let cnt = allow.spec_count();
                            if cnt == 1 {
                                // one color locked in: change to all others
                                check_from_run(s, i + 1, Some(v + 1), allow.spec_flip(), size + 1)
                            } else if cnt == 3 {
                                // a change is already open: a second change
                                // releases every color
                                check_from_run(s, i + 1, Some(v + 1), Colors::spec_all(), size + 1)
                            } else {
                                // any other count means the state machine itself
                                // broke its allowance invariant
                                Verdict::Fault
                            }
                        }
                    },
                    None => check_from_run(s, i + 1, None, Colors::spec_all(), size + 1),
                },
            },
        }
    }
}

/// The validator once the sequence is classified as a group of `value`-tiles.
/// `allow` holds the colors not yet used; each numbered tile consumes its
/// color, and the group tops out at 4 slots.
pub open spec fn check_from_group(
    s: Seq<Tile>,
    i: int,
    value: int,
    allow: Colors,
    size: int,
) -> Verdict
    decreases s.len() - i,
{
    if i < 0 || i >= s.len() {
        Verdict::Valid
    } else {
        match s[i] {
            Tile::Basic(t) => {
                if t.value != value {
                    Verdict::Invalid
                } else if !allow.spec_allows(t.color) {
                    Verdict::Invalid
                } else if size + 1 > 4 {
                    Verdict::Invalid
                } else {
                    check_from_group(s, i + 1, value, allow.spec_set(t.color, false), size + 1)
                }
            },
            Tile::Joker(j) => match j.variant {
                JokerVariant::Single => {
                    if size + 1 > 4 {
                        Verdict::Invalid
                    } else {
                        check_from_group(s, i + 1, value, allow, size + 1)
                    }
                },
                JokerVariant::Double => {
                    // a double joker fills two of the remaining color slots
                    if allow.spec_count() < 2 {
                        Verdict::Invalid
                    } else if size + 2 > 4 {
                        Verdict::Invalid
                    } else {
                        check_from_group(s, i + 1, value, allow, size + 2)
                    }
                },
                JokerVariant::Mirror => {
                    if spec_symmetric(s, i) {
                        Verdict::Valid
                    } else {
                        Verdict::Invalid
                    }
                },
                JokerVariant::ColorChange => Verdict::Invalid,
            },
        }
    }
}

/// Decide whether the sequence mirrors around position `axis`, walking two
/// cursors outward and comparing the tiles under them with the joker-aware
/// equivalence of `sym_step`.
pub fn is_symmetric(set: &Vec<Tile>, axis: usize) -> (sym: bool)
    requires
        axis < set@.len(),
    ensures
        sym == spec_symmetric(set@, axis as int),
{
    let n = set.len();
    if axis == 0 || axis == n - 1 {
        return false;
    }
    let mut left: usize = axis - 1;
    let mut right: usize = axis + 1;
    let mut pend_l: bool = false;
    let mut pend_r: bool = false;
    loop
        invariant
            n == set@.len(),
            1 <= axis < n - 1,
            left < right,
            right <= n - 1,
            spec_symmetric(set@, axis as int) == sym_scan(
                set@,
                left as int,
                right as int,
                pend_l,
                pend_r,
            ),
        decreases
                2 * (left as int) + 2 * (n - 1 - right) + (if pend_l {
                    0int
                } else {
                    1int
                }) + (if pend_r {
                    0int
                } else {
                    1int
                }),
    {
        let ghost old_l = left as int;
        let ghost old_r = right as int;
        let ghost old_pl = pend_l;
        let ghost old_pr = pend_r;
        let tl = set[left];
        let tr = set[right];
        let (move_l, move_r, new_l, new_r): (bool, bool, bool, bool) = match (tl, tr) {
            (Tile::Basic(bl), Tile::Basic(br)) => {
                if !(bl.color == br.color && bl.value == br.value) {
                    proof {
                        assert(sym_step(tl, tr, pend_l, pend_r) is None);
                    }
                    return false;
                }
                (true, true, pend_l, pend_r)
            },
            (Tile::Basic(_), Tile::Joker(jr)) => match jr.variant {
                JokerVariant::Single => (true, true, pend_l, pend_r),
                JokerVariant::Double => {
                    if pend_r {
                        (true, true, pend_l, false)
                    } else {
                        (true, false, pend_l, true)
                    }
                },
                _ => {
                    return false;
                },
            },
            (Tile::Joker(jl), Tile::Basic(_)) => match jl.variant {
                JokerVariant::Single => (true, true, pend_l, pend_r),
                JokerVariant::Double => {
                    if pend_l {
                        (true, true, false, pend_r)
                    } else {
                        (false, true, true, pend_r)
                    }
                },
                _ => {
                    return false;
                },
            },
            (Tile::Joker(jl), Tile::Joker(jr)) => match (jl.variant, jr.variant) {
                (JokerVariant::Single, JokerVariant::Single) => (true, true, pend_l, pend_r),
                (JokerVariant::Single, JokerVariant::Double) => {
                    if pend_r {
                        (true, true, pend_l, false)
                    } else {
                        (true, false, pend_l, true)
                    }
                },
                (JokerVariant::Double, JokerVariant::Single) => {
                    if pend_l {
                        (true, true, false, pend_r)
                    } else {
                        (false, true, true, pend_r)
                    }
                },
                (JokerVariant::Double, JokerVariant::Double) => (pend_l, pend_r, !pend_l, !pend_r),
                (JokerVariant::ColorChange, JokerVariant::ColorChange) => (
                    true,
                    true,
                    pend_l,
                    pend_r,
                ),
                _ => {
                    return false;
                },
            },
        };
        proof {
            assert(sym_step(tl, tr, old_pl, old_pr) == Some((move_l, move_r, new_l, new_r)));
        }
        let left_is_double = matches!(tl, Tile::Joker(Joker { variant: JokerVariant::Double }));
        let right_is_double = matches!(tr, Tile::Joker(Joker { variant: JokerVariant::Double }));
        if left == 0 && left_is_double && new_l {
            if move_r {
                if right == n - 1 {
                    // honoring the pending double joker would push the right
                    // cursor off the sequence: it is unmatched
                    return false;
                }
                right = right + 1;
            }
            pend_l = new_l;
            pend_r = new_r;
        } else if right == n - 1 && right_is_double && new_r {
            if move_l {
                if left == 0 {
                    return false;
                }
                left = left - 1;
            }
            pend_l = new_l;
            pend_r = new_r;
        } else if left == 0 || right == n - 1 {
            proof {
                assert(sym_scan(set@, old_l, old_r, old_pl, old_pr) == (left == 0 && right == n
                    - 1));
            }
            return left == 0 && right == n - 1;
        } else {
            if move_l {
                left = left - 1;
            }
            if move_r {
                right = right + 1;
            }
            pend_l = new_l;
            pend_r = new_r;
        }
    }
}

/// The verdict on a whole sequence: fewer than 3 tiles are never valid, and
/// otherwise the state machine consumes the tiles left to right starting in
/// the undetermined state.
pub open spec fn spec_check_set(s: Seq<Tile>) -> Verdict {
    if s.len() < 3 {
        Verdict::Invalid
    } else {
        check_from_undetermined(s, 0, None, 0)
    }
}

/// The executable parsing state, mirroring the three specification states.
/// Counters are wide enough that they never wrap, however long the input.
enum Parsing {
    Run { last_value: Option<u128>, allow: Colors, size: u128 },
    Group { value: u128, allow: Colors, size: u128 },
    Undetermined { tile_seen: Option<(BasicTile, u128)>, size: u128 },
}

/// The verdict the specification machine reaches from state `p` at position `i`.
spec fn parsing_verdict(s: Seq<Tile>, i: int, p: Parsing) -> Verdict {
    match p {
        Parsing::Run { last_value, allow, size } => check_from_run(
            s,
            i,
            match last_value {
                Some(v) => Some(v as int),
                None => None,
            },
            allow,
            size as int,
        ),
        Parsing::Group { value, allow, size } => check_from_group(
            s,
            i,
            value as int,
            allow,
            size as int,
        ),
        Parsing::Undetermined { tile_seen, size } => check_from_undetermined(
            s,
            i,
            match tile_seen {
                Some(st) => Some((st.0, st.1 as int)),
                None => None,
            },
            size as int,
        ),
    }
}

/// Bounds on the executable counters at position `i`, strong enough to rule
/// out arithmetic overflow: the undetermined and group states stay small by
/// construction, and a run's size grows by at most two slots per tile.
spec fn parsing_bounded(p: Parsing, i: int) -> bool {
    match p {
        Parsing::Run { last_value, allow: _, size } => size <= 2 * i + 2 && match last_value {
            Some(v) => v <= 300,
            None => true,
        },
        Parsing::Group { value, allow: _, size } => value <= 255 && size <= 4,
        Parsing::Undetermined { tile_seen, size } => size <= 4 && size <= 2 * i && match tile_seen {
            Some(st) => 1 <= st.1 <= size,
            None => true,
        },
    }
}

/// Check one tile sequence and report the three-way outcome: valid, invalid,
/// or the internal allowance fault that a color-change joker can provoke.
pub fn check_set(set: &Vec<Tile>) -> (verdict: Verdict)
    ensures
        verdict == spec_check_set(set@),
{
    let n = set.len();
    if n < 3 {
        return Verdict::Invalid;
    }
    let mut parsing = Parsing::Undetermined { tile_seen: None, size: 0 };
    let mut i: usize = 0;
    while i < n
        invariant
            n == set@.len(),
            3 <= n,
            i <= n,
            parsing_bounded(parsing, i as int),
            spec_check_set(set@) == parsing_verdict(set@, i as int, parsing),
        decreases n - i,
    {
        let tile = set[i];
        match parsing {
            Parsing::Run { last_value, allow, size } => match tile {
                Tile::Basic(t) => {
                    if !allow.allows(t.color) {
                        return Verdict::Invalid;
                    }
                    if t.value as u128 <= size {
                        return Verdict::Invalid;
                    }
                    match last_value {
                        Some(v) => {
                            if t.value as u128 != v + 1 {
                                return Verdict::Invalid;
                            }
                            parsing = Parsing::Run {
                                last_value: Some(v + 1),
                                allow,
                                size: size + 1,
                            };
                        },
                        None => {
                            parsing = Parsing::Run {
                                last_value: Some(t.value as u128),
                                allow: Colors::only(t.color),
                                size: size + 1,
                            };
                        },
                    }
                },
                Tile::Joker(j) => match j.variant {
                    JokerVariant::Single => match last_value {
                        Some(v) => {
                            if v + 1 > 13 {
                                return Verdict::Invalid;
                            }
                            parsing = Parsing::Run {
                                last_value: Some(v + 1),
                                allow,
                                size: size + 1,
                            };
                        },
                        None => {
                            parsing = Parsing::Run { last_value: None, allow, size: size + 1 };
                        },
                    },
                    JokerVariant::Double => match last_value {
                        Some(v) => {
                            if v + 2 > 13 {
                                return Verdict::Invalid;
                            }
                            parsing = Parsing::Run {
                                last_value: Some(v + 2),
                                allow,
                                size: size + 2,
                            };
                        },
                        None => {
                            parsing = Parsing::Run { last_value: None, allow, size: size + 2 };
                        },
                    },
                    JokerVariant::Mirror => {
                        let sym = is_symmetric(set, i);
                        return if sym {
                            Verdict::Valid
                        } else {
                            Verdict::Invalid
                        };
                    },
                    JokerVariant::ColorChange => match last_value {
                        Some(v) => {
                            if v + 1 > 13 {
                                return Verdict::Invalid;
                            }
                            let cnt = allow.count();
                            if cnt == 1 {
                                parsing = Parsing::Run {
                                    last_value: Some(v + 1),
                                    allow: allow.flipped(),
                                    size: size + 1,
                                };
                            } else if cnt == 3 {
                                parsing = Parsing::Run {
                                    last_value: Some(v + 1),
                                    allow: Colors::all(),
                                    size: size + 1,
                                };
                            } else {
                                return Verdict::Fault;
                            }
                        },
                        None => {
                            parsing = Parsing::Run {
                                last_value: None,
                                allow: Colors::all(),
                                size: size + 1,
                            };
                        },
                    },
                },
            },
            Parsing::Group { value, allow, size } => match tile {
                Tile::Basic(t) => {
                    if t.value as u128 != value {
                        return Verdict::Invalid;
                    }
                    if !allow.allows(t.color) {
                        return Verdict::Invalid;
                    }
                    if size + 1 > 4 {
                        return Verdict::Invalid;
                    }
                    let mut remaining = allow;
                    remaining.set_allowed(t.color, false);
                    parsing = Parsing::Group { value, allow: remaining, size: size + 1 };
                },
                Tile::Joker(j) => match j.variant {
                    JokerVariant::Single => {
                        if size + 1 > 4 {
                            return Verdict::Invalid;
                        }
                        parsing = Parsing::Group { value, allow, size: size + 1 };
                    },
                    JokerVariant::Double => {
                        if allow.count() < 2 {
                            return Verdict::Invalid;
                        }
                        if size + 2 > 4 {
                            return Verdict::Invalid;
                        }
                        parsing = Parsing::Group { value, allow, size: size + 2 };
                    },
                    JokerVariant::Mirror => {
                        let sym = is_symmetric(set, i);
                        return if sym {
                            Verdict::Valid
                        } else {
                            Verdict::Invalid
                        };
                    },
                    JokerVariant::ColorChange => {
                        return Verdict::Invalid;
                    },
                },
            },
            Parsing::Undetermined { tile_seen, size } => match tile {
                Tile::Basic(t) => match tile_seen {
                    Some((ts, dist)) => {
                        if t.value as u128 == ts.value as u128 + dist && t.color == ts.color {
                            if size >= t.value as u128 {
                                return Verdict::Invalid;
                            }
                            parsing = Parsing::Run {
                                last_value: Some(t.value as u128),
                                allow: Colors::only(t.color),
                                size: size + 1,
                            };
                        } else if t.value == ts.value && t.color != ts.color {
                            if size > 3 {
                                return Verdict::Invalid;
                            }
                            let mut remaining = Colors::except(t.color);
                            remaining.set_allowed(ts.color, false);
                            parsing = Parsing::Group {
                                value: ts.value as u128,
                                allow: remaining,
                                size: size + 1,
                            };
                        } else {
                            return Verdict::Invalid;
                        }
                    },
                    None => {
                        if size + 1 > 4 {
                            if t.value as u128 <= size {
                                return Verdict::Invalid;
                            }
                            parsing = Parsing::Run {
                                last_value: Some(t.value as u128),
                                allow: Colors::only(t.color),
                                size: size + 1,
                            };
                        } else {
                            parsing = Parsing::Undetermined {
                                tile_seen: Some((t, 1)),
                                size: size + 1,
                            };
                        }
                    },
                },
                Tile::Joker(j) => match j.variant {
                    JokerVariant::Single => match tile_seen {
                        Some((ts, dist)) => {
                            if size + 1 > 4 {
                                parsing = Parsing::Run {
                                    last_value: Some(ts.value as u128 + dist),
                                    allow: Colors::only(ts.color),
                                    size: size + 1,
                                };
                            } else {
                                parsing = Parsing::Undetermined {
                                    tile_seen: Some((ts, dist + 1)),
                                    size: size + 1,
                                };
                            }
                        },
                        None => {
                            if size + 1 > 4 {
                                parsing = Parsing::Run {
                                    last_value: None,
                                    allow: Colors::all(),
                                    size: size + 1,
                                };
                            } else {
                                parsing = Parsing::Undetermined {
                                    tile_seen: None,
                                    size: size + 1,
                                };
                            }
                        },
                    },
                    JokerVariant::Double => match tile_seen {
                        Some((ts, dist)) => {
                            if size + 2 > 4 {
                                parsing = Parsing::Run {
                                    last_value: Some(ts.value as u128 + dist + 1),
                                    allow: Colors::only(ts.color),
                                    size: size + 2,
                                };
                            } else {
                                parsing = Parsing::Undetermined {
                                    tile_seen: Some((ts, dist + 2)),
                                    size: size + 2,
                                };
                            }
                        },
                        None => {
                            if size + 2 > 4 {
                                parsing = Parsing::Run {
                                    last_value: None,
                                    allow: Colors::all(),
                                    size: size + 2,
                                };
                            } else {
                                parsing = Parsing::Undetermined {
                                    tile_seen: None,
                                    size: size + 2,
                                };
                            }
                        },
                    },
                    JokerVariant::Mirror => {
                        let sym = is_symmetric(set, i);
                        return if sym {
                            Verdict::Valid
                        } else {
                            Verdict::Invalid
                        };
                    },
                    JokerVariant::ColorChange => match tile_seen {
                        Some((ts, dist)) => {
                            parsing = Parsing::Run {
                                last_value: Some(ts.value as u128 + dist),
                                allow: Colors::except(ts.color),
                                size: size + 1,
                            };
                        },
                        None => {
                            parsing = Parsing::Run {
                                last_value: None,
                                allow: Colors::all(),
                                size: size + 1,
                            };
                        },
                    },
                },
            },
        }
        i = i + 1;
    }
    Verdict::Valid
}

/// Given an ordered set of Rummikub tiles, return whether the set is valid.
///
/// Callers must hand in well-formed tiles and a sequence that does not
/// provoke the internal allowance fault; `check_set` reports that fault as a
/// distinct verdict instead of excluding it.
pub fn is_valid_set(set: &Vec<Tile>) -> (valid: bool)
    requires
        crate::tiles::wf_set(set@),
        spec_check_set(set@) != Verdict::Fault,
    ensures
        valid == (spec_check_set(set@) == Verdict::Valid),
{
    let verdict = check_set(set);
    matches!(verdict, Verdict::Valid)
}

} // verus!
