//! The tile model: colors, values, jokers, and the textual shorthand reader.

use vstd::prelude::*;

verus! {

/// A Rummikub tile: either a numbered tile in one of the four colors, or a
/// joker of one of the four variants.
#[derive(Clone, Copy, Debug, PartialEq, Eq, Structural)]
pub enum Tile {
    Basic(BasicTile),
    Joker(Joker),
}

/// The value printed on a numbered tile. Legal values lie in `[1, 13]`.
pub type TileValue = u8;

/// A numbered tile: a color and a value in `[1, 13]`.
#[derive(Clone, Copy, Debug, PartialEq, Eq, Structural)]
pub struct BasicTile {
    pub color: TileColor,
    pub value: TileValue,
}

/// Whether `value` may appear on a numbered tile.
pub open spec fn valid_tile_value(value: TileValue) -> bool {
    1 <= value <= 13
}

impl BasicTile {
    /// Construct a numbered tile. Values outside `[1, 13]` are a contract
    /// violation of the caller, not a recoverable condition, so they are
    /// excluded by precondition.
    pub fn new(color: TileColor, value: TileValue) -> (tile: Self)
        requires
            valid_tile_value(value),
        ensures
            tile == (BasicTile { color, value }),
    {
        Self { color, value }
    }
}

/// The four tile colors. There is no fifth color.
#[derive(Clone, Copy, Debug, Hash, PartialEq, Eq, Structural)]
pub enum TileColor {
    Black,
    Red,
    Blue,
    Orange,
}

/// A joker tile, tagged with its variant.
#[derive(Clone, Copy, Debug, PartialEq, Eq, Structural)]
pub struct Joker {
    pub variant: JokerVariant,
}

impl Joker {
    pub fn new(variant: JokerVariant) -> (joker: Self)
        ensures
            joker == (Joker { variant }),
    {
        Self { variant }
    }
}

/// The four joker variants, each with its own substitution semantics.
#[derive(Clone, Copy, Debug, PartialEq, Eq, Structural)]
pub enum JokerVariant {
    /// Substitutes for exactly one tile consistent with its position.
    Single,
    /// Substitutes for two consecutive run positions, or two group slots.
    Double,
    /// Marks a symmetry axis: the sequence must mirror around it.
    Mirror,
    /// Switches the color a run is locked to; illegal inside a group.
    ColorChange,
}

/// Whether every numbered tile in the sequence carries a legal value.
pub open spec fn wf_set(s: Seq<Tile>) -> bool {
    forall|k: int|
        0 <= k < s.len() ==> match #[trigger] s[k] {
            Tile::Basic(t) => valid_tile_value(t.value),
            Tile::Joker(_) => true,
        }
}

/// Why the shorthand reader rejected its input.
#[derive(Clone, Copy, Debug, PartialEq, Eq, Structural)]
pub enum DeserializeError {
    /// A token with no characters at all: the input is empty, or a space
    /// leads, trails, or doubles up.
    EmptyToken,
    /// A token begins with a letter that names no tile color and no joker.
    UnrecognizedToken,
    /// A joker letter is followed by trailing characters.
    UnrecognizedJokerToken,
    /// The characters after a color letter are not a number a `u8` can hold.
    MalformedTileValue,
    /// The number after a color letter lies outside `[1, 13]`.
    TileValueOutOfRange,
}

/// One decimal digit.
pub open spec fn is_digit_char(c: char) -> bool {
    48 <= c as u32 <= 57
}

/// The numeric value of one decimal digit.
pub open spec fn digit_val(c: char) -> int {
    c as u32 - 48
}

/// The numeric value of a digit string, most significant digit first.
pub open spec fn numeral_val(s: Seq<char>) -> int
    decreases s.len(),
{
    if s.len() == 0 {
        0
    } else {
        numeral_val(s.drop_last()) * 10 + digit_val(s.last())
    }
}

/// Whether every character of `s` is a decimal digit.
pub open spec fn all_digits(s: Seq<char>) -> bool {
    forall|k: int| 0 <= k < s.len() ==> is_digit_char(#[trigger] s[k])
}

/// What parsing `s` as a `u8` yields: an optional leading `+`, then at
/// least one digit, naming a value of at most 255.
pub open spec fn spec_parse_u8(s: Seq<char>) -> Option<u8> {
    let digits = if s.len() > 0 && s[0] == '+' {
        s.skip(1)
    } else {
        s
    };
    if digits.len() > 0 && all_digits(digits) && numeral_val(digits) <= 255 {
        Some(numeral_val(digits) as u8)
    } else {
        None
    }
}

/// Reading the value part of a numbered-tile token: a `u8` numeral, then a
/// range check into `[1, 13]`.
pub open spec fn spec_parse_tile_value(s: Seq<char>) -> Result<TileValue, DeserializeError> {
    match spec_parse_u8(s) {
        None => Err(DeserializeError::MalformedTileValue),
        Some(value) => {
            if value == 0 || value > 13 {
                Err(DeserializeError::TileValueOutOfRange)
            } else {
                Ok(value)
            }
        },
    }
}

/// Reading one whitespace-free token: a color letter followed by a value,
/// or a lone joker letter.
pub open spec fn spec_parse_token(tok: Seq<char>) -> Result<Tile, DeserializeError> {
    if tok.len() == 0 {
        Err(DeserializeError::EmptyToken)
    } else if tok[0] == 'r' {
        spec_basic_token(TileColor::Red, tok)
    } else if tok[0] == 'o' {
        spec_basic_token(TileColor::Orange, tok)
    } else if tok[0] == 'u' {
        spec_basic_token(TileColor::Blue, tok)
    } else if tok[0] == 'a' {
        spec_basic_token(TileColor::Black, tok)
    } else if tok[0] == 'j' {
        spec_joker_token(JokerVariant::Single, tok)
    } else if tok[0] == 'd' {
        spec_joker_token(JokerVariant::Double, tok)
    } else if tok[0] == 'm' {
        spec_joker_token(JokerVariant::Mirror, tok)
    } else if tok[0] == 'c' {
        spec_joker_token(JokerVariant::ColorChange, tok)
    } else {
        Err(DeserializeError::UnrecognizedToken)
    }
}

/// A numbered-tile token: the value after the color letter decides.
pub open spec fn spec_basic_token(color: TileColor, tok: Seq<char>) -> Result<
    Tile,
    DeserializeError,
> {
    match spec_parse_tile_value(tok.skip(1)) {
        Ok(value) => Ok(Tile::Basic(BasicTile { color, value })),
        Err(e) => Err(e),
    }
}

/// A joker token: the letter must stand alone.
pub open spec fn spec_joker_token(variant: JokerVariant, tok: Seq<char>) -> Result<
    Tile,
    DeserializeError,
> {
    if tok.len() > 1 {
        Err(DeserializeError::UnrecognizedJokerToken)
    } else {
        Ok(Tile::Joker(Joker { variant }))
    }
}

/// The length of the token starting at position `i`: the characters up to
/// the next space or the end of the input.
pub open spec fn token_len(s: Seq<char>, i: int) -> int
    decreases s.len() - i,
{
    if i < 0 || i >= s.len() || s[i] == ' ' {
        0
    } else {
        1 + token_len(s, i + 1)
    }
}

/// A token never has negative length.
pub proof fn lemma_token_len_nonneg(s: Seq<char>, i: int)
    ensures
        token_len(s, i) >= 0,
    decreases s.len() - i,
{
    if !(i < 0 || i >= s.len() || s[i] == ' ') {
        lemma_token_len_nonneg(s, i + 1);
    }
}

/// Reading a whole line from position `i` on: one token, then, after the
/// separating space, the rest. The first failing token decides the error.
pub open spec fn spec_deserialize_from(s: Seq<char>, i: int) -> Result<
    Seq<Tile>,
    DeserializeError,
>
    decreases s.len() - i,
{
    let tok = s.subrange(i, i + token_len(s, i));
    match spec_parse_token(tok) {
        Err(e) => Err(e),
        Ok(tile) => {
            if i + token_len(s, i) >= s.len() {
                Ok(seq![tile])
            } else {
                proof {
                    lemma_token_len_nonneg(s, i);
                }
                match spec_deserialize_from(s, i + token_len(s, i) + 1) {
                    Err(e) => Err(e),
                    Ok(rest) => Ok(seq![tile] + rest),
                }
            }
        },
    }
}

/// A digit string names a nonnegative number.
pub proof fn lemma_numeral_val_nonneg(s: Seq<char>)
    requires
        all_digits(s),
    ensures
        numeral_val(s) >= 0,
    decreases s.len(),
{
    if s.len() > 0 {
        assert(all_digits(s.drop_last())) by {
            assert(forall|k: int| 0 <= k < s.len() - 1 ==> s.drop_last()[k] == s[k]);
        }
        lemma_numeral_val_nonneg(s.drop_last());
        assert(is_digit_char(s.last()));
    }
}

/// Read the tile value written between positions `from` and `to` of `s`:
/// the part of a numbered-tile token after its color letter.
fn parse_tile_value(s: &str, from: usize, to: usize) -> (result: Result<
    TileValue,
    DeserializeError,
>)
    requires
        from <= to <= s@.len(),
    ensures
        result == spec_parse_tile_value(s@.subrange(from as int, to as int)),
{
    let ghost tok = s@.subrange(from as int, to as int);
    let mut k = from;
    if k < to && s.get_char(k) == '+' {
        k = k + 1;
    }
    let ghost digits = s@.subrange(k as int, to as int);
    proof {
        if tok.len() > 0 && tok[0] == '+' {
            assert(digits =~= tok.skip(1));
        } else {
            assert(digits =~= tok);
        }
    }
    if k == to {
        // nothing after the optional sign: no numeral at all
        return Err(DeserializeError::MalformedTileValue);
    }
    let mut acc: u32 = 0;
    let mut m = k;
    while m < to
        invariant
            from <= k <= m <= to <= s@.len(),
            tok == s@.subrange(from as int, to as int),
            digits == s@.subrange(k as int, to as int),
            digits == (if tok.len() > 0 && tok[0] == '+' {
                tok.skip(1)
            } else {
                tok
            }),
            digits.len() > 0,
            forall|p: int| k <= p < m ==> is_digit_char(#[trigger] s@[p]),
            acc <= 256,
            numeral_val(s@.subrange(k as int, m as int)) <= 255 ==> acc == numeral_val(
                s@.subrange(k as int, m as int),
            ),
            numeral_val(s@.subrange(k as int, m as int)) > 255 ==> acc == 256,
        decreases to - m,
    {
        let ghost prefix = s@.subrange(k as int, m as int);
        let c = s.get_char(m);
        let u = c as u32;
        if u < 48 || u > 57 {
            proof {
                assert(digits[m - k] == c);
                assert(!all_digits(digits));
            }
            return Err(DeserializeError::MalformedTileValue);
        }
        let d = u - 48;
        let wide = acc * 10 + d;
        if wide > 255 {
            // remember only that the numeral has outgrown a byte
            acc = 256;
        } else {
            acc = wide;
        }
        m = m + 1;
        proof {
            let grown = s@.subrange(k as int, m as int);
            assert(grown.drop_last() =~= prefix);
            assert(grown.last() == c);
            assert(numeral_val(grown) == numeral_val(prefix) * 10 + digit_val(c));
            assert(forall|p: int| k <= p < m ==> is_digit_char(#[trigger] s@[p]));
            if numeral_val(prefix) > 255 {
                lemma_numeral_val_nonneg(grown);
                assert(all_digits(prefix)) by {
                    assert(forall|p: int| 0 <= p < prefix.len() ==> prefix[p] == s@[k + p]);
                }
                lemma_numeral_val_nonneg(prefix);
                assert(numeral_val(grown) > 255);
            }
        }
    }
    proof {
        assert(s@.subrange(k as int, m as int) =~= digits);
        assert(all_digits(digits)) by {
            assert(forall|p: int| 0 <= p < digits.len() ==> digits[p] == s@[k + p]);
        }
    }
    if acc > 255 {
        // the numeral does not fit in a byte: parsing it fails
        return Err(DeserializeError::MalformedTileValue);
    }
    let value = acc as u8;
    if value == 0 || value > 13 {
        return Err(DeserializeError::TileValueOutOfRange);
    }
    Ok(value)
}

/// The tile sequence a whole input line stands for, or the first error.
pub open spec fn spec_deserialize(s: Seq<char>) -> Result<Seq<Tile>, DeserializeError> {
    spec_deserialize_from(s, 0)
}

/// Turn a line of space-separated tile abbreviations into the tile sequence
/// it stands for, or report the first malformed token.
///
/// Numbered tiles are a color letter and a value: `r` red, `o` orange,
/// `u` blue, `a` black, as in `r7`. Jokers are lone letters: `j` single,
/// `d` double, `m` mirror, `c` color change. Examples: `r1 r2 r3` and
/// `a6 c u8 u9 m j u8 c a6`.
pub fn deserialize_set(input: String) -> (result: Result<Vec<Tile>, DeserializeError>)
    ensures
        (match result {
            Ok(tiles) => spec_deserialize(input@) == Ok::<Seq<Tile>, DeserializeError>(tiles@),
            Err(e) => spec_deserialize(input@) == Err::<Seq<Tile>, DeserializeError>(e),
        }),
{
    let s = input.as_str();
    let n = s.unicode_len();
    let mut tiles: Vec<Tile> = Vec::new();
    let mut i: usize = 0;
    loop
        invariant
            s@ == input@,
            n == s@.len(),
            i <= n,
            spec_deserialize(input@) == (match spec_deserialize_from(s@, i as int) {
                Ok(rest) => Ok::<Seq<Tile>, DeserializeError>(tiles@ + rest),
                Err(e) => Err::<Seq<Tile>, DeserializeError>(e),
            }),
        decreases n - i,
    {
        let ghost prior = tiles@;
        // scan to the end of the current token
        let mut j = i;
        while j < n && s.get_char(j) != ' '
            invariant
                i <= j <= n,
                n == s@.len(),
                token_len(s@, i as int) == (j - i) + token_len(s@, j as int),
            decreases n - j,
        {
            j = j + 1;
        }
        proof {
            assert(token_len(s@, j as int) == 0);
            assert(token_len(s@, i as int) == j - i);
        }
        let ghost tok = s@.subrange(i as int, j as int);
        if j == i {
            // the input ends here or a space follows at once: an empty token
            proof {
                assert(tok =~= Seq::<char>::empty());
                assert(spec_parse_token(tok) == Err::<Tile, DeserializeError>(
                    DeserializeError::EmptyToken,
                ));
            }
            return Err(DeserializeError::EmptyToken);
        }

        let c0 = s.get_char(i);
        let tile: Tile;
        if c0 == 'r' || c0 == 'o' || c0 == 'u' || c0 == 'a' {
            let value = match parse_tile_value(s, i + 1, j) {
                Ok(v) => v,
                Err(e) => {
                    proof {
                        assert(tok.skip(1) =~= s@.subrange(i as int + 1, j as int));
                        assert(spec_parse_token(tok) == Err::<Tile, DeserializeError>(e));
                    }
                    return Err(e);
                },
            };
            proof {
                assert(tok.skip(1) =~= s@.subrange(i as int + 1, j as int));
            }
            let color = if c0 == 'r' {
                TileColor::Red
            } else if c0 == 'o' {
                TileColor::Orange
            } else if c0 == 'u' {
                TileColor::Blue
            } else {
                TileColor::Black
            };
            tile = Tile::Basic(BasicTile::new(color, value));
        } else if c0 == 'j' || c0 == 'd' || c0 == 'm' || c0 == 'c' {
            if j > i + 1 {
                proof {
                    assert(spec_parse_token(tok) == Err::<Tile, DeserializeError>(
                        DeserializeError::UnrecognizedJokerToken,
                    ));
                }
                return Err(DeserializeError::UnrecognizedJokerToken);
            }
            let variant = if c0 == 'j' {
                JokerVariant::Single
            } else if c0 == 'd' {
                JokerVariant::Double
            } else if c0 == 'm' {
                JokerVariant::Mirror
            } else {
                JokerVariant::ColorChange
            };
            tile = Tile::Joker(Joker::new(variant));
        } else {
            proof {
                assert(spec_parse_token(tok) == Err::<Tile, DeserializeError>(
                    DeserializeError::UnrecognizedToken,
                ));
            }
            return Err(DeserializeError::UnrecognizedToken);
        }
        proof {
            assert(spec_parse_token(tok) == Ok::<Tile, DeserializeError>(tile));
        }
        tiles.push(tile);

        if j == n {
            proof {
                assert(spec_deserialize_from(s@, i as int) == Ok::<Seq<Tile>, DeserializeError>(
                    seq![tile],
                ));
                assert(prior + seq![tile] =~= tiles@);
            }
            return Ok(tiles);
        }
        proof {
            // step over the separating space to the start of the next token
            assert(s@[j as int] == ' ');
            match spec_deserialize_from(s@, j as int + 1) {
                Ok(rest) => {
                    assert(prior + (seq![tile] + rest) =~= tiles@ + rest);
                },
                Err(_) => {},
            }
        }
        i = j + 1;
    }
}

} // verus!
