//! The color allowance set: for each of the four colors, whether a tile of
//! that color is still permitted at the current position of a parse.

use vstd::prelude::*;
use crate::tiles::TileColor;

verus! {

/// A fixed mapping from the four tile colors to a "still permitted" flag.
/// The key set is closed: exactly these four entries, never fewer or more.
#[derive(Clone, Copy, Debug, PartialEq, Eq, Structural)]
pub struct Colors {
    pub black: bool,
    pub red: bool,
    pub blue: bool,
    pub orange: bool,
}

impl Colors {
    /// Whether `color` is permitted in this map.
    pub open spec fn spec_allows(self, color: TileColor) -> bool {
        match color {
            TileColor::Black => self.black,
            TileColor::Red => self.red,
            TileColor::Blue => self.blue,
            TileColor::Orange => self.orange,
        }
    }

    /// The map equal to `self` except that `color` maps to `allowed`.
    pub open spec fn spec_set(self, color: TileColor, allowed: bool) -> Colors {
        match color {
            TileColor::Black => Colors { black: allowed, ..self },
            TileColor::Red => Colors { red: allowed, ..self },
            TileColor::Blue => Colors { blue: allowed, ..self },
            TileColor::Orange => Colors { orange: allowed, ..self },
        }
    }

    /// How many of the four colors are permitted.
    pub open spec fn spec_count(self) -> int {
        (if self.black { 1int } else { 0int }) + (if self.red { 1int } else { 0int })
            + (if self.blue { 1int } else { 0int }) + (if self.orange { 1int } else { 0int })
    }

    /// The map with every flag negated.
    pub open spec fn spec_flip(self) -> Colors {
        Colors { black: !self.black, red: !self.red, blue: !self.blue, orange: !self.orange }
    }

    /// The map permitting every color.
    pub open spec fn spec_all() -> Colors {
        Colors { black: true, red: true, blue: true, orange: true }
    }

    /// The map permitting no color.
    pub open spec fn spec_none() -> Colors {
        Colors { black: false, red: false, blue: false, orange: false }
    }

    /// The map permitting exactly `color`.
    pub open spec fn spec_only(color: TileColor) -> Colors {
        Colors::spec_none().spec_set(color, true)
    }

    /// The map permitting every color but `color`.
    pub open spec fn spec_except(color: TileColor) -> Colors {
        Colors::spec_all().spec_set(color, false)
    }

    /// Every color permitted.
    pub fn all() -> (map: Colors)
        ensures
            map == Colors::spec_all(),
    {
        Colors { black: true, red: true, blue: true, orange: true }
    }

    /// No color permitted.
    pub fn none() -> (map: Colors)
        ensures
            map == Colors::spec_none(),
    {
        Colors { black: false, red: false, blue: false, orange: false }
    }

    /// Exactly `color` permitted.
    pub fn only(color: TileColor) -> (map: Colors)
        ensures
            map == Colors::spec_only(color),
            forall|d: TileColor| map.spec_allows(d) <==> d == color,
    {
        let mut map = Colors::none();
        map.set_allowed(color, true);
        map
    }

    /// Every color but `color` permitted.
    pub fn except(color: TileColor) -> (map: Colors)
        ensures
            map == Colors::spec_except(color),
            forall|d: TileColor| map.spec_allows(d) <==> d != color,
    {
        let mut map = Colors::all();
        map.set_allowed(color, false);
        map
    }

    /// Whether `color` is permitted.
    pub fn allows(&self, color: TileColor) -> (allowed: bool)
        ensures
            allowed == self.spec_allows(color),
    {
        match color {
            TileColor::Black => self.black,
            TileColor::Red => self.red,
            TileColor::Blue => self.blue,
            TileColor::Orange => self.orange,
        }
    }

    /// Point mutation: set the flag of one color, leaving the others alone.
    pub fn set_allowed(&mut self, color: TileColor, allowed: bool)
        ensures
            *final(self) == old(self).spec_set(color, allowed),
    {
        match color {
            TileColor::Black => self.black = allowed,
            TileColor::Red => self.red = allowed,
            TileColor::Blue => self.blue = allowed,
            TileColor::Orange => self.orange = allowed,
        }
    }

    /// How many colors are currently permitted.
    pub fn count(&self) -> (n: usize)
        ensures
            n as int == self.spec_count(),
    {
        let mut n: usize = 0;
        if self.black {
            n = n + 1;
        }
        if self.red {
            n = n + 1;
        }
        if self.blue {
            n = n + 1;
        }
        if self.orange {
            n = n + 1;
        }
        n
    }

    /// The map with every flag negated.
    pub fn flipped(&self) -> (map: Colors)
        ensures
            map == self.spec_flip(),
    {
        Colors { black: !self.black, red: !self.red, blue: !self.blue, orange: !self.orange }
    }
}

} // verus!
