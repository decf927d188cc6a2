//! Maidenhead grid-locator codec.
//!
//! A locator is a string of 4, 6, 8 or 10 characters, read in pairs of
//! increasing precision: letter pairs at pair positions 0, 2 and 4, digit
//! pairs at pair positions 1 and 3.  A successfully constructed [`Grid`] is
//! guaranteed decodable; validation happens once, at construction.

use vstd::prelude::*;

use crate::ascii::is_ascii_alpha;
use crate::ascii::is_ascii_digit;
use crate::ascii::spec_lower;
use crate::ascii::spec_to_lower;
use crate::ascii::spec_to_upper;
use crate::ascii::spec_upper;
use crate::ascii::push_char;
use crate::ascii::to_char_vec;
use crate::ascii::to_lower;
use crate::ascii::to_upper;

verus! {

/// Why a locator string was rejected: a length other than 4, 6, 8 or 10
/// (carrying the actual character count), or a character of the wrong class
/// for its position.
#[derive(Debug, Clone, Copy, PartialEq, Eq, Structural)]
pub enum GridError {
    InvalidLength(usize),
    InvalidFormat,
}

/// A validated Maidenhead locator.  The stored text is exactly the text the
/// caller supplied; case is preserved.
#[derive(Debug, PartialEq)]
pub struct Grid {
    grid: String,
}

/// The accepted character counts.
pub open spec fn valid_grid_len(n: int) -> bool {
    n == 4 || n == 6 || n == 8 || n == 10
}

/// Character class for position `i`: pairs (0,1), (4,5), (8,9) are letters,
/// pairs (2,3), (6,7) are digits; either case of letter is accepted.
pub open spec fn grid_char_ok(s: Seq<char>, i: int) -> bool {
    if (i / 2) % 2 == 0 {
        is_ascii_alpha(s[i])
    } else {
        is_ascii_digit(s[i])
    }
}

pub open spec fn grid_chars_ok(s: Seq<char>) -> bool {
    forall|i: int| 0 <= i < s.len() ==> grid_char_ok(s, i)
}

/// A syntactically valid locator string.
pub open spec fn valid_grid(s: Seq<char>) -> bool {
    valid_grid_len(s.len() as int) && grid_chars_ok(s)
}

/// Index of a locator letter within the alphabet, after uppercasing.
pub open spec fn letter_index(c: char) -> int {
    spec_to_upper(c) as int - 'A' as int
}

/// Numeric value of a locator digit.
pub open spec fn digit_index(c: char) -> int {
    c as int - '0' as int
}

/// Latitude is measured in units of 1/11520 degree: the finest latitude step
/// an extended-subsquare pair encodes is 1/5760 degree, and centering adds
/// half of that.
pub const LAT_UNITS_PER_DEGREE: i64 = 11520;

/// Longitude is measured in units of 1/5760 degree: the finest longitude step
/// is 1/2880 degree, and centering adds half of that.
pub const LON_UNITS_PER_DEGREE: i64 = 5760;

/// Half of the last-present longitude step, in 1/5760-degree units: 1 degree
/// for 4 characters, 1/24 for 6, 1/240 for 8, 1/5760 for 10.
pub open spec fn lon_center_units(n: int) -> int {
    if n == 4 {
        5760
    } else if n == 6 {
        240
    } else if n == 8 {
        24
    } else {
        1
    }
}

/// Half of the last-present latitude step, in 1/11520-degree units: 1/2
/// degree for 4 characters, 1/48 for 6, 1/480 for 8, 1/11520 for 10.
pub open spec fn lat_center_units(n: int) -> int {
    if n == 4 {
        5760
    } else if n == 6 {
        240
    } else if n == 8 {
        24
    } else {
        1
    }
}

/// Decoded latitude of the cell center, in 1/11520-degree units: pair
/// contributions of 10, 1, 1/24, 1/240 and 1/5760 degrees, plus half the
/// last-present step, minus the 90-degree bias.
pub open spec fn spec_lat_units(s: Seq<char>) -> int {
    letter_index(s[1]) * 115200 + digit_index(s[3]) * 11520 + (
    if s.len() >= 6 {
        letter_index(s[5]) * 480
    } else {
        0
    }) + (
    if s.len() >= 8 {
        digit_index(s[7]) * 48
    } else {
        0
    }) + (
    if s.len() >= 10 {
        letter_index(s[9]) * 2
    } else {
        0
    }) + lat_center_units(s.len() as int) - 90 * 11520
}

/// Decoded longitude of the cell center, in 1/5760-degree units: pair
/// contributions of 20, 2, 1/12, 1/120 and 1/2880 degrees, plus half the
/// last-present step, minus the 180-degree bias.
pub open spec fn spec_lon_units(s: Seq<char>) -> int {
    letter_index(s[0]) * 115200 + digit_index(s[2]) * 11520 + (
    if s.len() >= 6 {
        letter_index(s[4]) * 480
    } else {
        0
    }) + (
    if s.len() >= 8 {
        digit_index(s[6]) * 48
    } else {
        0
    }) + (
    if s.len() >= 10 {
        letter_index(s[8]) * 2
    } else {
        0
    }) + lon_center_units(s.len() as int) - 180 * 5760
}

/// The canonical short form: the first four characters uppercased, then the
/// fifth and sixth (when present) lowercased.
pub open spec fn spec_short(s: Seq<char>) -> Seq<char> {
    spec_upper(s.subrange(0, 4)) + spec_lower(
        s.subrange(4, if s.len() >= 6 { 6int } else { 4int }),
    )
}

impl View for Grid {
    type V = Seq<char>;

    closed spec fn view(&self) -> Seq<char> {
        self.grid@
    }
}

impl Clone for Grid {
    /// Cloning keeps the locator text.
    fn clone(&self) -> (r: Self)
        ensures
            r@ == self@,
    {
        proof {
            use_type_invariant(self);
        }
        Grid { grid: self.grid.clone() }
    }
}

impl Grid {
    /// Every reachable `Grid` wraps a syntactically valid locator.
    #[verifier::type_invariant]
    spec fn wf(&self) -> bool {
        valid_grid(self.grid@)
    }

    /// Validates a locator string: the character count must be 4, 6, 8 or 10
    /// (else `InvalidLength` with that count), and every character must match
    /// its position's class (else `InvalidFormat`).  On success the stored
    /// text is the input, unchanged.
    pub fn new(grid: String) -> (r: Result<Grid, GridError>)
        ensures
            r is Ok <==> valid_grid(grid@),
            r matches Ok(g) ==> g@ == grid@,
            !valid_grid_len(grid@.len() as int) ==> r == Err::<Grid, GridError>(
                GridError::InvalidLength(grid@.len() as usize),
            ),
            valid_grid_len(grid@.len() as int) && !grid_chars_ok(grid@) ==> r == Err::<
                Grid,
                GridError,
            >(GridError::InvalidFormat),
    {
        let chars = to_char_vec(grid.as_str());
        let n = chars.len();
        if !(n == 4 || n == 6 || n == 8 || n == 10) {
            return Err(GridError::InvalidLength(n));
        }
        let mut i: usize = 0;
        while i < n
            invariant
                n == grid@.len(),
                chars@ == grid@,
                valid_grid_len(n as int),
                i <= n,
                forall|j: int| 0 <= j < i ==> grid_char_ok(grid@, j),
            decreases n - i,
        {
            let c = chars[i];
            let ok = if (i / 2) % 2 == 0 {
                ('A' <= c && c <= 'Z') || ('a' <= c && c <= 'z')
            } else {
                '0' <= c && c <= '9'
            };
            if !ok {
                proof {
                    assert(!grid_char_ok(grid@, i as int));
                }
                return Err(GridError::InvalidFormat);
            }
            i = i + 1;
        }
        Ok(Grid { grid })
    }

    /// The locator shortened to its canonical reporting form: first four
    /// characters uppercased, fifth and sixth (when present) lowercased.
    pub fn short(&self) -> (r: String)
        ensures
            r@ == spec_short(self@),
    {
        proof {
            use_type_invariant(self);
        }
        let chars = to_char_vec(self.grid.as_str());
        let mut r = String::new();
        push_char(&mut r, to_upper(chars[0]));
        push_char(&mut r, to_upper(chars[1]));
        push_char(&mut r, to_upper(chars[2]));
        push_char(&mut r, to_upper(chars[3]));
        if chars.len() >= 6 {
            push_char(&mut r, to_lower(chars[4]));
            push_char(&mut r, to_lower(chars[5]));
        }
        proof {
            assert(r@ =~= spec_short(self@));
        }
        r
    }

    /// The locator exactly as it was given to `new`.
    pub fn full(&self) -> (r: String)
        ensures
            r@ == self@,
    {
        self.grid.clone()
    }

    /// Decodes the locator to the center of its most precise cell, as
    /// `(latitude, longitude)` in units of 1/11520 and 1/5760 degree
    /// respectively (`LAT_UNITS_PER_DEGREE`, `LON_UNITS_PER_DEGREE`).
    /// Decoding a validated locator cannot fail.
    pub fn coord(&self) -> (r: (i64, i64))
        ensures
            r.0 == spec_lat_units(self@),
            r.1 == spec_lon_units(self@),
    {
        proof {
            use_type_invariant(self);
        }
        let chars = to_char_vec(self.grid.as_str());
        let n = chars.len();
        assert(grid_char_ok(self@, 0));
        assert(grid_char_ok(self@, 1));
        assert(grid_char_ok(self@, 2));
        assert(grid_char_ok(self@, 3));
        let mut lat: i64 = letter_value(chars[1]) * 115200 + digit_value_i64(chars[3]) * 11520;
        let mut lon: i64 = letter_value(chars[0]) * 115200 + digit_value_i64(chars[2]) * 11520;
        if n >= 6 {
            assert(grid_char_ok(self@, 4));
            assert(grid_char_ok(self@, 5));
            lat = lat + letter_value(chars[5]) * 480;
            lon = lon + letter_value(chars[4]) * 480;
        }
        if n >= 8 {
            assert(grid_char_ok(self@, 6));
            assert(grid_char_ok(self@, 7));
            lat = lat + digit_value_i64(chars[7]) * 48;
            lon = lon + digit_value_i64(chars[6]) * 48;
        }
        if n >= 10 {
            assert(grid_char_ok(self@, 8));
            assert(grid_char_ok(self@, 9));
            lat = lat + letter_value(chars[9]) * 2;
            lon = lon + letter_value(chars[8]) * 2;
        }
        let center: i64 = if n == 4 {
            5760
        } else if n == 6 {
            240
        } else if n == 8 {
            24
        } else {
            1
        };
        lat = lat + center - 90 * 11520;
        lon = lon + center - 180 * 5760;
        (lat, lon)
    }
}

/// Alphabet index of a locator letter, either case.
fn letter_value(c: char) -> (r: i64)
    requires
        is_ascii_alpha(c),
    ensures
        r == letter_index(c),
        0 <= r < 26,
{
    let u = to_upper(c);
    (u as u32 as i64) - 65
}

/// Numeric value of a locator digit.
fn digit_value_i64(c: char) -> (r: i64)
    requires
        is_ascii_digit(c),
    ensures
        r == digit_index(c),
        0 <= r <= 9,
{
    (c as u32 as i64) - 48
}

} // verus!
