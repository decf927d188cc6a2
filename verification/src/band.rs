//! Amateur-band classification of a frequency in hertz.

use vstd::prelude::*;

verus! {

/// An amateur band, carrying the frequency (in hertz) it classified.
/// Frequencies outside every recognized band carry `Unknown`.
#[derive(Debug, Clone, Copy, PartialEq, Eq, Structural)]
pub enum Band {
    TwentyTwoHundredMeters(i32),
    SixHundredThirtyMeters(i32),
    OneHundredSixtyMeters(i32),
    EightyMeters(i32),
    SixtyMeters(i32),
    FortyMeters(i32),
    ThirtyMeters(i32),
    TwentyMeters(i32),
    SeventeenMeters(i32),
    FifteenMeters(i32),
    TwelveMeters(i32),
    TenMeters(i32),
    SixMeters(i32),
    TwoMeters(i32),
    OnePointTwoFiveMeters(i32),
    SeventyCM(i32),
    ThirtyThreeCM(i32),
    TwentyThreeCM(i32),
    Unknown(i32),
}

/// The band a frequency in hertz falls in, by the band-edge table.
pub open spec fn spec_band_of(freq: i32) -> Band {
    if 135700 <= freq <= 137800 {
        Band::TwentyTwoHundredMeters(freq)
    } else if 472000 <= freq <= 479000 {
        Band::SixHundredThirtyMeters(freq)
    } else if 1800000 <= freq <= 2000000 {
        Band::OneHundredSixtyMeters(freq)
    } else if 3500000 <= freq <= 4000000 {
        Band::EightyMeters(freq)
    } else if 5330500 <= freq <= 5406500 {
        Band::SixtyMeters(freq)
    } else if 7000000 <= freq <= 7300000 {
        Band::FortyMeters(freq)
    } else if 10100000 <= freq <= 10150000 {
        Band::ThirtyMeters(freq)
    } else if 14000000 <= freq <= 14350000 {
        Band::TwentyMeters(freq)
    } else if 18068000 <= freq <= 18168000 {
        Band::SeventeenMeters(freq)
    } else if 21000000 <= freq <= 21450000 {
        Band::FifteenMeters(freq)
    } else if 24890000 <= freq <= 24990000 {
        Band::TwelveMeters(freq)
    } else if 28000000 <= freq <= 29700000 {
        Band::TenMeters(freq)
    } else if 50000000 <= freq <= 54000000 {
        Band::SixMeters(freq)
    } else if 144000000 <= freq <= 148000000 {
        Band::TwoMeters(freq)
    } else if 222000000 <= freq <= 225000000 {
        Band::OnePointTwoFiveMeters(freq)
    } else if 420000000 <= freq <= 450000000 {
        Band::SeventyCM(freq)
    } else if 902000000 <= freq <= 928000000 {
        Band::ThirtyThreeCM(freq)
    } else if 1240000000 <= freq <= 1300000000 {
        Band::TwentyThreeCM(freq)
    } else {
        Band::Unknown(freq)
    }
}

/// The frequency a band value carries, whichever variant holds it.
pub open spec fn spec_frequency(b: Band) -> i32 {
    match b {
        Band::TwentyTwoHundredMeters(f) => f,
        Band::SixHundredThirtyMeters(f) => f,
        Band::OneHundredSixtyMeters(f) => f,
        Band::EightyMeters(f) => f,
        Band::SixtyMeters(f) => f,
        Band::FortyMeters(f) => f,
        Band::ThirtyMeters(f) => f,
        Band::TwentyMeters(f) => f,
        Band::SeventeenMeters(f) => f,
        Band::FifteenMeters(f) => f,
        Band::TwelveMeters(f) => f,
        Band::TenMeters(f) => f,
        Band::SixMeters(f) => f,
        Band::TwoMeters(f) => f,
        Band::OnePointTwoFiveMeters(f) => f,
        Band::SeventyCM(f) => f,
        Band::ThirtyThreeCM(f) => f,
        Band::TwentyThreeCM(f) => f,
        Band::Unknown(f) => f,
    }
}

impl Band {
    /// Classifies a frequency in hertz by the band-edge table.
    pub fn new(freq: i32) -> (r: Band)
        ensures
            r == spec_band_of(freq),
    {
        match freq {
            freq if freq >= 135700 && freq <= 137800 => Band::TwentyTwoHundredMeters(freq),
            freq if freq >= 472000 && freq <= 479000 => Band::SixHundredThirtyMeters(freq),
            freq if freq >= 1800000 && freq <= 2000000 => Band::OneHundredSixtyMeters(freq),
            freq if freq >= 3500000 && freq <= 4000000 => Band::EightyMeters(freq),
            freq if freq >= 5330500 && freq <= 5406500 => Band::SixtyMeters(freq),
            freq if freq >= 7000000 && freq <= 7300000 => Band::FortyMeters(freq),
            freq if freq >= 10100000 && freq <= 10150000 => Band::ThirtyMeters(freq),
            freq if freq >= 14000000 && freq <= 14350000 => Band::TwentyMeters(freq),
            freq if freq >= 18068000 && freq <= 18168000 => Band::SeventeenMeters(freq),
            freq if freq >= 21000000 && freq <= 21450000 => Band::FifteenMeters(freq),
            freq if freq >= 24890000 && freq <= 24990000 => Band::TwelveMeters(freq),
            freq if freq >= 28000000 && freq <= 29700000 => Band::TenMeters(freq),
            freq if freq >= 50000000 && freq <= 54000000 => Band::SixMeters(freq),
            freq if freq >= 144000000 && freq <= 148000000 => Band::TwoMeters(freq),
            freq if freq >= 222000000 && freq <= 225000000 => Band::OnePointTwoFiveMeters(freq),
            freq if freq >= 420000000 && freq <= 450000000 => Band::SeventyCM(freq),
            freq if freq >= 902000000 && freq <= 928000000 => Band::ThirtyThreeCM(freq),
            freq if freq >= 1240000000 && freq <= 1300000000 => Band::TwentyThreeCM(freq),
            _ => Band::Unknown(freq),
        }
    }

    /// The frequency in hertz this value carries.
    pub fn frequency(&self) -> (r: i32)
        ensures
            r == spec_frequency(*self),
    {
        match self {
            Band::TwentyTwoHundredMeters(f) => *f,
            Band::SixHundredThirtyMeters(f) => *f,
            Band::OneHundredSixtyMeters(f) => *f,
            Band::EightyMeters(f) => *f,
            Band::SixtyMeters(f) => *f,
            Band::FortyMeters(f) => *f,
            Band::ThirtyMeters(f) => *f,
            Band::TwentyMeters(f) => *f,
            Band::SeventeenMeters(f) => *f,
            Band::FifteenMeters(f) => *f,
            Band::TwelveMeters(f) => *f,
            Band::TenMeters(f) => *f,
            Band::SixMeters(f) => *f,
            Band::TwoMeters(f) => *f,
            Band::OnePointTwoFiveMeters(f) => *f,
            Band::SeventyCM(f) => *f,
            Band::ThirtyThreeCM(f) => *f,
            Band::TwentyThreeCM(f) => *f,
            Band::Unknown(f) => *f,
        }
    }

    /// The conventional wavelength name of the band, or `None` for a
    /// frequency outside every recognized band.
    pub fn band(&self) -> (r: Option<&'static str>)
        ensures
            r is Some <==> !(self is Unknown),
            r matches Some(s) ==> s@ == spec_band_label(*self),
    {
        match self {
            Band::TwentyTwoHundredMeters(_) => Some("2200m"),
            Band::SixHundredThirtyMeters(_) => Some("630m"),
            Band::OneHundredSixtyMeters(_) => Some("160m"),
            Band::EightyMeters(_) => Some("80m"),
            Band::SixtyMeters(_) => Some("60m"),
            Band::FortyMeters(_) => Some("40m"),
            Band::ThirtyMeters(_) => Some("30m"),
            Band::TwentyMeters(_) => Some("20m"),
            Band::SeventeenMeters(_) => Some("17m"),
            Band::FifteenMeters(_) => Some("15m"),
            Band::TwelveMeters(_) => Some("12m"),
            Band::TenMeters(_) => Some("10m"),
            Band::SixMeters(_) => Some("6m"),
            Band::TwoMeters(_) => Some("2m"),
            Band::OnePointTwoFiveMeters(_) => Some("1.25m"),
            Band::SeventyCM(_) => Some("70cm"),
            Band::ThirtyThreeCM(_) => Some("33cm"),
            Band::TwentyThreeCM(_) => Some("23cm"),
            Band::Unknown(_) => None,
        }
    }

    /// The display color conventionally associated with the band, or `None`
    /// for an unrecognized frequency.
    pub fn color(&self) -> (r: Option<&'static str>)
        ensures
            r is Some <==> !(self is Unknown),
            r matches Some(s) ==> s@ == spec_band_color(*self),
    {
        match self {
            Band::TwentyTwoHundredMeters(_) => Some("#7cfc00"),
            Band::SixHundredThirtyMeters(_) => Some("#7cfc00"),
            Band::OneHundredSixtyMeters(_) => Some("#7cfc00"),
            Band::EightyMeters(_) => Some("#e550e5"),
            Band::SixtyMeters(_) => Some("#7cfc00"),
            Band::FortyMeters(_) => Some("#5959ff"),
            Band::ThirtyMeters(_) => Some("#62d962"),
            Band::TwentyMeters(_) => Some("#f2c40c"),
            Band::SeventeenMeters(_) => Some("#f2f261"),
            Band::FifteenMeters(_) => Some("#cca166"),
            Band::TwelveMeters(_) => Some("#b22222"),
            Band::TenMeters(_) => Some("#ff69b4"),
            Band::SixMeters(_) => Some("#FF0000"),
            Band::TwoMeters(_) => Some("#FF1493"),
            Band::OnePointTwoFiveMeters(_) => Some("#CCFF00"),
            Band::SeventyCM(_) => Some("#999900"),
            Band::ThirtyThreeCM(_) => Some("#5AB8C7"),
            Band::TwentyThreeCM(_) => Some("#7cfc00"),
            Band::Unknown(_) => None,
        }
    }
}

/// The wavelength name of a recognized band.
pub open spec fn spec_band_label(b: Band) -> Seq<char> {
    match b {
        Band::TwentyTwoHundredMeters(_) => "2200m"@,
        Band::SixHundredThirtyMeters(_) => "630m"@,
        Band::OneHundredSixtyMeters(_) => "160m"@,
        Band::EightyMeters(_) => "80m"@,
        Band::SixtyMeters(_) => "60m"@,
        Band::FortyMeters(_) => "40m"@,
        Band::ThirtyMeters(_) => "30m"@,
        Band::TwentyMeters(_) => "20m"@,
        Band::SeventeenMeters(_) => "17m"@,
        Band::FifteenMeters(_) => "15m"@,
        Band::TwelveMeters(_) => "12m"@,
        Band::TenMeters(_) => "10m"@,
        Band::SixMeters(_) => "6m"@,
        Band::TwoMeters(_) => "2m"@,
        Band::OnePointTwoFiveMeters(_) => "1.25m"@,
        Band::SeventyCM(_) => "70cm"@,
        Band::ThirtyThreeCM(_) => "33cm"@,
        Band::TwentyThreeCM(_) => "23cm"@,
        Band::Unknown(_) => ""@,
    }
}

/// The display color of a recognized band.
pub open spec fn spec_band_color(b: Band) -> Seq<char> {
    match b {
        Band::TwentyTwoHundredMeters(_) => "#7cfc00"@,
        Band::SixHundredThirtyMeters(_) => "#7cfc00"@,
        Band::OneHundredSixtyMeters(_) => "#7cfc00"@,
        Band::EightyMeters(_) => "#e550e5"@,
        Band::SixtyMeters(_) => "#7cfc00"@,
        Band::FortyMeters(_) => "#5959ff"@,
        Band::ThirtyMeters(_) => "#62d962"@,
        Band::TwentyMeters(_) => "#f2c40c"@,
        Band::SeventeenMeters(_) => "#f2f261"@,
        Band::FifteenMeters(_) => "#cca166"@,
        Band::TwelveMeters(_) => "#b22222"@,
        Band::TenMeters(_) => "#ff69b4"@,
        Band::SixMeters(_) => "#FF0000"@,
        Band::TwoMeters(_) => "#FF1493"@,
        Band::OnePointTwoFiveMeters(_) => "#CCFF00"@,
        Band::SeventyCM(_) => "#999900"@,
        Band::ThirtyThreeCM(_) => "#5AB8C7"@,
        Band::TwentyThreeCM(_) => "#7cfc00"@,
        Band::Unknown(_) => ""@,
    }
}

} // verus!
