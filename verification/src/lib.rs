//! Amateur-radio contact-log library: an ADI (tag-length-value) parser for
//! ADIF logbooks, a Maidenhead grid-locator codec, and the domain types
//! (bands, modes, callsigns, license data, confirmation status) that consume
//! parsed records.

use vstd::prelude::*;

pub mod adi;
pub mod adif;
pub mod ascii;
pub mod band;
pub mod call;
pub mod datetime;
pub mod fcc;
pub mod grid;
pub mod log;
pub mod lotw;

pub use band::Band;
pub use call::Call;
pub use grid::Grid;
pub use log::LogEntry;

use crate::ascii::spec_upper;
use crate::ascii::str_eq;
use crate::ascii::upper_string;

verus! {

/// An operating mode, recognized from its ADIF name; unrecognized names are
/// carried through verbatim in `Other`.
#[derive(Debug, Clone, PartialEq)]
pub enum Mode {
    DigiU,
    DigiL,
    USB,
    LSB,
    FT8,
    FT4,
    JT9,
    JT65,
    AM,
    FM,
    NFM,
    WSPR,
    PSK,
    Multipsk,
    Sig,
    Hell,
    CW,
    Other(String),
}

/// Whether an (uppercased) name is one of the recognized modes.
pub open spec fn spec_mode_known(u: Seq<char>) -> bool {
    ||| u == "FT8"@
    ||| u == "DIGIU"@
    ||| u == "DIGIL"@
    ||| u == "USB"@
    ||| u == "LSB"@
    ||| u == "FT4"@
    ||| u == "JT9"@
    ||| u == "JT65"@
    ||| u == "AM"@
    ||| u == "FM"@
    ||| u == "NFM"@
    ||| u == "WSPR"@
    ||| u == "PSK"@
    ||| u == "MULTIPSK"@
    ||| u == "SIG"@
    ||| u == "HELL"@
    ||| u == "CW"@
}

/// The mode a recognized (uppercased) name denotes.
pub open spec fn spec_mode_for(u: Seq<char>) -> Mode {
    if u == "FT8"@ {
        Mode::FT8
    } else if u == "DIGIU"@ {
        Mode::DigiU
    } else if u == "DIGIL"@ {
        Mode::DigiL
    } else if u == "USB"@ {
        Mode::USB
    } else if u == "LSB"@ {
        Mode::LSB
    } else if u == "FT4"@ {
        Mode::FT4
    } else if u == "JT9"@ {
        Mode::JT9
    } else if u == "JT65"@ {
        Mode::JT65
    } else if u == "AM"@ {
        Mode::AM
    } else if u == "FM"@ {
        Mode::FM
    } else if u == "NFM"@ {
        Mode::NFM
    } else if u == "WSPR"@ {
        Mode::WSPR
    } else if u == "PSK"@ {
        Mode::PSK
    } else if u == "MULTIPSK"@ {
        Mode::Multipsk
    } else if u == "SIG"@ {
        Mode::Sig
    } else if u == "HELL"@ {
        Mode::Hell
    } else {
        Mode::CW
    }
}

/// The ADIF rendering of a mode; `Other` renders its carried name.
pub open spec fn spec_mode_text(m: Mode) -> Seq<char> {
    match m {
        Mode::DigiU => "DigiU"@,
        Mode::DigiL => "DigiL"@,
        Mode::USB => "USB"@,
        Mode::LSB => "LSB"@,
        Mode::FT8 => "FT8"@,
        Mode::FT4 => "FT4"@,
        Mode::JT9 => "JT9"@,
        Mode::JT65 => "JT65"@,
        Mode::AM => "AM"@,
        Mode::FM => "FM"@,
        Mode::NFM => "NFM"@,
        Mode::WSPR => "WSPR"@,
        Mode::PSK => "PSK"@,
        Mode::Multipsk => "Multipsk"@,
        Mode::Sig => "Sig"@,
        Mode::Hell => "Hell"@,
        Mode::CW => "CW"@,
        Mode::Other(s) => s@,
    }
}

impl Mode {
    /// Recognizes a mode name, matching its ASCII-uppercased form; an
    /// unrecognized name is kept, in its original case, in `Other`.
    pub fn new(mode: String) -> (r: Mode)
        ensures
            spec_mode_known(spec_upper(mode@)) ==> r == spec_mode_for(spec_upper(mode@)),
            !spec_mode_known(spec_upper(mode@)) ==> (r matches Mode::Other(m) && m@ == mode@),
    {
        let upper = upper_string(mode.as_str());
        let u = upper.as_str();
        if str_eq(u, "FT8") {
            Mode::FT8
        } else if str_eq(u, "DIGIU") {
            Mode::DigiU
        } else if str_eq(u, "DIGIL") {
            Mode::DigiL
        } else if str_eq(u, "USB") {
            Mode::USB
        } else if str_eq(u, "LSB") {
            Mode::LSB
        } else if str_eq(u, "FT4") {
            Mode::FT4
        } else if str_eq(u, "JT9") {
            Mode::JT9
        } else if str_eq(u, "JT65") {
            Mode::JT65
        } else if str_eq(u, "AM") {
            Mode::AM
        } else if str_eq(u, "FM") {
            Mode::FM
        } else if str_eq(u, "NFM") {
            Mode::NFM
        } else if str_eq(u, "WSPR") {
            Mode::WSPR
        } else if str_eq(u, "PSK") {
            Mode::PSK
        } else if str_eq(u, "MULTIPSK") {
            Mode::Multipsk
        } else if str_eq(u, "SIG") {
            Mode::Sig
        } else if str_eq(u, "HELL") {
            Mode::Hell
        } else if str_eq(u, "CW") {
            Mode::CW
        } else {
            Mode::Other(mode)
        }
    }

    /// The mode's ADIF name.
    pub fn mode(&self) -> (r: String)
        ensures
            r@ == spec_mode_text(*self),
    {
        match self {
            Mode::DigiU => String::from_str("DigiU"),
            Mode::DigiL => String::from_str("DigiL"),
            Mode::USB => String::from_str("USB"),
            Mode::LSB => String::from_str("LSB"),
            Mode::FT8 => String::from_str("FT8"),
            Mode::FT4 => String::from_str("FT4"),
            Mode::JT9 => String::from_str("JT9"),
            Mode::JT65 => String::from_str("JT65"),
            Mode::AM => String::from_str("AM"),
            Mode::FM => String::from_str("FM"),
            Mode::NFM => String::from_str("NFM"),
            Mode::WSPR => String::from_str("WSPR"),
            Mode::PSK => String::from_str("PSK"),
            Mode::Multipsk => String::from_str("Multipsk"),
            Mode::Sig => String::from_str("Sig"),
            Mode::Hell => String::from_str("Hell"),
            Mode::CW => String::from_str("CW"),
            Mode::Other(other) => other.clone(),
        }
    }
}

} // verus!
