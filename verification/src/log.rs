//! Log entries: one parsed record mapped into the domain — who contacted
//! whom, when, on what frequency and in what mode.

use vstd::prelude::*;

use crate::adi::all_digits;
use crate::adi::digits_value;
use crate::adi::find_char;
use crate::adi::find_char_at;
use crate::adi::parse_len;
use crate::adif::AdifRecord;
use crate::adif::CallsignInfo;
use crate::adif::RecModel;
use crate::adif::spec_call_outcome;
use crate::adif::spec_get;
use crate::ascii::spec_lower;
use crate::ascii::str_eq;
use crate::ascii::to_char_vec;
use crate::ascii::copy_range;
use crate::band::Band;
use crate::band::spec_band_of;
use crate::call::Call;
use crate::call::CallView;
use crate::call::opt_str_view;
use crate::datetime::UtcDateTime;
use crate::datetime::days_in_month;
use crate::datetime::spec_valid_datetime;
use crate::grid::GridError;
use crate::Mode;
use crate::spec_mode_for;
use crate::spec_mode_known;
use crate::ascii::spec_upper;

verus! {

/// Why a record could not be mapped into a log entry: a required field is
/// missing or unreadable, or a present locator is malformed.
#[derive(Debug, Clone, Copy, PartialEq, Eq, Structural)]
pub enum ImportError {
    MissingCall,
    MissingMyCall,
    MissingFrequency,
    MissingMode,
    MissingDateTime,
    InvalidGrid(GridError),
}

/// One logged contact.
#[derive(Debug, Clone, PartialEq)]
pub struct LogEntry {
    pub id: u128,
    pub from_id: Call,
    pub date: UtcDateTime,
    pub call: Call,
    pub frequency: Band,
    pub mode: Mode,
    pub comment: Option<String>,
    pub rst_sent: Option<String>,
    pub rst_received: Option<String>,
    pub lotw_qsl_sent: bool,
    pub lotw_qsl_rcvd: bool,
}

/// Relies on `uuid::Uuid::new_v4` (a fresh version-4 UUID drawn from the
/// operating system's randomness) and `uuid::Uuid::as_u128` (its value with
/// the bytes in big-endian order): whatever was drawn, the version nibble of
/// the result is 4 and the variant bits are binary 10.
#[verifier::external_body]
fn fresh_entry_id() -> (r: u128)
    ensures
        (r >> 76) & 0xf == 4,
        (r >> 62) & 0x3 == 2,
{
    uuid::Uuid::new_v4().as_u128()
}

/// The instant a record's `qso_date` (YYYYMMDD) and `time_on` (HHMM) fields
/// denote, when both are present, all digits, and a calendar-valid moment.
pub open spec fn spec_qso_date(rec: RecModel) -> Option<UtcDateTime> {
    match (spec_get(rec, spec_lower("qso_date"@)), spec_get(rec, spec_lower("time_on"@))) {
        (Some(d), Some(t)) => if d.len() == 8 && t.len() == 4 && all_digits(d) && all_digits(t) {
            let dt = UtcDateTime {
                year: digits_value(d.subrange(0, 4)) as i32,
                month: digits_value(d.subrange(4, 6)) as u8,
                day: digits_value(d.subrange(6, 8)) as u8,
                hour: digits_value(t.subrange(0, 2)) as u8,
                minute: digits_value(t.subrange(2, 4)) as u8,
                second: 0,
            };
            if spec_valid_datetime(dt) {
                Some(dt)
            } else {
                None
            }
        } else {
            None
        },
        _ => None,
    }
}

/// Reads the contact instant from `qso_date` and `time_on`.  A date that is
/// not a real calendar moment (a thirteenth month, a thirtieth of February)
/// is treated as unreadable and yields `None` rather than a panic.
pub fn qso_date(record: &AdifRecord) -> (r: Option<UtcDateTime>)
    ensures
        r == spec_qso_date(record@),
{
    let d = match record.adir_field_values.get("qso_date") {
        None => {
            return None;
        },
        Some(d) => d,
    };
    let t = match record.adir_field_values.get("time_on") {
        None => {
            return None;
        },
        Some(t) => t,
    };
    let dc = to_char_vec(d.as_str());
    let tc = to_char_vec(t.as_str());
    if dc.len() != 8 || tc.len() != 4 {
        return None;
    }
    if !check_digits(&dc) || !check_digits(&tc) {
        return None;
    }
    let year = parse_seg(&dc, 0, 4);
    let month = parse_seg(&dc, 4, 6);
    let day = parse_seg(&dc, 6, 8);
    let hour = parse_seg(&tc, 0, 2);
    let minute = parse_seg(&tc, 2, 4);
    let dt = UtcDateTime {
        year: year as i32,
        month: month as u8,
        day: day as u8,
        hour: hour as u8,
        minute: minute as u8,
        second: 0,
    };
    if !(1 <= dt.month && dt.month <= 12) {
        return None;
    }
    if !(1 <= dt.day && dt.day <= days_in_month(dt.year, dt.month)) {
        return None;
    }
    if !(dt.hour <= 23 && dt.minute <= 59) {
        return None;
    }
    Some(dt)
}

/// Reads the value of a short all-digit segment.
fn parse_seg(v: &Vec<char>, lo: usize, hi: usize) -> (r: usize)
    requires
        lo <= hi <= v@.len(),
        hi - lo <= 4,
        all_digits(v@),
    ensures
        r == digits_value(v@.subrange(lo as int, hi as int)),
        r <= 9999,
{
    let seg = copy_range(v, lo, hi);
    proof {
        assert forall|i: int| 0 <= i < seg@.len() implies crate::ascii::is_ascii_digit(
            #[trigger] seg@[i],
        ) by {
            assert(seg@[i] == v@[lo + i]);
        }
        lemma_digits_small(seg@);
        crate::adi::lemma_digits_value_nonneg(seg@);
        assert(pow10(0) == 1);
        assert(pow10(1) == 10);
        assert(pow10(2) == 100);
        assert(pow10(3) == 1000);
        assert(pow10(4) == 10000);
    }
    match parse_len(&seg, 9999) {
        None => {
            proof {
                assert(false);
            }
            0
        },
        Some(x) => x,
    }
}

/// Ten to a small power.
pub open spec fn pow10(k: int) -> int
    decreases k,
{
    if k <= 0 {
        1
    } else {
        10 * pow10(k - 1)
    }
}

/// The hertz value of a fraction field: its first six digits, padded with
/// zeros on the right to six places.
pub open spec fn frac_units(f: Seq<char>) -> int {
    if f.len() >= 6 {
        digits_value(f.subrange(0, 6))
    } else {
        digits_value(f) * pow10(6 - f.len())
    }
}

/// The exact hertz value a plain decimal megahertz string denotes: an
/// optional sign, digits, and at most one point; fractional digits beyond
/// the hertz (sixth) place are truncated.  `None` for anything else.
pub open spec fn spec_parse_mhz_hz(s: Seq<char>) -> Option<int> {
    let neg = s.len() > 0 && s[0] == '-';
    let signed = s.len() > 0 && (s[0] == '-' || s[0] == '+');
    let body = if signed {
        s.drop_first()
    } else {
        s
    };
    let mag = match find_char(body, 0, '.') {
        None => if body.len() > 0 && all_digits(body) {
            Some(digits_value(body) * 1000000)
        } else {
            None
        },
        Some(p) => {
            let ip = body.subrange(0, p);
            let fp = body.subrange(p + 1, body.len() as int);
            if ip.len() + fp.len() > 0 && all_digits(ip) && all_digits(fp) {
                Some(digits_value(ip) * 1000000 + frac_units(fp))
            } else {
                None
            }
        },
    };
    match mag {
        None => None,
        Some(m) => Some(
            if neg {
                -m
            } else {
                m
            },
        ),
    }
}

/// A hertz value clamped to the 32-bit range, as frequency classification
/// stores it.
pub open spec fn clamp_hz(hz: int) -> int {
    if hz > 2147483647 {
        2147483647
    } else if hz < -2147483648 {
        -2147483648
    } else {
        hz
    }
}

/// The band a record's `freq` field (in megahertz) falls in, when the field
/// is present and readable.
pub open spec fn spec_qso_freq(rec: RecModel) -> Option<Band> {
    match spec_get(rec, spec_lower("freq"@)) {
        None => None,
        Some(f) => match spec_parse_mhz_hz(f) {
            None => None,
            Some(hz) => Some(spec_band_of(clamp_hz(hz) as i32)),
        },
    }
}

/// Whether every character of a vector is a decimal digit.
fn check_digits(v: &Vec<char>) -> (r: bool)
    ensures
        r == all_digits(v@),
{
    let mut i: usize = 0;
    while i < v.len()
        invariant
            i <= v@.len(),
            forall|k: int| 0 <= k < i ==> crate::ascii::is_ascii_digit(#[trigger] v@[k]),
        decreases v@.len() - i,
    {
        let c = v[i];
        if !('0' <= c && c <= '9') {
            return false;
        }
        i = i + 1;
    }
    true
}

/// Reads the `freq` field (plain decimal megahertz) and classifies it.
/// Parsing is exact decimal arithmetic: the value is scaled to hertz,
/// fractional hertz truncated, and clamped to the 32-bit range.
pub fn qso_freq(record: &AdifRecord) -> (r: Option<Band>)
    ensures
        r == spec_qso_freq(record@),
{
    let f = match record.adir_field_values.get("freq") {
        None => {
            return None;
        },
        Some(f) => f,
    };
    let s = to_char_vec(f.as_str());
    let signed = s.len() > 0 && (s[0] == '-' || s[0] == '+');
    let neg = s.len() > 0 && s[0] == '-';
    let body = if signed {
        copy_range(&s, 1, s.len())
    } else {
        copy_range(&s, 0, s.len())
    };
    proof {
        if !signed {
            assert(body@ =~= s@);
        } else {
            assert(body@ =~= s@.drop_first());
        }
    }
    proof {
        crate::adi::lemma_find_char(body@, 0, '.');
    }
    let mag: i64 = match find_char_at(&body, 0, '.') {
        None => {
            if body.len() == 0 || !check_digits(&body) {
                return None;
            }
            match parse_len(&body, 2147) {
                None => {
                    proof {
                        crate::adi::lemma_digits_value_nonneg(body@);
                    }
                    2148 * 1000000
                },
                Some(iv) => (iv as i64) * 1000000,
            }
        },
        Some(p) => {
            let ip = copy_range(&body, 0, p);
            let fp = copy_range(&body, p + 1, body.len());
            if ip.len() + fp.len() == 0 || !check_digits(&ip) || !check_digits(&fp) {
                return None;
            }
            proof {
                assert(pow10(0) == 1);
                assert(pow10(1) == 10);
                assert(pow10(2) == 100);
                assert(pow10(3) == 1000);
                assert(pow10(4) == 10000);
                assert(pow10(5) == 100000);
                assert(pow10(6) == 1000000);
            }
            let fv: i64 = if fp.len() >= 6 {
                let fp6 = copy_range(&fp, 0, 6);
                proof {
                    assert forall|i: int| 0 <= i < fp6@.len() implies crate::ascii::is_ascii_digit(
                        #[trigger] fp6@[i],
                    ) by {
                        assert(fp6@[i] == fp@[i]);
                    }
                    lemma_digits_small(fp6@);
                    crate::adi::lemma_digits_value_nonneg(fp6@);
                }
                let x = match parse_len(&fp6, 999999) {
                    None => {
                        proof {
                            assert(false);
                        }
                        0
                    },
                    Some(x) => x,
                };
                x as i64
            } else {
                proof {
                    crate::adi::lemma_digits_value_nonneg(fp@);
                    lemma_digits_small(fp@);
                }
                let x = match parse_len(&fp, 999999) {
                    None => {
                        proof {
                            assert(false);
                        }
                        0
                    },
                    Some(x) => x,
                };
                match fp.len() {
                    0 => 0,
                    1 => (x as i64) * 100000,
                    2 => (x as i64) * 10000,
                    3 => (x as i64) * 1000,
                    4 => (x as i64) * 100,
                    _ => (x as i64) * 10,
                }
            };
            proof {
                assert(0 <= fv < 1000000);
                assert(fv == frac_units(fp@));
            }
            match parse_len(&ip, 2147) {
                None => {
                    proof {
                        crate::adi::lemma_digits_value_nonneg(ip@);
                    }
                    2148 * 1000000
                },
                Some(iv) => (iv as i64) * 1000000 + fv,
            }
        },
    };
    let hz: i32 = if neg {
        if mag >= 2147483648i64 {
            i32::MIN
        } else {
            (0i64 - mag) as i32
        }
    } else {
        if mag > 2147483647i64 {
            i32::MAX
        } else {
            mag as i32
        }
    };
    Some(Band::new(hz))
}

/// The contacted station's fields, as `call_from_adif_record` reads them.
pub open spec fn spec_their_call(rec: RecModel) -> Result<Option<CallView>, GridError> {
    spec_call_outcome(
        rec,
        spec_lower("call"@),
        spec_lower("name"@),
        spec_lower("state"@),
        spec_lower("gridsquare"@),
        spec_lower("qth"@),
        spec_lower("lotw_qsl_rcvd"@),
    )
}

/// The logging station's fields, as `my_call_from_adif_record` reads them.
pub open spec fn spec_my_call(rec: RecModel) -> Result<Option<CallView>, GridError> {
    spec_call_outcome(
        rec,
        spec_lower("station_callsign"@),
        spec_lower("my_name"@),
        spec_lower("my_state"@),
        spec_lower("my_gridsquare"@),
        spec_lower("my_city"@),
        spec_lower("lotw_qsl_sent"@),
    )
}

impl LogEntry {
    /// Maps one logical record into a log entry.  The contacted station's
    /// fields are read first, then the logging station's; a malformed
    /// locator in either surfaces as `InvalidGrid`.  After that, a missing
    /// contacted call, logging call, readable frequency, readable date or
    /// mode field yields the corresponding error, in that order.  On
    /// success every part of the entry is pinned to the record's fields;
    /// the entry's identifier is freshly drawn.
    pub fn from_adif_record(record: &AdifRecord) -> (r: Result<LogEntry, ImportError>)
        ensures
            spec_their_call(record@) matches Err(e) ==> r == Err::<LogEntry, ImportError>(
                ImportError::InvalidGrid(e),
            ),
            spec_their_call(record@) is Ok && spec_my_call(record@) is Err ==> r == Err::<
                LogEntry,
                ImportError,
            >(ImportError::InvalidGrid(spec_my_call(record@)->Err_0)),
            spec_their_call(record@) == Ok::<Option<CallView>, GridError>(None) && spec_my_call(
                record@,
            ) is Ok ==> r == Err::<LogEntry, ImportError>(ImportError::MissingCall),
            (spec_their_call(record@) matches Ok(Some(_))) && spec_my_call(record@) == Ok::<
                Option<CallView>,
                GridError,
            >(None) ==> r == Err::<LogEntry, ImportError>(ImportError::MissingMyCall),
            (spec_their_call(record@) matches Ok(Some(_))) && (spec_my_call(record@) matches Ok(
                Some(_),
            )) ==> {
                if spec_qso_freq(record@) is None {
                    r == Err::<LogEntry, ImportError>(ImportError::MissingFrequency)
                } else if spec_qso_date(record@) is None {
                    r == Err::<LogEntry, ImportError>(ImportError::MissingDateTime)
                } else if spec_get(record@, spec_lower("mode"@)) is None {
                    r == Err::<LogEntry, ImportError>(ImportError::MissingMode)
                } else {
                    r matches Ok(e) && {
                        &&& Some(e.call@) == spec_their_call(record@)->Ok_0
                        &&& Some(e.from_id@) == spec_my_call(record@)->Ok_0
                        &&& Some(e.frequency) == spec_qso_freq(record@)
                        &&& Some(e.date) == spec_qso_date(record@)
                        &&& {
                            let mv = spec_get(record@, spec_lower("mode"@))->Some_0;
                            if spec_mode_known(spec_upper(mv)) {
                                e.mode == spec_mode_for(spec_upper(mv))
                            } else {
                                e.mode matches Mode::Other(m) && m@ == mv
                            }
                        }
                        &&& opt_str_view(e.comment) == spec_get(record@, spec_lower("comment"@))
                        &&& e.rst_sent is None
                        &&& e.rst_received is None
                        &&& e.lotw_qsl_sent == (spec_get(record@, spec_lower("lotw_qsl_sent"@))
                            == Some("Y"@))
                        &&& e.lotw_qsl_rcvd == (spec_get(record@, spec_lower("lotw_qsl_rcvd"@))
                            == Some("Y"@))
                        &&& (e.id >> 76) & 0xf == 4
                    }
                }
            },
    {
        let their = match Call::call_from_adif_record(record) {
            Ok(c) => c,
            Err(e) => {
                return Err(ImportError::InvalidGrid(e));
            },
        };
        let mine = match Call::my_call_from_adif_record(record) {
            Ok(c) => c,
            Err(e) => {
                return Err(ImportError::InvalidGrid(e));
            },
        };
        let call = match their {
            Some(c) => c,
            None => {
                return Err(ImportError::MissingCall);
            },
        };
        let from_id = match mine {
            Some(c) => c,
            None => {
                return Err(ImportError::MissingMyCall);
            },
        };
        let frequency = match qso_freq(record) {
            Some(f) => f,
            None => {
                return Err(ImportError::MissingFrequency);
            },
        };
        let date = match qso_date(record) {
            Some(d) => d,
            None => {
                return Err(ImportError::MissingDateTime);
            },
        };
        let mode_value = match record.adir_field_values.get("mode") {
            Some(m) => m.clone(),
            None => {
                return Err(ImportError::MissingMode);
            },
        };
        let comment = match record.adir_field_values.get("comment") {
            Some(c) => Some(c.clone()),
            None => None,
        };
        let lotw_qsl_sent = match record.adir_field_values.get("lotw_qsl_sent") {
            Some(x) => str_eq(x.as_str(), "Y"),
            None => false,
        };
        let lotw_qsl_rcvd = match record.adir_field_values.get("lotw_qsl_rcvd") {
            Some(x) => str_eq(x.as_str(), "Y"),
            None => false,
        };
        Ok(
            LogEntry {
                id: fresh_entry_id(),
                from_id,
                date,
                call,
                frequency,
                mode: Mode::new(mode_value),
                comment,
                rst_sent: None,
                rst_received: None,
                lotw_qsl_sent,
                lotw_qsl_rcvd,
            },
        )
    }
}

/// A digit string's value is bounded by ten to its length.
proof fn lemma_digits_small(s: Seq<char>)
    requires
        all_digits(s),
    ensures
        digits_value(s) < pow10(s.len() as int),
    decreases s.len(),
{
    if s.len() > 0 {
        assert(all_digits(s.drop_last()));
        lemma_digits_small(s.drop_last());
    }
}

} // verus!
