//! A callsign record: the station's call and the optional operator, address,
//! location and confirmation-service details attached to it.

use vstd::prelude::*;

use crate::ascii::is_ascii_digit;
use crate::ascii::push_char;
use crate::ascii::spec_upper;
use crate::ascii::to_char_vec;
use crate::ascii::upper_string;
use crate::datetime::UtcDateTime;
use crate::grid::Grid;
use crate::lotw::LoTWStatus;

verus! {

/// The mathematical image of a callsign record.
pub ghost struct CallView {
    pub call: Seq<char>,
    pub op: Option<Seq<char>>,
    pub address: Option<Seq<char>>,
    pub qth: Option<Seq<char>>,
    pub state: Option<Seq<char>>,
    pub grid: Option<Seq<char>>,
    pub lotw: LoTWStatus,
}

/// The view of an optional string.
pub open spec fn opt_str_view(o: Option<String>) -> Option<Seq<char>> {
    match o {
        Some(s) => Some(s@),
        None => None,
    }
}

/// The view of an optional locator.
pub open spec fn opt_grid_view(o: Option<Grid>) -> Option<Seq<char>> {
    match o {
        Some(g) => Some(g@),
        None => None,
    }
}

/// How a confirmation status is stored: a registered/unregistered flag and
/// an optional last-upload instant.
pub open spec fn spec_status_of(lotw: Option<bool>, last: Option<UtcDateTime>) -> LoTWStatus {
    match (lotw, last) {
        (Some(true), Some(t)) => LoTWStatus::LastUpload(t),
        (Some(true), None) => LoTWStatus::Registered,
        (Some(false), None) => LoTWStatus::Unregistered,
        _ => LoTWStatus::Unknown,
    }
}

/// A callsign record.  The call itself is stored uppercased; every other
/// field is optional.
#[derive(Debug, PartialEq)]
pub struct Call {
    call: String,
    op: Option<String>,
    address: Option<String>,
    qth: Option<String>,
    state: Option<String>,
    grid: Option<Grid>,
    lotw: Option<bool>,
    last_lotw_upload: Option<UtcDateTime>,
}

impl View for Call {
    type V = CallView;

    closed spec fn view(&self) -> CallView {
        CallView {
            call: self.call@,
            op: opt_str_view(self.op),
            address: opt_str_view(self.address),
            qth: opt_str_view(self.qth),
            state: opt_str_view(self.state),
            grid: opt_grid_view(self.grid),
            lotw: spec_status_of(self.lotw, self.last_lotw_upload),
        }
    }
}

impl Clone for Call {
    /// Cloning keeps every field.
    fn clone(&self) -> (r: Self)
        ensures
            r@ == self@,
    {
        Call {
            call: self.call.clone(),
            op: self.op.clone(),
            address: self.address.clone(),
            qth: self.qth.clone(),
            state: self.state.clone(),
            grid: self.grid.clone(),
            lotw: self.lotw,
            last_lotw_upload: self.last_lotw_upload,
        }
    }
}

/// Index of the first decimal digit at or after `from`, if any.
pub open spec fn find_digit(s: Seq<char>, from: int) -> Option<int>
    decreases s.len() - from,
{
    if from >= s.len() {
        None
    } else if from < 0 {
        None
    } else if is_ascii_digit(s[from]) {
        Some(from)
    } else {
        find_digit(s, from + 1)
    }
}

impl Call {
    /// A record holding only the (uppercased) call.
    pub fn new(call: String) -> (r: Call)
        ensures
            r@.call == spec_upper(call@),
            r@.op is None,
            r@.address is None,
            r@.qth is None,
            r@.state is None,
            r@.grid is None,
            r@.lotw == LoTWStatus::Unknown,
    {
        Call {
            call: upper_string(call.as_str()),
            op: None,
            address: None,
            qth: None,
            state: None,
            grid: None,
            lotw: None,
            last_lotw_upload: None,
        }
    }

    /// A record with every field supplied at once; the call is uppercased
    /// and the confirmation status stored exactly as given.
    pub fn full(
        call: String,
        op: Option<String>,
        address: Option<String>,
        qth: Option<String>,
        state: Option<String>,
        grid: Option<Grid>,
        lotw: LoTWStatus,
    ) -> (r: Call)
        ensures
            r@.call == spec_upper(call@),
            r@.op == opt_str_view(op),
            r@.address == opt_str_view(address),
            r@.qth == opt_str_view(qth),
            r@.state == opt_str_view(state),
            r@.grid == opt_grid_view(grid),
            r@.lotw == lotw,
    {
        let (lotw_flag, last_lotw_upload) = match lotw {
            LoTWStatus::Registered => (Some(true), None),
            LoTWStatus::Unregistered => (Some(false), None),
            LoTWStatus::LastUpload(last) => (Some(true), Some(last)),
            LoTWStatus::Unknown => (None, None),
        };
        Call {
            call: upper_string(call.as_str()),
            op,
            address,
            qth,
            state,
            grid,
            lotw: lotw_flag,
            last_lotw_upload,
        }
    }

    /// The call up to and including its first digit — the prefix that names
    /// the issuing region — or `None` for a call with no digit.
    pub fn prefix(&self) -> (r: Option<String>)
        ensures
            match r {
                None => find_digit(self@.call, 0) is None,
                Some(p) => find_digit(self@.call, 0) matches Some(i) && p@ == self@.call.subrange(
                    0,
                    i + 1,
                ),
            },
    {
        let chars = to_char_vec(self.call.as_str());
        let mut s = String::new();
        let mut i: usize = 0;
        while i < chars.len()
            invariant
                i <= chars@.len(),
                chars@ == self@.call,
                s@ == self@.call.subrange(0, i as int),
                find_digit(self@.call, 0) == find_digit(self@.call, i as int),
            decreases chars@.len() - i,
        {
            let c = chars[i];
            push_char(&mut s, c);
            proof {
                assert(s@ =~= self@.call.subrange(0, i + 1 as int));
            }
            if '0' <= c && c <= '9' {
                return Some(s);
            }
            i = i + 1;
        }
        None
    }

    /// The stored (uppercased) call.
    pub fn call(&self) -> (r: String)
        ensures
            r@ == self@.call,
    {
        self.call.clone()
    }

    /// The operator's name, if known.
    pub fn op(&self) -> (r: Option<String>)
        ensures
            opt_str_view(r) == self@.op,
    {
        self.op.clone()
    }

    pub fn set_op(&mut self, op: Option<String>)
        ensures
            final(self)@ == (CallView { op: opt_str_view(op), ..old(self)@ }),
    {
        self.op = op;
    }

    /// The operator's city, if known.
    pub fn qth(&self) -> (r: Option<String>)
        ensures
            opt_str_view(r) == self@.qth,
    {
        self.qth.clone()
    }

    pub fn set_qth(&mut self, qth: Option<String>)
        ensures
            final(self)@ == (CallView { qth: opt_str_view(qth), ..old(self)@ }),
    {
        self.qth = qth;
    }

    /// The operator's state or province, if known.
    pub fn state(&self) -> (r: Option<String>)
        ensures
            opt_str_view(r) == self@.state,
    {
        self.state.clone()
    }

    pub fn set_state(&mut self, state: Option<String>)
        ensures
            final(self)@ == (CallView { state: opt_str_view(state), ..old(self)@ }),
    {
        self.state = state;
    }

    /// The station's grid locator, if known.
    pub fn grid(&self) -> (r: &Option<Grid>)
        ensures
            opt_grid_view(*r) == self@.grid,
    {
        &self.grid
    }

    pub fn set_grid(&mut self, grid: Option<Grid>)
        ensures
            final(self)@ == (CallView { grid: opt_grid_view(grid), ..old(self)@ }),
    {
        self.grid = grid;
    }

    /// The operator's mailing address, if known.
    pub fn address(&self) -> (r: Option<String>)
        ensures
            opt_str_view(r) == self@.address,
    {
        self.address.clone()
    }

    pub fn set_address(&mut self, address: Option<String>)
        ensures
            final(self)@ == (CallView { address: opt_str_view(address), ..old(self)@ }),
    {
        self.address = address;
    }

    /// The confirmation-service status this record carries.
    pub fn lotw(&self) -> (r: LoTWStatus)
        ensures
            r == self@.lotw,
    {
        match (self.lotw, self.last_lotw_upload) {
            (Some(true), Some(last)) => LoTWStatus::LastUpload(last),
            (Some(true), None) => LoTWStatus::Registered,
            (Some(false), None) => LoTWStatus::Unregistered,
            _ => LoTWStatus::Unknown,
        }
    }

    pub fn set_lotw(&mut self, lotw: LoTWStatus)
        ensures
            final(self)@ == (CallView { lotw: lotw, ..old(self)@ }),
    {
        let (lotw_flag, last_lotw_upload) = match lotw {
            LoTWStatus::Registered => (Some(true), None),
            LoTWStatus::Unregistered => (Some(false), None),
            LoTWStatus::LastUpload(last) => (Some(true), Some(last)),
            LoTWStatus::Unknown => (None, None),
        };
        self.lotw = lotw_flag;
        self.last_lotw_upload = last_lotw_upload;
    }
}

} // verus!
