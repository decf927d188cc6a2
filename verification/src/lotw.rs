//! Confirmation-service data: a station's registration status and the
//! certificate metadata the service hands out.

use vstd::prelude::*;

use crate::call::Call;
use crate::call::CallView;
use crate::datetime::UtcDateTime;

verus! {

/// A station's status with the online confirmation service: registered
/// (optionally with the instant of its last upload), known unregistered, or
/// unknown.
#[derive(Debug, Clone, Copy, PartialEq, Eq, Structural)]
pub enum LoTWStatus {
    Registered,
    Unregistered,
    LastUpload(UtcDateTime),
    Unknown,
}

/// One metadata item of a client certificate, as parsed from the service's
/// key-value output.
#[derive(Debug, Clone, PartialEq)]
pub enum CertificateMeta {
    Callsign(String),
    Name(String),
    Email(String),
    UnknownKeyValue(String, String),
    Unknown(String),
}

/// A client certificate: the call it certifies plus optional holder name
/// and email.
#[derive(Debug, Clone, PartialEq)]
pub struct LotwCertificate {
    call: Call,
    name: Option<String>,
    email: Option<String>,
}

/// The view of an optional string.
pub open spec fn opt_view(o: Option<String>) -> Option<Seq<char>> {
    match o {
        Some(s) => Some(s@),
        None => None,
    }
}

impl LotwCertificate {
    /// A certificate for a call, with no holder details yet.
    pub fn from_call(call: &Call) -> (r: LotwCertificate)
        ensures
            r.spec_call() == call@,
            r.spec_name() is None,
            r.spec_email() is None,
    {
        LotwCertificate { call: call.clone(), name: None, email: None }
    }

    /// The same certificate with the holder's name set.
    pub fn with_name(&self, name: String) -> (r: LotwCertificate)
        ensures
            r.spec_call() == self.spec_call(),
            r.spec_name() == Some(name@),
            r.spec_email() == self.spec_email(),
    {
        LotwCertificate { call: self.call.clone(), name: Some(name), email: self.email.clone() }
    }

    /// The same certificate with the holder's email set.
    pub fn with_email(&self, email: String) -> (r: LotwCertificate)
        ensures
            r.spec_call() == self.spec_call(),
            r.spec_name() == self.spec_name(),
            r.spec_email() == Some(email@),
    {
        LotwCertificate { call: self.call.clone(), name: self.name.clone(), email: Some(email) }
    }

    /// The certified call record.
    pub fn call(&self) -> (r: Call)
        ensures
            r@ == self.spec_call(),
    {
        self.call.clone()
    }

    /// The holder's name, if present.
    pub fn name(&self) -> (r: Option<String>)
        ensures
            opt_view(r) == self.spec_name(),
    {
        self.name.clone()
    }

    /// The holder's email, if present.
    pub fn email(&self) -> (r: Option<String>)
        ensures
            opt_view(r) == self.spec_email(),
    {
        self.email.clone()
    }

    pub closed spec fn spec_call(&self) -> CallView {
        self.call@
    }

    pub closed spec fn spec_name(&self) -> Option<Seq<char>> {
        opt_view(self.name)
    }

    pub closed spec fn spec_email(&self) -> Option<Seq<char>> {
        opt_view(self.email)
    }
}

/// Who the library is acting as: anonymous, or the holder of a client
/// certificate.
#[derive(Debug, Clone, PartialEq)]
pub enum Identity {
    Unknown,
    ClientCertificate(LotwCertificate),
}

impl Identity {
    /// The call of the certificate holder, when one is present.
    pub fn call(&self) -> (r: Option<Call>)
        ensures
            match self {
                Identity::Unknown => r is None,
                Identity::ClientCertificate(cert) => r matches Some(c) && c@ == cert.spec_call(),
            },
    {
        match self {
            Identity::Unknown => None,
            Identity::ClientCertificate(cert) => Some(cert.call()),
        }
    }
}

} // verus!
