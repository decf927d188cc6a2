//! License-database records: the operator classes, the per-call license
//! data the library accumulates, and the raw entity/amateur/application
//! records as the licensing authority publishes them.

use vstd::prelude::*;

use crate::call::Call;
use crate::lotw::LoTWStatus;

verus! {

/// An amateur operator class.
#[derive(Debug, Clone, Copy, PartialEq, Eq, Structural)]
pub enum OperatorClass {
    Tech,
    General,
    Extra,
    Novice,
    TechPlus,
    Advanced,
}

/// License data accumulated for one call.
#[derive(Debug, Clone, PartialEq)]
pub struct FccData {
    pub class: Option<OperatorClass>,
    pub previous_class: Option<OperatorClass>,
    pub previous_call: Option<String>,
    pub status: Option<char>,
    pub radio_service_code: Option<String>,
    pub grant_date: Option<String>,
    pub expiration_date: Option<String>,
    pub cancellation_date: Option<String>,
}

impl FccData {
    /// License data with nothing known yet.
    pub fn default() -> (r: FccData)
        ensures
            r.class is None,
            r.previous_class is None,
            r.previous_call is None,
            r.status is None,
            r.radio_service_code is None,
            r.grant_date is None,
            r.expiration_date is None,
            r.cancellation_date is None,
    {
        FccData {
            class: None,
            previous_class: None,
            previous_call: None,
            status: None,
            radio_service_code: None,
            grant_date: None,
            expiration_date: None,
            cancellation_date: None,
        }
    }
}

/// A raw licensee entity record, field for field as published.
#[allow(non_snake_case)]
#[derive(Debug)]
pub struct Entity {
    pub RecordType: String,
    pub USI: u64,
    pub ULS: Option<String>,
    pub EFB: Option<String>,
    pub CallSign: String,
    pub EntityType: String,
    pub LicenceID: String,
    pub FullName: String,
    pub FirstName: String,
    pub MiddleInitial: String,
    pub LastName: String,
    pub Suffix: Option<String>,
    pub Phone: Option<String>,
    pub Fax: Option<String>,
    pub Email: Option<String>,
    pub Address: String,
    pub City: String,
    pub State: String,
    pub ZipCode: String,
    pub PoBox: Option<String>,
    pub FRN: String,
}

/// A raw amateur-license record, field for field as published.
#[allow(non_snake_case)]
#[derive(Debug)]
pub struct Amateur {
    pub RecordType: String,
    pub USI: u64,
    pub ULS: Option<String>,
    pub EFB: Option<String>,
    pub CallSign: String,
    pub OperatorClass: Option<char>,
    pub GroupCode: String,
    pub RegionCode: String,
    pub TrusteeCallSign: Option<String>,
    pub TrusteeIndicator: Option<String>,
    pub PhysicianCertification: Option<String>,
    pub VESignature: Option<String>,
    pub SystematicCallChange: Option<String>,
    pub VanityCallSignCange: Option<String>,
    pub VanityRelationship: Option<String>,
    pub PreviousCallSign: Option<String>,
    pub PreviousOperatorClass: Option<char>,
    pub TrusteeName: Option<String>,
}

/// A raw license-application record, field for field as published.
#[allow(non_snake_case)]
#[derive(Debug)]
pub struct Application {
    pub RecordType: String,
    pub USI: u64,
    pub ULS: Option<String>,
    pub EFB: Option<String>,
    pub CallSign: String,
    pub Status: char,
    pub RadioServiceCode: String,
    pub GrantDate: String,
    pub ExpiredDate: String,
    pub CancellationDate: Option<String>,
}

/// Building a callsign record out of a licensee entity record.
pub trait FccInfo: View<V = crate::call::CallView> {
    /// A fresh record from an entity: its call (uppercased), full name,
    /// address, city and state, with no locator and unknown confirmation
    /// status.
    fn from_entity(entity: Entity) -> (r: Call)
        ensures
            r@.call == crate::ascii::spec_upper(entity.CallSign@),
            r@.op == Some(entity.FullName@),
            r@.address == Some(entity.Address@),
            r@.qth == Some(entity.City@),
            r@.state == Some(entity.State@),
            r@.grid is None,
            r@.lotw == LoTWStatus::Unknown,
    ;

    /// This record refreshed from an entity: the call, locator and
    /// confirmation status are kept, the name, address, city and state are
    /// taken from the entity.
    fn with_entity(&self, entity: Entity) -> (r: Call)
        ensures
            r@.call == crate::ascii::spec_upper(self@.call),
            r@.op == Some(entity.FullName@),
            r@.address == Some(entity.Address@),
            r@.qth == Some(entity.City@),
            r@.state == Some(entity.State@),
            r@.grid == self@.grid,
            r@.lotw == self@.lotw,
    ;
}

impl FccInfo for Call {
    fn from_entity(entity: Entity) -> (r: Call) {
        Call::full(
            entity.CallSign,
            Some(entity.FullName),
            Some(entity.Address),
            Some(entity.City),
            Some(entity.State),
            None,
            LoTWStatus::Unknown,
        )
    }

    fn with_entity(&self, entity: Entity) -> (r: Call) {
        Call::full(
            self.call(),
            Some(entity.FullName),
            Some(entity.Address),
            Some(entity.City),
            Some(entity.State),
            self.grid().clone(),
            self.lotw(),
        )
    }
}

} // verus!
