//! The records that the ledger keeps of carriers and stations.
//!
//! A reply is what the ledger answers for one identifier, with its times as
//! raw counts of seconds. A record is a reply whose times the calendar can
//! show: only records are handed on.

use vstd::prelude::*;
use crate::timestamp::{in_calendar, Timestamp};

verus! {

/// Why a reply did not become a record.
#[derive(Clone, Copy, Debug, PartialEq, Eq, Structural)]
pub enum ResolveError {
    /// The time of the last update lies beyond the calendar.
    TimestampOutOfRange,
    /// The time of departure lies beyond the calendar.
    DepartureOutOfRange,
}

/// The ledger's answer for one carrier. The fields stand in the order in which
/// the ledger sends them, after a first value that is not used.
#[derive(Clone, Debug, PartialEq, Eq)]
pub struct CarrierReply {
    pub timestamp: u64,
    pub name: String,
    pub callsign: String,
    pub services: String,
    pub docking_access: String,
    pub allow_notorious: bool,
    pub current_system: String,
    pub current_body: String,
    pub next_system: String,
    pub next_body: String,
    pub departure: u64,
}

/// A carrier as the ledger knows it.
#[derive(Clone, Debug, PartialEq, Eq)]
pub struct Carrier {
    pub timestamp: Timestamp,
    pub name: String,
    pub callsign: String,
    pub services: String,
    pub docking_access: String,
    pub allow_notorious: bool,
    pub current_system: String,
    pub current_body: String,
    pub next_system: String,
    pub next_body: String,
    pub departure: Timestamp,
}

/// What a carrier's reply and record say, as plain values.
pub struct CarrierView {
    pub timestamp: int,
    pub name: Seq<char>,
    pub callsign: Seq<char>,
    pub services: Seq<char>,
    pub docking_access: Seq<char>,
    pub allow_notorious: bool,
    pub current_system: Seq<char>,
    pub current_body: Seq<char>,
    pub next_system: Seq<char>,
    pub next_body: Seq<char>,
    pub departure: int,
}

impl View for CarrierReply {
    type V = CarrierView;

    open spec fn view(&self) -> CarrierView {
        CarrierView {
            timestamp: self.timestamp as int,
            name: self.name@,
            callsign: self.callsign@,
            services: self.services@,
            docking_access: self.docking_access@,
            allow_notorious: self.allow_notorious,
            current_system: self.current_system@,
            current_body: self.current_body@,
            next_system: self.next_system@,
            next_body: self.next_body@,
            departure: self.departure as int,
        }
    }
}

impl View for Carrier {
    type V = CarrierView;

    open spec fn view(&self) -> CarrierView {
        CarrierView {
            timestamp: self.timestamp@,
            name: self.name@,
            callsign: self.callsign@,
            services: self.services@,
            docking_access: self.docking_access@,
            allow_notorious: self.allow_notorious,
            current_system: self.current_system@,
            current_body: self.current_body@,
            next_system: self.next_system@,
            next_body: self.next_body@,
            departure: self.departure@,
        }
    }
}

impl CarrierView {
    /// What becomes of a carrier's reply: the record with the same content
    /// when both of its times are in the calendar, else the reason why not.
    /// The time of the last update is looked at first.
    pub open spec fn resolved(self) -> Result<CarrierView, ResolveError> {
        if self.timestamp < 0 || !in_calendar(self.timestamp as nat) {
            Err(ResolveError::TimestampOutOfRange)
        } else if self.departure < 0 || !in_calendar(self.departure as nat) {
            Err(ResolveError::DepartureOutOfRange)
        } else {
            Ok(self)
        }
    }
}

impl Carrier {
    /// Makes the record of a reply, or says which of its times the calendar
    /// cannot show.
    pub fn resolve(reply: CarrierReply) -> (resolved: Result<Carrier, ResolveError>)
        ensures
            match resolved {
                Ok(carrier) => reply@.resolved() == Ok::<CarrierView, ResolveError>(carrier@),
                Err(error) => reply@.resolved() == Err::<CarrierView, ResolveError>(error),
            },
    {
        let timestamp = match Timestamp::from_epoch_secs(reply.timestamp) {
            Some(timestamp) => timestamp,
            None => { return Err(ResolveError::TimestampOutOfRange); },
        };
        let departure = match Timestamp::from_epoch_secs(reply.departure) {
            Some(departure) => departure,
            None => { return Err(ResolveError::DepartureOutOfRange); },
        };
        Ok(
            Carrier {
                timestamp,
                name: reply.name,
                callsign: reply.callsign,
                services: reply.services,
                docking_access: reply.docking_access,
                allow_notorious: reply.allow_notorious,
                current_system: reply.current_system,
                current_body: reply.current_body,
                next_system: reply.next_system,
                next_body: reply.next_body,
                departure,
            },
        )
    }
}

/// The ledger's answer for one station. The fields stand in the order in which
/// the ledger sends them, after a first value that is not used.
#[derive(Clone, Debug, PartialEq, Eq)]
pub struct StationReply {
    pub timestamp: u64,
    pub name: String,
    pub station_type: String,
    pub system_name: String,
    pub faction: String,
    pub government: String,
    pub economy: String,
    pub services: String,
    pub distance: String,
    pub landingpads: String,
}

/// A station as the ledger knows it.
#[derive(Clone, Debug, PartialEq, Eq)]
pub struct Station {
    pub timestamp: Timestamp,
    pub name: String,
    pub station_type: String,
    pub system_name: String,
    pub faction: String,
    pub government: String,
    pub economy: String,
    pub services: String,
    pub distance: String,
    pub landingpads: String,
}

/// What a station's reply and record say, as plain values.
pub struct StationView {
    pub timestamp: int,
    pub name: Seq<char>,
    pub station_type: Seq<char>,
    pub system_name: Seq<char>,
    pub faction: Seq<char>,
    pub government: Seq<char>,
    pub economy: Seq<char>,
    pub services: Seq<char>,
    pub distance: Seq<char>,
    pub landingpads: Seq<char>,
}

impl View for StationReply {
    type V = StationView;

    open spec fn view(&self) -> StationView {
        StationView {
            timestamp: self.timestamp as int,
            name: self.name@,
            station_type: self.station_type@,
            system_name: self.system_name@,
            faction: self.faction@,
            government: self.government@,
            economy: self.economy@,
            services: self.services@,
            distance: self.distance@,
            landingpads: self.landingpads@,
        }
    }
}

impl View for Station {
    type V = StationView;

    open spec fn view(&self) -> StationView {
        StationView {
            timestamp: self.timestamp@,
            name: self.name@,
            station_type: self.station_type@,
            system_name: self.system_name@,
            faction: self.faction@,
            government: self.government@,
            economy: self.economy@,
            services: self.services@,
            distance: self.distance@,
            landingpads: self.landingpads@,
        }
    }
}

impl StationView {
    /// What becomes of a station's reply: the record with the same content
    /// when its time is in the calendar, else the reason why not.
    pub open spec fn resolved(self) -> Result<StationView, ResolveError> {
        if self.timestamp < 0 || !in_calendar(self.timestamp as nat) {
            Err(ResolveError::TimestampOutOfRange)
        } else {
            Ok(self)
        }
    }
}

impl Station {
    /// Makes the record of a reply, or says that the calendar cannot show its
    /// time.
    pub fn resolve(reply: StationReply) -> (resolved: Result<Station, ResolveError>)
        ensures
            match resolved {
                Ok(station) => reply@.resolved() == Ok::<StationView, ResolveError>(station@),
                Err(error) => reply@.resolved() == Err::<StationView, ResolveError>(error),
            },
    {
        let timestamp = match Timestamp::from_epoch_secs(reply.timestamp) {
            Some(timestamp) => timestamp,
            None => { return Err(ResolveError::TimestampOutOfRange); },
        };
        Ok(
            Station {
                timestamp,
                name: reply.name,
                station_type: reply.station_type,
                system_name: reply.system_name,
                faction: reply.faction,
                government: reply.government,
                economy: reply.economy,
                services: reply.services,
                distance: reply.distance,
                landingpads: reply.landingpads,
            },
        )
    }
}

} // verus!
