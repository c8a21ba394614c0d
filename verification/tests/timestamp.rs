use edcas_client::records::{Carrier, CarrierReply, ResolveError, Station, StationReply};
use edcas_client::timestamp::{Timestamp, MAX_CALENDAR_SECS};

fn carrier_reply(timestamp: u64, departure: u64) -> CarrierReply {
    CarrierReply {
        timestamp,
        name: String::from("Nostromo"),
        callsign: String::from("K7X-BQ1"),
        services: String::from("refuel,repair"),
        docking_access: String::from("all"),
        allow_notorious: true,
        current_system: String::from("Sol"),
        current_body: String::from("Earth"),
        next_system: String::from("Achenar"),
        next_body: String::from("Achenar 1"),
        departure,
    }
}

fn station_reply(timestamp: u64) -> StationReply {
    StationReply {
        timestamp,
        name: String::from("Jameson Memorial"),
        station_type: String::from("Orbis"),
        system_name: String::from("Shinrarta Dezhra"),
        faction: String::from("The Dark Wheel"),
        government: String::from("Democracy"),
        economy: String::from("High Tech"),
        services: String::from("dock,shipyard"),
        distance: String::from("347"),
        landingpads: String::from("L"),
    }
}

#[test]
fn calendar_takes_the_epoch_and_today() {
    assert_eq!(Timestamp::from_epoch_secs(0).unwrap().epoch_secs(), 0);
    assert_eq!(Timestamp::from_epoch_secs(1_431_648_000).unwrap().epoch_secs(), 1_431_648_000);
}

#[test]
fn calendar_ends_with_its_last_second() {
    let last = MAX_CALENDAR_SECS as u64;
    assert_eq!(MAX_CALENDAR_SECS, 8_210_266_876_799);
    assert_eq!(Timestamp::from_epoch_secs(last).unwrap().epoch_secs(), MAX_CALENDAR_SECS);
    assert_eq!(Timestamp::from_epoch_secs(last - 1).unwrap().epoch_secs(), MAX_CALENDAR_SECS - 1);
    assert!(Timestamp::from_epoch_secs(last + 1).is_none());
    assert!(Timestamp::from_epoch_secs(last + 86_400).is_none());
}

#[test]
fn counts_beyond_the_signed_range_are_refused() {
    assert!(Timestamp::from_epoch_secs(i64::MAX as u64).is_none());
    assert!(Timestamp::from_epoch_secs(i64::MAX as u64 + 1).is_none());
    assert!(Timestamp::from_epoch_secs(u64::MAX).is_none());
}

#[test]
fn carrier_record_keeps_the_reply() {
    let carrier = Carrier::resolve(carrier_reply(1_700_000_000, 1_700_003_600)).unwrap();
    assert_eq!(carrier.timestamp.epoch_secs(), 1_700_000_000);
    assert_eq!(carrier.departure.epoch_secs(), 1_700_003_600);
    assert_eq!(carrier.name, "Nostromo");
    assert_eq!(carrier.callsign, "K7X-BQ1");
    assert_eq!(carrier.services, "refuel,repair");
    assert_eq!(carrier.docking_access, "all");
    assert!(carrier.allow_notorious);
    assert_eq!(carrier.current_system, "Sol");
    assert_eq!(carrier.current_body, "Earth");
    assert_eq!(carrier.next_system, "Achenar");
    assert_eq!(carrier.next_body, "Achenar 1");
}

#[test]
fn carrier_with_time_beyond_calendar_is_refused() {
    let beyond = MAX_CALENDAR_SECS as u64 + 1;
    assert_eq!(
        Carrier::resolve(carrier_reply(beyond, 0)).err(),
        Some(ResolveError::TimestampOutOfRange)
    );
    assert_eq!(
        Carrier::resolve(carrier_reply(0, beyond)).err(),
        Some(ResolveError::DepartureOutOfRange)
    );
    assert_eq!(
        Carrier::resolve(carrier_reply(u64::MAX, u64::MAX)).err(),
        Some(ResolveError::TimestampOutOfRange)
    );
}

#[test]
fn station_record_keeps_the_reply() {
    let station = Station::resolve(station_reply(1_700_000_000)).unwrap();
    assert_eq!(station.timestamp.epoch_secs(), 1_700_000_000);
    assert_eq!(station.name, "Jameson Memorial");
    assert_eq!(station.station_type, "Orbis");
    assert_eq!(station.system_name, "Shinrarta Dezhra");
    assert_eq!(station.faction, "The Dark Wheel");
    assert_eq!(station.government, "Democracy");
    assert_eq!(station.economy, "High Tech");
    assert_eq!(station.services, "dock,shipyard");
    assert_eq!(station.distance, "347");
    assert_eq!(station.landingpads, "L");
}

#[test]
fn station_with_time_beyond_calendar_is_refused() {
    assert_eq!(
        Station::resolve(station_reply(MAX_CALENDAR_SECS as u64 + 1)).err(),
        Some(ResolveError::TimestampOutOfRange)
    );
    assert!(Station::resolve(station_reply(MAX_CALENDAR_SECS as u64)).is_ok());
}
