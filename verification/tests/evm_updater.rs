use edcas_client::broadcast_bus::{BroadcastBus, Subscriber};
use edcas_client::evm_updater::{initialize, EvmUpdate, EvmUpdater, RemoteCall, RemoteEvent};
use edcas_client::records::{CarrierReply, ResolveError, StationReply};
use edcas_client::timestamp::MAX_CALENDAR_SECS;

fn carrier(name: &str, timestamp: u64) -> CarrierReply {
    CarrierReply {
        timestamp,
        name: String::from(name),
        callsign: String::from("AAA-000"),
        services: String::new(),
        docking_access: String::from("all"),
        allow_notorious: false,
        current_system: String::from("Sol"),
        current_body: String::new(),
        next_system: String::new(),
        next_body: String::new(),
        departure: 0,
    }
}

fn station(name: &str, timestamp: u64) -> StationReply {
    StationReply {
        timestamp,
        name: String::from(name),
        station_type: String::from("Coriolis"),
        system_name: String::from("Sol"),
        faction: String::new(),
        government: String::new(),
        economy: String::new(),
        services: String::new(),
        distance: String::from("1"),
        landingpads: String::from("M"),
    }
}

fn updater() -> (EvmUpdater, Subscriber<EvmUpdate>) {
    let mut bus: BroadcastBus<EvmUpdate> = BroadcastBus::new(10);
    let subscriber = bus.subscribe();
    (initialize(bus), subscriber)
}

fn carrier_names(update: Option<EvmUpdate>) -> Vec<String> {
    match update {
        Some(EvmUpdate::CarrierListUpdate(carriers)) => {
            carriers.into_iter().map(|carrier| carrier.name).collect()
        }
        other => panic!("no carrier list: {:?}", other),
    }
}

fn station_names(update: Option<EvmUpdate>) -> Vec<String> {
    match update {
        Some(EvmUpdate::StationListUpdate(stations)) => {
            stations.into_iter().map(|station| station.name).collect()
        }
        other => panic!("no station list: {:?}", other),
    }
}

#[test]
fn record_that_fails_is_left_out() {
    let (mut updater, mut subscriber) = updater();
    assert_eq!(updater.run_update(RemoteEvent::Tick), RemoteCall::ListCarrierIds);
    assert_eq!(
        updater.run_update(RemoteEvent::IdsListed(vec![1, 2, 3])),
        RemoteCall::GetCarrier(1)
    );
    assert_eq!(
        updater.run_update(RemoteEvent::CarrierFetched(carrier("one", 100))),
        RemoteCall::GetCarrier(2)
    );
    assert_eq!(updater.run_update(RemoteEvent::CallFailed), RemoteCall::GetCarrier(3));
    assert!(subscriber.try_recv().is_none());
    assert_eq!(
        updater.run_update(RemoteEvent::CarrierFetched(carrier("three", 300))),
        RemoteCall::ListStationIds
    );
    assert_eq!(carrier_names(subscriber.try_recv()), vec!["one", "three"]);
    assert!(subscriber.try_recv().is_none());
}

#[test]
fn all_records_are_broadcast_in_the_order_of_the_identifiers() {
    let (mut updater, mut subscriber) = updater();
    updater.run_update(RemoteEvent::Tick);
    assert_eq!(
        updater.run_update(RemoteEvent::IdsListed(vec![30, 10, 20, 10])),
        RemoteCall::GetCarrier(30)
    );
    assert_eq!(
        updater.run_update(RemoteEvent::CarrierFetched(carrier("c30", 1))),
        RemoteCall::GetCarrier(10)
    );
    assert_eq!(
        updater.run_update(RemoteEvent::CarrierFetched(carrier("c10", 2))),
        RemoteCall::GetCarrier(20)
    );
    assert_eq!(
        updater.run_update(RemoteEvent::CarrierFetched(carrier("c20", 3))),
        RemoteCall::GetCarrier(10)
    );
    assert_eq!(
        updater.run_update(RemoteEvent::CarrierFetched(carrier("c10 again", 4))),
        RemoteCall::ListStationIds
    );
    match subscriber.try_recv() {
        Some(EvmUpdate::CarrierListUpdate(carriers)) => {
            assert_eq!(carriers.len(), 4);
            let names: Vec<&str> = carriers.iter().map(|c| c.name.as_str()).collect();
            assert_eq!(names, vec!["c30", "c10", "c20", "c10 again"]);
            let times: Vec<i64> = carriers.iter().map(|c| c.timestamp.epoch_secs()).collect();
            assert_eq!(times, vec![1, 2, 3, 4]);
        }
        other => panic!("no carrier list: {:?}", other),
    }
    assert!(subscriber.try_recv().is_none());
}

#[test]
fn failed_listing_broadcasts_nothing() {
    let (mut updater, mut subscriber) = updater();
    assert_eq!(updater.run_update(RemoteEvent::Tick), RemoteCall::ListCarrierIds);
    assert_eq!(updater.run_update(RemoteEvent::CallFailed), RemoteCall::ListStationIds);
    assert!(subscriber.try_recv().is_none());
    assert_eq!(updater.run_update(RemoteEvent::CallFailed), RemoteCall::Rest);
    assert!(subscriber.try_recv().is_none());
    assert!(updater.is_idle());
}

#[test]
fn empty_listing_broadcasts_nothing() {
    let (mut updater, mut subscriber) = updater();
    updater.run_update(RemoteEvent::Tick);
    assert_eq!(updater.run_update(RemoteEvent::IdsListed(vec![])), RemoteCall::ListStationIds);
    assert_eq!(updater.run_update(RemoteEvent::IdsListed(vec![])), RemoteCall::Rest);
    assert!(subscriber.try_recv().is_none());
    assert!(updater.is_idle());
}

#[test]
fn list_is_not_broadcast_when_every_record_fails() {
    let (mut updater, mut subscriber) = updater();
    updater.run_update(RemoteEvent::Tick);
    assert_eq!(updater.run_update(RemoteEvent::IdsListed(vec![5, 6])), RemoteCall::GetCarrier(5));
    assert_eq!(updater.run_update(RemoteEvent::CallFailed), RemoteCall::GetCarrier(6));
    assert_eq!(updater.run_update(RemoteEvent::CallFailed), RemoteCall::ListStationIds);
    assert!(subscriber.try_recv().is_none());
}

#[test]
fn record_with_time_beyond_calendar_is_left_out() {
    let (mut updater, mut subscriber) = updater();
    updater.run_update(RemoteEvent::Tick);
    updater.run_update(RemoteEvent::IdsListed(vec![1, 2, 3]));
    let beyond = MAX_CALENDAR_SECS as u64 + 1;
    updater.run_update(RemoteEvent::CarrierFetched(carrier("late", beyond)));
    updater.run_update(RemoteEvent::CarrierFetched(carrier("fine", MAX_CALENDAR_SECS as u64)));
    let mut departs_late = carrier("departs late", 5);
    departs_late.departure = u64::MAX;
    assert_eq!(
        updater.run_update(RemoteEvent::CarrierFetched(departs_late)),
        RemoteCall::ListStationIds
    );
    assert_eq!(carrier_names(subscriber.try_recv()), vec!["fine"]);
}

#[test]
fn answer_of_the_wrong_kind_counts_as_failure() {
    let (mut updater, mut subscriber) = updater();
    updater.run_update(RemoteEvent::Tick);
    updater.run_update(RemoteEvent::IdsListed(vec![1, 2, 3]));
    assert_eq!(
        updater.run_update(RemoteEvent::StationFetched(station("s", 1))),
        RemoteCall::GetCarrier(2)
    );
    assert_eq!(updater.run_update(RemoteEvent::Tick), RemoteCall::GetCarrier(3));
    assert_eq!(
        updater.run_update(RemoteEvent::CarrierFetched(carrier("three", 3))),
        RemoteCall::ListStationIds
    );
    assert_eq!(carrier_names(subscriber.try_recv()), vec!["three"]);
    assert_eq!(
        updater.run_update(RemoteEvent::CarrierFetched(carrier("stray", 3))),
        RemoteCall::Rest
    );
    assert!(subscriber.try_recv().is_none());
}

#[test]
fn whole_refresh_broadcasts_carriers_then_stations() {
    let (mut updater, mut subscriber) = updater();
    assert!(updater.is_idle());
    assert_eq!(updater.run_update(RemoteEvent::Tick), RemoteCall::ListCarrierIds);
    assert!(!updater.is_idle());
    assert_eq!(updater.run_update(RemoteEvent::IdsListed(vec![9])), RemoteCall::GetCarrier(9));
    assert_eq!(
        updater.run_update(RemoteEvent::CarrierFetched(carrier("nine", 9))),
        RemoteCall::ListStationIds
    );
    assert_eq!(
        updater.run_update(RemoteEvent::IdsListed(vec![4, 5])),
        RemoteCall::GetStation(4)
    );
    assert_eq!(
        updater.run_update(RemoteEvent::StationFetched(station("four", 4))),
        RemoteCall::GetStation(5)
    );
    assert_eq!(
        updater.run_update(RemoteEvent::StationFetched(station("five", 5))),
        RemoteCall::Rest
    );
    assert!(updater.is_idle());
    assert_eq!(carrier_names(subscriber.try_recv()), vec!["nine"]);
    assert_eq!(station_names(subscriber.try_recv()), vec!["four", "five"]);
    assert!(subscriber.try_recv().is_none());
}

#[test]
fn station_that_fails_is_left_out() {
    let (mut updater, mut subscriber) = updater();
    updater.run_update(RemoteEvent::Tick);
    updater.run_update(RemoteEvent::CallFailed);
    assert_eq!(
        updater.run_update(RemoteEvent::IdsListed(vec![1, 2, 3])),
        RemoteCall::GetStation(1)
    );
    updater.run_update(RemoteEvent::CallFailed);
    updater.run_update(RemoteEvent::StationFetched(station("two", MAX_CALENDAR_SECS as u64 + 1)));
    assert_eq!(
        updater.run_update(RemoteEvent::StationFetched(station("three", 3))),
        RemoteCall::Rest
    );
    assert_eq!(station_names(subscriber.try_recv()), vec!["three"]);
    assert!(subscriber.try_recv().is_none());
}

#[test]
fn nothing_happens_at_rest_until_a_tick() {
    let (mut updater, mut subscriber) = updater();
    assert_eq!(updater.run_update(RemoteEvent::CallFailed), RemoteCall::Rest);
    assert_eq!(updater.run_update(RemoteEvent::IdsListed(vec![1])), RemoteCall::Rest);
    assert_eq!(
        updater.run_update(RemoteEvent::CarrierFetched(carrier("stray", 1))),
        RemoteCall::Rest
    );
    assert!(updater.is_idle());
    assert!(subscriber.try_recv().is_none());
    assert_eq!(updater.run_update(RemoteEvent::Tick), RemoteCall::ListCarrierIds);
}

#[test]
fn refresh_can_be_run_again() {
    let (mut updater, mut subscriber) = updater();
    for round in 0..3u64 {
        assert_eq!(updater.run_update(RemoteEvent::Tick), RemoteCall::ListCarrierIds);
        assert_eq!(
            updater.run_update(RemoteEvent::IdsListed(vec![round])),
            RemoteCall::GetCarrier(round)
        );
        updater.run_update(RemoteEvent::CarrierFetched(carrier("again", round)));
        assert_eq!(updater.run_update(RemoteEvent::CallFailed), RemoteCall::Rest);
        assert_eq!(carrier_names(subscriber.try_recv()), vec!["again"]);
        assert!(subscriber.try_recv().is_none());
    }
}

#[test]
fn refused_reply_is_told_of_until_the_next_step() {
    let (mut updater, mut subscriber) = updater();
    let beyond = MAX_CALENDAR_SECS as u64 + 1;
    assert_eq!(updater.last_rejection(), None);
    updater.run_update(RemoteEvent::Tick);
    updater.run_update(RemoteEvent::IdsListed(vec![1, 2, 3, 4]));
    assert_eq!(updater.last_rejection(), None);
    updater.run_update(RemoteEvent::CarrierFetched(carrier("late", beyond)));
    assert_eq!(updater.last_rejection(), Some(ResolveError::TimestampOutOfRange));
    updater.run_update(RemoteEvent::CarrierFetched(carrier("fine", 1)));
    assert_eq!(updater.last_rejection(), None);
    let mut departs_late = carrier("departs late", 1);
    departs_late.departure = beyond;
    updater.run_update(RemoteEvent::CarrierFetched(departs_late));
    assert_eq!(updater.last_rejection(), Some(ResolveError::DepartureOutOfRange));
    updater.run_update(RemoteEvent::CallFailed);
    assert_eq!(updater.last_rejection(), None);
    assert_eq!(carrier_names(subscriber.try_recv()), vec!["fine"]);
    updater.run_update(RemoteEvent::IdsListed(vec![7]));
    updater.run_update(RemoteEvent::StationFetched(station("late", beyond)));
    assert_eq!(updater.last_rejection(), Some(ResolveError::TimestampOutOfRange));
    assert!(updater.is_idle());
    updater.run_update(RemoteEvent::StationFetched(station("stray", beyond)));
    assert_eq!(updater.last_rejection(), None);
    assert!(subscriber.try_recv().is_none());
}
