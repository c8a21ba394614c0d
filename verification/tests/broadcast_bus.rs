use edcas_client::broadcast_bus::BroadcastBus;

#[test]
fn every_subscriber_gets_every_message() {
    let mut bus: BroadcastBus<i64> = BroadcastBus::new(10);
    let mut first = bus.subscribe();
    let mut second = bus.subscribe();
    bus.broadcast(7);
    bus.broadcast(8);
    assert_eq!(first.try_recv(), Some(7));
    assert_eq!(first.try_recv(), Some(8));
    assert_eq!(first.try_recv(), None);
    assert_eq!(second.try_recv(), Some(7));
    assert_eq!(second.try_recv(), Some(8));
    assert_eq!(second.try_recv(), None);
}

#[test]
fn late_subscriber_gets_only_what_follows() {
    let mut bus: BroadcastBus<i64> = BroadcastBus::new(10);
    let mut early = bus.subscribe();
    for n in 0..5 {
        bus.broadcast(n);
    }
    let mut late = bus.subscribe();
    assert_eq!(late.try_recv(), None);
    bus.broadcast(5);
    bus.broadcast(6);
    assert_eq!(late.try_recv(), Some(5));
    assert_eq!(late.try_recv(), Some(6));
    assert_eq!(late.try_recv(), None);
    for n in 0..7 {
        assert_eq!(early.try_recv(), Some(n));
    }
    assert_eq!(early.try_recv(), None);
}

#[test]
fn subscriber_without_broadcasts_gets_nothing() {
    let mut bus: BroadcastBus<i64> = BroadcastBus::new(1);
    let mut only = bus.subscribe();
    assert_eq!(only.try_recv(), None);
}

#[test]
fn broadcast_without_subscribers_returns() {
    let mut bus: BroadcastBus<i64> = BroadcastBus::new(2);
    for n in 0..100 {
        bus.broadcast(n);
    }
    let mut late = bus.subscribe();
    assert_eq!(late.try_recv(), None);
    bus.broadcast(100);
    assert_eq!(late.try_recv(), Some(100));
}

#[test]
fn subscribers_get_copies_of_their_own() {
    let mut bus: BroadcastBus<String> = BroadcastBus::new(4);
    let mut first = bus.subscribe();
    let mut second = bus.subscribe();
    bus.broadcast(String::from("hello"));
    let mut mine = first.try_recv().unwrap();
    mine.push_str(" world");
    assert_eq!(mine, "hello world");
    assert_eq!(second.try_recv().unwrap(), "hello");
}

#[test]
fn bus_takes_as_many_messages_as_its_capacity() {
    let mut bus: BroadcastBus<i64> = BroadcastBus::new(3);
    let mut slow = bus.subscribe();
    bus.broadcast(1);
    bus.broadcast(2);
    bus.broadcast(3);
    assert_eq!(slow.try_recv(), Some(1));
    bus.broadcast(4);
    assert_eq!(slow.try_recv(), Some(2));
    assert_eq!(slow.try_recv(), Some(3));
    assert_eq!(slow.try_recv(), Some(4));
    assert_eq!(slow.try_recv(), None);
}

#[test]
fn bus_of_one_seat_hands_on_one_message_at_a_time() {
    let mut bus: BroadcastBus<i64> = BroadcastBus::new(1);
    assert_eq!(bus.seats(), 1);
    let mut only = bus.subscribe();
    for n in 0..50 {
        bus.broadcast(n);
        assert_eq!(only.try_recv(), Some(n));
        assert_eq!(only.try_recv(), None);
    }
}

#[test]
fn bus_tells_its_seats() {
    let bus: BroadcastBus<String> = BroadcastBus::new(1000);
    assert_eq!(bus.seats(), 1000);
    let largest: BroadcastBus<i64> = BroadcastBus::new(2);
    assert_eq!(largest.seats(), 2);
}
