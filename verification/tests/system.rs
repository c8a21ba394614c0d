use edcas_client::log_reader::{LogCatalog, LogError, LogFile};
use edcas_client::system::{Body, PlanetSignals, Signal, System, SystemSignal};

fn empty_system() -> System<Body> {
    System {
        name: String::from("Sol"),
        allegiance: String::from("Federation"),
        economy_localised: String::from("Refinery"),
        second_economy_localised: String::from("Service"),
        government_localised: String::from("Democracy"),
        security_localised: String::from("High"),
        population: String::from("22780919531"),
        body_count: String::from("40"),
        non_body_count: String::from("3"),
        signal_list: vec![SystemSignal {
            timestamp: String::from("2023-05-01T12:00:00Z"),
            event: String::from("FSSSignalDiscovered"),
            name: String::from("Abraham Lincoln"),
            thread: String::new(),
        }],
        body_list: Vec::new(),
        planet_signals: Vec::new(),
        index: 0,
    }
}

fn body(id: i64, name: &str) -> Body {
    Body { body_id: id, body_name: String::from(name) }
}

fn names(system: &System<Body>) -> Vec<&str> {
    system.body_list.iter().map(|body| body.body_name.as_str()).collect()
}

#[test]
fn bodies_are_kept_in_the_order_of_their_identifiers() {
    let mut system = empty_system();
    assert_eq!(system.insert_body(body(3, "Earth")), 0);
    assert_eq!(system.insert_body(body(1, "Mercury")), 0);
    assert_eq!(system.insert_body(body(2, "Venus")), 1);
    assert_eq!(system.insert_body(body(9, "Pluto")), 3);
    assert_eq!(system.insert_body(body(-4, "Barycentre")), 0);
    assert_eq!(names(&system), vec!["Barycentre", "Mercury", "Venus", "Earth", "Pluto"]);
    assert_eq!(system.name, "Sol");
    assert_eq!(system.signal_list.len(), 1);
    assert_eq!(system.index, 0);
}

#[test]
fn bodies_with_the_same_identifier_keep_their_order() {
    let mut system = empty_system();
    assert_eq!(system.insert_body(body(5, "first")), 0);
    assert_eq!(system.insert_body(body(7, "above")), 1);
    assert_eq!(system.insert_body(body(5, "second")), 0);
    assert_eq!(system.insert_body(body(1, "below")), 0);
    assert_eq!(system.insert_body(body(5, "third")), 1);
    assert_eq!(names(&system), vec!["below", "first", "second", "third", "above"]);
}

#[test]
fn bodies_out_of_order_are_put_in_order() {
    let mut system = empty_system();
    system.body_list = vec![body(8, "h"), body(2, "b"), body(8, "h2"), body(4, "d")];
    assert_eq!(system.insert_body(body(8, "h3")), 2);
    assert_eq!(names(&system), vec!["b", "d", "h", "h2", "h3"]);
    assert_eq!(system.insert_body(body(i64::MAX, "top")), 5);
    assert_eq!(system.insert_body(body(i64::MIN, "bottom")), 0);
    assert_eq!(names(&system), vec!["bottom", "b", "d", "h", "h2", "h3", "top"]);
}

#[test]
fn planet_signals_are_equal_when_of_the_same_body() {
    let one = PlanetSignals { body_name: String::from("Earth"), body_id: 3, signals: Vec::new() };
    let same = PlanetSignals {
        body_name: String::from("Terra"),
        body_id: 3,
        signals: vec![Signal {
            signal_type: String::from("$SAA_SignalType_Biological;"),
            type_localised: String::from("Biological"),
            count: 2,
        }],
    };
    let other = PlanetSignals { body_name: String::from("Earth"), body_id: 4, signals: Vec::new() };
    assert!(one == same);
    assert!(one != other);
}

#[test]
fn signal_is_listed_under_its_localised_type() {
    let localised = Signal {
        signal_type: String::from("$SAA_SignalType_Geological;"),
        type_localised: String::from("Geological"),
        count: 3,
    };
    assert_eq!(localised.label(), "Geological");
    let plain = Signal {
        signal_type: String::from("Tritium"),
        type_localised: String::from("null"),
        count: 1,
    };
    assert_eq!(plain.label(), "Tritium");
    let nameless = Signal { signal_type: String::from("x"), type_localised: String::new(), count: 0 };
    assert_eq!(nameless.label(), "");
}

fn log(name: &str, created: u64) -> LogFile {
    LogFile { name: String::from(name), created }
}

#[test]
fn logs_are_listed_oldest_first() {
    let catalog = LogCatalog::new(vec![
        log("Journal.2023-05-03.log", 300),
        log("Journal.2023-05-01.log", 100),
        log("Journal.2023-05-02.log", 200),
        log("Journal.2023-05-01.02.log", 100),
        log("Journal.2024.log", u64::MAX),
        log("Journal.1970.log", 0),
    ]);
    assert_eq!(catalog.len(), 6);
    let listed: Vec<&str> =
        (0..6).map(|index| catalog.get(index).unwrap().name.as_str()).collect();
    assert_eq!(
        listed,
        vec![
            "Journal.1970.log",
            "Journal.2023-05-01.log",
            "Journal.2023-05-01.02.log",
            "Journal.2023-05-02.log",
            "Journal.2023-05-03.log",
            "Journal.2024.log",
        ]
    );
    assert_eq!(catalog.get(0).unwrap().created, 0);
}

#[test]
fn log_beyond_the_last_is_an_error() {
    let catalog = LogCatalog::new(vec![log("a", 2), log("b", 1)]);
    assert_eq!(catalog.get(1).unwrap().name, "a");
    assert_eq!(catalog.get(2).err(), Some(LogError::IndexOutOfRange { index: 2, count: 2 }));
    assert_eq!(
        catalog.get(usize::MAX).err(),
        Some(LogError::IndexOutOfRange { index: usize::MAX, count: 2 })
    );
    let empty = LogCatalog::new(Vec::new());
    assert_eq!(empty.len(), 0);
    assert_eq!(empty.get(0).err(), Some(LogError::IndexOutOfRange { index: 0, count: 0 }));
}

#[test]
fn many_logs_come_out_in_order() {
    let mut seed: u64 = 12345;
    let mut found = Vec::new();
    for n in 0..200 {
        seed = seed.wrapping_mul(6364136223846793005).wrapping_add(1442695040888963407);
        found.push(LogFile { name: format!("{n}"), created: (seed >> 33) % 50 });
    }
    let mut expected = found.clone();
    expected.sort_by_key(|file| file.created);
    let catalog = LogCatalog::new(found);
    assert_eq!(catalog.len(), 200);
    for (index, file) in expected.iter().enumerate() {
        assert_eq!(catalog.get(index).unwrap(), file);
    }
}

#[test]
fn many_bodies_come_out_in_order() {
    let mut seed: u64 = 99;
    let mut system = empty_system();
    let mut expected: Vec<Body> = Vec::new();
    for n in 0..100 {
        seed = seed.wrapping_mul(6364136223846793005).wrapping_add(1442695040888963407);
        let id = ((seed >> 33) % 20) as i64 - 10;
        let added = body(id, &format!("{n}"));
        expected.push(added.clone());
        expected.sort_by_key(|body| body.body_id);
        let first = expected.iter().position(|body| body.body_id == id).unwrap();
        assert_eq!(system.insert_body(added), first);
        assert_eq!(system.body_list, expected);
    }
}
