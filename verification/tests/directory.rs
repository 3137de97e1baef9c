use rustbolt::directory::{DirectoryLoadError, RealmDirectory, RowFault};
use rustbolt::naming::{address_is_valid, name_is_valid, MAX_TEXT_LEN};
use rustbolt::realm::{RealmRow, RealmType, DEFAULT_NUM_CHARS};

fn row(id: i64, name: &str, address: &str) -> RealmRow {
    RealmRow {
        id,
        realm_type: 1,
        is_locked: 0,
        flags: 0,
        name: String::from(name),
        address: String::from(address),
        population_bits: 1.0f64.to_bits(),
        category: 0,
    }
}

#[test]
fn loads_the_sample_realm() {
    let rows = vec![row(1, "Alpha", "10.0.0.1:8085")];
    let directory = RealmDirectory::load(&rows).unwrap();
    let realm = directory.get(1).unwrap();
    assert_eq!(realm.name, "Alpha");
    assert!(!realm.locked);
}

#[test]
fn a_loaded_realm_has_the_stored_fields() {
    let rows = vec![RealmRow {
        id: 7,
        realm_type: 6,
        is_locked: 1,
        flags: 0x41,
        name: String::from("Beta"),
        address: String::from("realm.example.org:3724"),
        population_bits: 2.5f64.to_bits(),
        category: 3,
    }];
    let directory = RealmDirectory::load(&rows).unwrap();
    let realm = directory.get(7).unwrap();
    assert_eq!(realm.id, 7);
    assert_eq!(realm.realm_type, RealmType::RolePlay);
    assert!(realm.locked);
    assert_eq!(realm.flags, 0x41);
    assert_eq!(realm.name, "Beta");
    assert_eq!(realm.address, "realm.example.org:3724");
    assert_eq!(f64::from_bits(realm.population_bits), 2.5);
    assert_eq!(realm.num_chars, DEFAULT_NUM_CHARS);
    assert_eq!(realm.num_chars, 1);
    assert_eq!(realm.category, 3);
}

#[test]
fn any_stored_flag_but_zero_locks_the_realm() {
    for (stored, locked) in [(0i64, false), (1, true), (2, true), (-1, true), (i64::MIN, true)] {
        let mut one = row(1, "Alpha", "10.0.0.1:8085");
        one.is_locked = stored;
        let directory = RealmDirectory::load(&vec![one]).unwrap();
        assert_eq!(directory.get(1).unwrap().locked, locked);
    }
}

#[test]
fn realm_type_codes() {
    assert_eq!(RealmType::from_code(0), Some(RealmType::Normal));
    assert_eq!(RealmType::from_code(1), Some(RealmType::PvP));
    assert_eq!(RealmType::from_code(6), Some(RealmType::RolePlay));
    assert_eq!(RealmType::from_code(8), Some(RealmType::RolePlayPvP));
    for code in [-1i64, 2, 3, 4, 5, 7, 9, 255, i64::MAX, i64::MIN] {
        assert_eq!(RealmType::from_code(code), None);
    }
    for kind in [
        RealmType::Normal,
        RealmType::PvP,
        RealmType::RolePlay,
        RealmType::RolePlayPvP,
    ] {
        assert_eq!(RealmType::from_code(kind.code()), Some(kind));
    }
}

#[test]
fn an_unknown_realm_type_refuses_the_whole_load() {
    let mut bad = row(2, "Beta", "10.0.0.2:8085");
    bad.realm_type = 99;
    let rows = vec![
        row(1, "Alpha", "10.0.0.1:8085"),
        bad,
        row(3, "Gamma", "10.0.0.3:8085"),
    ];
    assert_eq!(
        RealmDirectory::load(&rows).unwrap_err(),
        DirectoryLoadError { row: 1, reason: RowFault::UnknownRealmType }
    );
}

#[test]
fn an_unknown_realm_type_in_the_last_row_refuses_the_load() {
    let mut bad = row(3, "Gamma", "10.0.0.3:8085");
    bad.realm_type = -1;
    let rows = vec![row(1, "Alpha", "10.0.0.1:8085"), row(2, "Beta", "10.0.0.2:8085"), bad];
    assert_eq!(
        RealmDirectory::load(&rows).unwrap_err(),
        DirectoryLoadError { row: 2, reason: RowFault::UnknownRealmType }
    );
}

#[test]
fn a_bad_name_refuses_the_load() {
    for name in ["", "Al\0pha"] {
        let rows = vec![row(1, name, "10.0.0.1:8085")];
        assert_eq!(
            RealmDirectory::load(&rows).unwrap_err(),
            DirectoryLoadError { row: 0, reason: RowFault::InvalidName }
        );
    }
    let long = "a".repeat(MAX_TEXT_LEN + 1);
    let rows = vec![row(1, &long, "10.0.0.1:8085")];
    assert_eq!(
        RealmDirectory::load(&rows).unwrap_err(),
        DirectoryLoadError { row: 0, reason: RowFault::InvalidName }
    );
}

#[test]
fn a_bad_address_refuses_the_load() {
    for address in ["", "10.0.0.1", "10.0.0.1:", ":8085", "10.0.0.1:80a5", "10.0.0.1:65536"] {
        let rows = vec![row(1, "Alpha", "10.0.0.1:8085"), row(2, "Beta", address)];
        assert_eq!(
            RealmDirectory::load(&rows).unwrap_err(),
            DirectoryLoadError { row: 1, reason: RowFault::InvalidAddress }
        );
    }
}

#[test]
fn a_repeated_identifier_refuses_the_load() {
    let rows = vec![
        row(1, "Alpha", "10.0.0.1:8085"),
        row(2, "Beta", "10.0.0.2:8085"),
        row(1, "Gamma", "10.0.0.3:8085"),
    ];
    assert_eq!(
        RealmDirectory::load(&rows).unwrap_err(),
        DirectoryLoadError { row: 2, reason: RowFault::DuplicateId }
    );
}

#[test]
fn the_first_row_at_fault_is_the_one_reported() {
    let mut unknown = row(3, "Gamma", "10.0.0.3:8085");
    unknown.realm_type = 2;
    let rows = vec![row(1, "Alpha", "10.0.0.1:8085"), row(2, "", "10.0.0.2:8085"), unknown];
    assert_eq!(
        RealmDirectory::load(&rows).unwrap_err(),
        DirectoryLoadError { row: 1, reason: RowFault::InvalidName }
    );
}

#[test]
fn the_faults_of_one_row_are_looked_for_in_order() {
    let mut all_wrong = row(1, "", "nowhere");
    all_wrong.realm_type = 2;
    let rows = vec![row(1, "Alpha", "10.0.0.1:8085"), all_wrong];
    assert_eq!(RealmDirectory::load(&rows).unwrap_err().reason, RowFault::UnknownRealmType);
    let rows = vec![row(1, "Alpha", "10.0.0.1:8085"), row(1, "", "nowhere")];
    assert_eq!(RealmDirectory::load(&rows).unwrap_err().reason, RowFault::InvalidName);
    let rows = vec![row(1, "Alpha", "10.0.0.1:8085"), row(1, "Beta", "nowhere")];
    assert_eq!(RealmDirectory::load(&rows).unwrap_err().reason, RowFault::InvalidAddress);
    let rows = vec![row(1, "Alpha", "10.0.0.1:8085"), row(1, "Beta", "10.0.0.2:8085")];
    assert_eq!(RealmDirectory::load(&rows).unwrap_err().reason, RowFault::DuplicateId);
}

#[test]
fn no_rows_load_into_an_empty_directory() {
    let directory = RealmDirectory::load(&Vec::new()).unwrap();
    assert_eq!(directory.len(), 0);
    assert!(directory.all().is_empty());
    assert!(directory.get(1).is_none());
}

#[test]
fn every_loaded_row_is_found_by_its_identifier() {
    let rows = vec![
        row(5, "Alpha", "10.0.0.1:8085"),
        row(-3, "Beta", "10.0.0.2:8085"),
        row(i64::MAX, "Gamma", "10.0.0.3:8085"),
    ];
    let directory = RealmDirectory::load(&rows).unwrap();
    assert_eq!(directory.len(), 3);
    for stored in &rows {
        let realm = directory.get(stored.id).unwrap();
        assert_eq!(realm.id, stored.id);
        assert_eq!(realm.name, stored.name);
        assert_eq!(realm.address, stored.address);
        assert_eq!(realm.population_bits, stored.population_bits);
    }
    assert!(directory.get(4).is_none());
}

#[test]
fn all_lists_the_realms_in_the_order_of_the_rows_and_can_be_walked_again() {
    let rows = vec![
        row(3, "Gamma", "10.0.0.3:8085"),
        row(1, "Alpha", "10.0.0.1:8085"),
        row(2, "Beta", "10.0.0.2:8085"),
    ];
    let directory = RealmDirectory::load(&rows).unwrap();
    let first: Vec<i64> = directory.all().iter().map(|realm| realm.id).collect();
    let second: Vec<i64> = directory.all().iter().map(|realm| realm.id).collect();
    assert_eq!(first, vec![3, 1, 2]);
    assert_eq!(first, second);
}

#[test]
fn identifiers_are_unique_in_a_loaded_directory() {
    let rows = vec![
        row(1, "Alpha", "10.0.0.1:8085"),
        row(2, "Alpha", "10.0.0.1:8085"),
        row(3, "Alpha", "10.0.0.1:8085"),
    ];
    let directory = RealmDirectory::load(&rows).unwrap();
    let realms = directory.all();
    for i in 0..realms.len() {
        for j in (i + 1)..realms.len() {
            assert_ne!(realms[i].id, realms[j].id);
        }
    }
}

#[test]
fn names_that_may_be_listed() {
    assert!(name_is_valid("Alpha"));
    assert!(name_is_valid("a"));
    assert!(name_is_valid("Zo\u{eb}'s realm"));
    assert!(name_is_valid(&"a".repeat(MAX_TEXT_LEN)));
    assert!(!name_is_valid(&"a".repeat(MAX_TEXT_LEN + 1)));
    assert!(!name_is_valid(""));
    assert!(!name_is_valid("\0"));
    assert!(!name_is_valid("Alpha\0"));
    // 128 characters of two bytes each are 256 bytes.
    assert!(!name_is_valid(&"\u{eb}".repeat(128)));
    assert!(name_is_valid(&"\u{eb}".repeat(127)));
}

#[test]
fn addresses_that_may_be_listed() {
    assert!(address_is_valid("10.0.0.1:8085"));
    assert!(address_is_valid("localhost:1"));
    assert!(address_is_valid("h:0"));
    assert!(address_is_valid("h:65535"));
    assert!(address_is_valid("h:00080"));
    assert!(address_is_valid("[::1]:3724"));
    assert!(address_is_valid("a:b:80"));
    assert!(!address_is_valid("h:65536"));
    assert!(!address_is_valid("h:99999"));
    assert!(!address_is_valid("h:000080"));
    assert!(!address_is_valid("h:"));
    assert!(!address_is_valid(":80"));
    assert!(!address_is_valid("80"));
    assert!(!address_is_valid("host"));
    assert!(!address_is_valid(""));
    assert!(!address_is_valid("h:-1"));
    assert!(!address_is_valid("h:+1"));
    assert!(!address_is_valid("h: 80"));
    assert!(!address_is_valid("h:80 "));
    assert!(!address_is_valid("h\0:80"));
    assert!(!address_is_valid("h:8\u{663}"));
    let host = "h".repeat(MAX_TEXT_LEN - 3);
    assert!(address_is_valid(&format!("{}:80", host)));
    assert!(!address_is_valid(&format!("{}h:80", host)));
}
