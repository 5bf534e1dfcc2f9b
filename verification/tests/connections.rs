use dockshell::connections::{delete, get, load, save, ConnectionInfo};

fn conn(id: &str) -> ConnectionInfo {
    ConnectionInfo {
        id: id.into(),
        name: format!("conn {id}"),
        endpoint: "tcp://192.168.1.105:2375".into(),
        use_tls: false,
        client_cert_path: None,
        ca_cert_path: None,
    }
}

#[test]
fn save_load_delete_roundtrip() {
    let mut profiles = load(None);
    assert_eq!(profiles, vec![]);

    save(&mut profiles, conn("a"));
    save(&mut profiles, conn("b"));
    assert_eq!(profiles.len(), 2);
    assert_eq!(get(&profiles, "a").unwrap().name, "conn a");

    // Upsert replaces, not duplicates.
    let mut edited = conn("a");
    edited.name = "renamed".into();
    save(&mut profiles, edited);
    assert_eq!(profiles.len(), 2);
    assert_eq!(get(&profiles, "a").unwrap().name, "renamed");

    delete(&mut profiles, "a");
    assert_eq!(profiles.len(), 1);
    assert!(get(&profiles, "a").is_err());
}

#[test]
fn unknown_connection_is_an_error() {
    let profiles = load(None);
    assert!(get(&profiles, "nope").is_err());
}

#[test]
fn tls_fields_round_trip() {
    let mut profiles = load(None);
    let mut c = conn("a");
    c.use_tls = true;
    c.client_cert_path = Some("/certs/cert.pem".into());
    c.ca_cert_path = Some("/certs/ca.pem".into());
    save(&mut profiles, c.clone());
    assert_eq!(get(&profiles, "a").unwrap(), c);
}

#[test]
fn unknown_id_error_names_the_id() {
    let profiles = vec![conn("a")];
    assert_eq!(
        get(&profiles, "zz").unwrap_err(),
        "no saved connection with id zz"
    );
}

#[test]
fn load_keeps_what_the_store_held() {
    let stored = vec![conn("a"), conn("b")];
    assert_eq!(load(Some(stored.clone())), stored);
}

#[test]
fn save_replaces_in_place_and_appends_new_ids_last() {
    let mut profiles = vec![conn("a"), conn("b"), conn("c")];
    let mut edited = conn("b");
    edited.endpoint = "local".into();
    save(&mut profiles, edited.clone());
    assert_eq!(profiles, vec![conn("a"), edited.clone(), conn("c")]);
    save(&mut profiles, conn("d"));
    assert_eq!(profiles, vec![conn("a"), edited, conn("c"), conn("d")]);
}

#[test]
fn delete_leaves_other_profiles_in_order() {
    let mut profiles = vec![conn("a"), conn("b"), conn("c")];
    delete(&mut profiles, "b");
    assert_eq!(profiles, vec![conn("a"), conn("c")]);
    delete(&mut profiles, "missing");
    assert_eq!(profiles, vec![conn("a"), conn("c")]);
    assert_eq!(get(&profiles, "c").unwrap(), conn("c"));
}

#[test]
fn get_reads_back_after_save_and_others_unchanged() {
    let mut profiles = vec![conn("a"), conn("b")];
    let mut x = conn("a");
    x.use_tls = true;
    save(&mut profiles, x.clone());
    assert_eq!(get(&profiles, "a").unwrap(), x);
    assert_eq!(get(&profiles, "b").unwrap(), conn("b"));
}
