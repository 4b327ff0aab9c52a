use device_state_sync::aggregate::{get_job_state_file_contents, get_state_change_events, ChangeKind, Observation};
use device_state_sync::classify::{classify, STATE_FILE};
use device_state_sync::codec::{decode, first_token_bytes, token_range};
use device_state_sync::properties::Properties;
use device_state_sync::reconcile::{after_lookup, after_update, start, ReconcileError, Step, STATE_PROPERTY};
use device_state_sync::store::StoreError;

fn components(parts: &[&str]) -> Vec<String> {
    parts.iter().map(|p| p.to_string()).collect()
}

fn root() -> Vec<String> {
    components(&["/", "var", "lib", "akri", "management"])
}

fn state_path(device: &str) -> Vec<String> {
    let mut p = root();
    p.push(device.to_string());
    p.push(STATE_FILE.to_string());
    p
}

fn observed(device: &str, content: &[u8]) -> Observation {
    Observation { path: state_path(device), content: Some(content.to_vec()) }
}

fn record(entries: &[(&str, &str)]) -> Properties {
    let mut p = Properties::new();
    for (k, v) in entries {
        p.insert(k.to_string(), v.to_string());
    }
    p
}

fn state_of(p: &Properties) -> Option<String> {
    p.get(&STATE_PROPERTY.to_string()).cloned()
}

/// Runs a reconciliation against a store that holds `stored`, counting the
/// calls; returns the record as it stands afterwards.
fn reconcile_against(stored: &mut Properties, new_state: &str, lookups: &mut usize, updates: &mut usize) {
    let new_state = new_state.to_string();
    let mut step = start(&new_state);
    loop {
        step = match step {
            Step::FindDevice => {
                *lookups += 1;
                after_lookup(Ok(stored.copy()), &new_state)
            }
            Step::UpdateDevice(p) => {
                *updates += 1;
                *stored = p;
                after_update(Ok(()))
            }
            Step::Finished(r) => {
                assert!(r.is_ok());
                return;
            }
        }
    }
}

#[test]
fn test_get_job_state_file_contents() {
    let instance_name = "instance_name";
    let res = get_job_state_file_contents(&root(), &vec![observed(instance_name, b"1.1")]);
    let res = res.unwrap();
    assert_eq!(res.get(&instance_name.to_string()).unwrap(), "1.1");
}

#[test]
fn test_get_state_change_events() {
    let instance_name = "instance_name";
    let res = get_state_change_events(&root(), ChangeKind::Modify, &vec![observed(instance_name, b"1.1")]);
    assert_eq!(res.unwrap().get(&instance_name.to_string()).unwrap(), "1.1");
}

#[test]
fn test_update_instance_state() {
    let new_state = "1.1.0".to_string();
    assert!(matches!(start(&new_state), Step::FindDevice));
    let found = record(&[("OPCUA_DISCOVERY_URL", "opc.tcp://10.0.0.1:4840/")]);
    match after_lookup(Ok(found), &new_state) {
        Step::UpdateDevice(p) => {
            assert_eq!(state_of(&p).unwrap(), "1.1.0");
            assert_eq!(p.get(&"OPCUA_DISCOVERY_URL".to_string()).unwrap(), "opc.tcp://10.0.0.1:4840/");
            assert_eq!(p.len(), 2);
        }
        _ => panic!("expected an update"),
    }
    assert!(matches!(after_update(Ok(())), Step::Finished(Ok(()))));
}

#[test]
fn decode_empty_and_whitespace() {
    assert_eq!(decode(b""), None);
    assert_eq!(decode(b"  \n\t\r\x0c"), None);
    assert_eq!(token_range(b" \n "), None);
}

#[test]
fn decode_first_token() {
    assert_eq!(decode(b"1.1.0\n").unwrap(), "1.1.0");
    assert_eq!(decode(b"  1.2.0 extra words\n").unwrap(), "1.2.0");
    assert_eq!(token_range(b"  ab c"), Some((2, 4)));
    assert_eq!(first_token_bytes(b"\tab c").unwrap(), b"ab".to_vec());
}

#[test]
fn decode_vertical_tab_is_not_whitespace() {
    assert_eq!(decode(b"\x0bx y").unwrap(), "\u{b}x");
}

#[test]
fn decode_token_decodes_to_itself() {
    let token = decode(b"\n  v2.0-rc1 \n next").unwrap();
    assert_eq!(token, "v2.0-rc1");
    assert_eq!(decode(token.as_bytes()).unwrap(), token);
}

#[test]
fn decode_keeps_utf8_text() {
    assert_eq!(decode("  état prêt".as_bytes()).unwrap(), "état");
}

#[test]
fn classify_state_file_of_device() {
    assert_eq!(classify(&root(), &state_path("dev-A")).unwrap(), "dev-A");
}

#[test]
fn classify_rejects_other_paths() {
    let r = root();
    assert_eq!(classify(&r, &components(&["/", "tmp", "dev-A", "state.txt"])), None);
    let mut deeper = root();
    deeper.extend(components(&["dev-A", "nested", "state.txt"]));
    assert_eq!(classify(&r, &deeper), None);
    let mut other_file = root();
    other_file.extend(components(&["dev-A", "scratch.txt"]));
    assert_eq!(classify(&r, &other_file), None);
    let mut at_root = root();
    at_root.push("state.txt".to_string());
    assert_eq!(classify(&r, &at_root), None);
    assert_eq!(classify(&r, &root()), None);
}

#[test]
fn properties_insert_and_get() {
    let mut p = Properties::new();
    assert!(p.is_empty());
    assert_eq!(p.insert("a".to_string(), "1".to_string()), None);
    assert_eq!(p.insert("b".to_string(), "2".to_string()), None);
    assert_eq!(p.insert("a".to_string(), "3".to_string()), Some("1".to_string()));
    assert_eq!(p.len(), 2);
    assert_eq!(p.get(&"a".to_string()).unwrap(), "3");
    assert_eq!(p.get(&"c".to_string()), None);
    let q = p.copy();
    assert_eq!(q.entries(), p.entries());
}

#[test]
fn aggregate_ignores_create_events() {
    let events = vec![observed("dev-A", b"1.1.0")];
    assert!(get_state_change_events(&root(), ChangeKind::Create, &events).is_none());
    assert!(get_state_change_events(&root(), ChangeKind::Other, &events).is_none());
}

#[test]
fn aggregate_none_without_state_files() {
    let mut scratch = root();
    scratch.extend(components(&["dev-A", "scratch.txt"]));
    let events = vec![
        Observation { path: scratch, content: Some(b"1.0".to_vec()) },
        observed("dev-B", b"   \n"),
        Observation { path: state_path("dev-C"), content: None },
    ];
    assert!(get_job_state_file_contents(&root(), &events).is_none());
}

#[test]
fn aggregate_last_write_wins() {
    let events = vec![observed("dev-A", b"1.0"), observed("dev-B", b"2.0"), observed("dev-A", b"1.1\n")];
    let m = get_state_change_events(&root(), ChangeKind::Modify, &events).unwrap();
    assert_eq!(m.len(), 2);
    assert_eq!(m.get(&"dev-A".to_string()).unwrap(), "1.1");
    assert_eq!(m.get(&"dev-B".to_string()).unwrap(), "2.0");
}

#[test]
fn reconcile_missing_state_updates_once() {
    let mut stored = record(&[("other", "x")]);
    let (mut lookups, mut updates) = (0, 0);
    reconcile_against(&mut stored, "1.1.0", &mut lookups, &mut updates);
    assert_eq!((lookups, updates), (1, 1));
    assert_eq!(state_of(&stored).unwrap(), "1.1.0");
    assert_eq!(stored.get(&"other".to_string()).unwrap(), "x");
}

#[test]
fn reconcile_current_state_no_update() {
    let mut stored = record(&[(STATE_PROPERTY, "1.1.0")]);
    let (mut lookups, mut updates) = (0, 0);
    reconcile_against(&mut stored, "1.1.0", &mut lookups, &mut updates);
    assert_eq!((lookups, updates), (1, 0));
}

#[test]
fn reconcile_empty_state_no_calls() {
    let mut stored = record(&[]);
    let (mut lookups, mut updates) = (0, 0);
    reconcile_against(&mut stored, "", &mut lookups, &mut updates);
    assert_eq!((lookups, updates), (0, 0));
    assert!(matches!(start(&String::new()), Step::Finished(Ok(()))));
}

#[test]
fn reconcile_lookup_failure() {
    let e = StoreError::Api { code: 404, message: "instance not found".to_string() };
    match after_lookup(Err(e), &"1.1.0".to_string()) {
        Step::Finished(Err(ReconcileError::Lookup(StoreError::Api { code, .. }))) => assert_eq!(code, 404),
        _ => panic!("expected a lookup failure"),
    }
}

#[test]
fn reconcile_update_failure() {
    let e = StoreError::Transport { message: "connection reset".to_string() };
    assert!(matches!(
        after_update(Err(e)),
        Step::Finished(Err(ReconcileError::Update(StoreError::Transport { .. })))
    ));
}

#[test]
fn watch_loop_end_to_end() {
    let mut stored = record(&[]);
    let (mut lookups, mut updates) = (0, 0);
    for content in [&b"1.1.0\n"[..], &b"1.1.0\n"[..], &b"1.2.0\n"[..]] {
        let states = get_state_change_events(&root(), ChangeKind::Modify, &vec![observed("dev-A", content)]).unwrap();
        for (device, state) in states.entries() {
            assert_eq!(device, "dev-A");
            reconcile_against(&mut stored, state, &mut lookups, &mut updates);
        }
        match content {
            b"1.2.0\n" => assert_eq!(updates, 2),
            _ => assert_eq!(updates, 1),
        }
    }
    assert_eq!(lookups, 3);
    assert_eq!(state_of(&stored).unwrap(), "1.2.0");
}

#[test]
fn batch_failure_does_not_block_other_device() {
    let events = vec![observed("dev-A", b"1.0"), observed("dev-B", b"2.0")];
    let states = get_state_change_events(&root(), ChangeKind::Modify, &events).unwrap();
    assert_eq!(states.len(), 2);
    let mut finished_b = false;
    for (device, state) in states.entries() {
        assert!(matches!(start(state), Step::FindDevice));
        if device == "dev-A" {
            let e = StoreError::Transport { message: "timeout".to_string() };
            assert!(matches!(after_lookup(Err(e), state), Step::Finished(Err(_))));
        } else {
            match after_lookup(Ok(record(&[])), state) {
                Step::UpdateDevice(p) => {
                    assert_eq!(state_of(&p).unwrap(), "2.0");
                    finished_b = matches!(after_update(Ok(())), Step::Finished(Ok(())));
                }
                _ => panic!("expected an update"),
            }
        }
    }
    assert!(finished_b);
}
