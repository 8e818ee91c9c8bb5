use dnslr::binds::{bind_report, parse_bind_spec, BindReport, Proto};
use dnslr::config::{build_config, ConfigBuildError};
use dnslr::store::ConfigStore;

fn entries(raw: &[&[u8]]) -> Vec<Vec<u8>> {
    raw.iter().map(|s| s.to_vec()).collect()
}

fn config_with_forwarder(fw: &[u8]) -> dnslr::config::Config {
    build_config(
        b"d1".to_vec(),
        &entries(&[]),
        entries(&[]),
        &entries(&[fw]),
        entries(&[b"UDP=0.0.0.0:53"]),
    )
    .unwrap()
}

#[test]
fn current_returns_the_published_snapshot() {
    let c0 = config_with_forwarder(b"1.1.1.1:53");
    let mut store = ConfigStore::new(c0.clone());
    assert_eq!(*store.current(), c0);
    let c1 = config_with_forwarder(b"9.9.9.9:53");
    store.publish(c1.clone());
    assert_eq!(*store.current(), c1);
}

#[test]
fn failed_reload_leaves_the_active_snapshot() {
    let c0 = config_with_forwarder(b"1.1.1.1:53");
    let mut store = ConfigStore::new(c0.clone());
    let before = store.current().clone();
    let applied = store.apply_reload(Err(ConfigBuildError::ForwardersMissing));
    assert!(!applied);
    assert_eq!(*store.current(), before);
}

#[test]
fn successful_reload_publishes_the_rebuild() {
    let c0 = config_with_forwarder(b"1.1.1.1:53");
    let c1 = config_with_forwarder(b"9.9.9.9:53");
    let mut store = ConfigStore::new(c0);
    let applied = store.apply_reload(Ok(c1.clone()));
    assert!(applied);
    assert_eq!(*store.current(), c1);
}

#[test]
fn republishing_an_identical_rebuild_changes_nothing_observable() {
    let c0 = config_with_forwarder(b"1.1.1.1:53");
    let rebuilt = config_with_forwarder(b"9.9.9.9:53");
    let mut store = ConfigStore::new(c0);
    store.publish(rebuilt.clone());
    let after_once = store.current().clone();
    store.publish(rebuilt);
    assert_eq!(*store.current(), after_once);
}

#[test]
fn bind_specs_parse_protocol_and_address() {
    assert_eq!(
        parse_bind_spec(b"UDP=0.0.0.0:53"),
        Some((Proto::Udp, b"0.0.0.0:53".to_vec()))
    );
    assert_eq!(
        parse_bind_spec(b"TCP=127.0.0.1:5353"),
        Some((Proto::Tcp, b"127.0.0.1:5353".to_vec()))
    );
}

#[test]
fn unknown_bind_specs_are_rejected_individually() {
    // One spec binds, the bogus one is skipped: startup proceeds degraded.
    assert!(parse_bind_spec(b"UDP=0.0.0.0:53").is_some());
    assert_eq!(parse_bind_spec(b"BOGUS=xyz"), None);
    assert_eq!(parse_bind_spec(b"UDP"), None);
    assert_eq!(parse_bind_spec(b"udp=0.0.0.0:53"), None);
    assert_eq!(bind_report(2, 1), BindReport::Degraded);
    assert_ne!(bind_report(2, 1), BindReport::NoneBound);
}

#[test]
fn binding_nothing_is_fatal() {
    assert_eq!(bind_report(3, 0), BindReport::NoneBound);
    assert_eq!(bind_report(0, 0), BindReport::NoneBound);
}

#[test]
fn binding_everything_is_clean() {
    assert_eq!(bind_report(2, 2), BindReport::AllOk);
}
