use dnslr::addr::{IpAddr, Ipv4, Ipv6, SockAddr};
use dnslr::config::{blackhole_pair, build_config, set_key, ConfigBuildError, SetKind};

fn bv(s: &[u8]) -> Vec<u8> {
    s.to_vec()
}

fn entries(raw: &[&[u8]]) -> Vec<Vec<u8>> {
    raw.iter().map(|s| s.to_vec()).collect()
}

#[test]
fn build_without_blackholes_disables_filtering() {
    // Empty blackhole set, one matchclass: the build succeeds but serves
    // unfiltered, with both optional fields absent.
    let cfg = build_config(
        bv(b"d1"),
        &entries(&[]),
        entries(&[b"ads"]),
        &entries(&[b"1.1.1.1:53"]),
        entries(&[b"UDP=0.0.0.0:53"]),
    )
    .unwrap();
    assert!(!cfg.is_filtering);
    assert_eq!(cfg.blackhole_ips, None);
    assert_eq!(cfg.matchclasses, None);
    assert_eq!(cfg.forwarders.len(), 1);
    assert_eq!(
        cfg.forwarders[0],
        SockAddr { ip: IpAddr::V4(Ipv4 { o0: 1, o1: 1, o2: 1, o3: 1 }), port: 53 }
    );
    assert_eq!(cfg.binds, entries(&[b"UDP=0.0.0.0:53"]));
    assert_eq!(cfg.daemon_id, bv(b"d1"));
}

#[test]
fn build_with_valid_blackholes_enables_filtering() {
    let cfg = build_config(
        bv(b"d1"),
        &entries(&[b"10.0.0.1", b"::1"]),
        entries(&[b"ads"]),
        &entries(&[b"1.1.1.1:53"]),
        entries(&[b"UDP=0.0.0.0:53"]),
    )
    .unwrap();
    assert!(cfg.is_filtering);
    let (bh4, bh6) = cfg.blackhole_ips.unwrap();
    assert_eq!(bh4, Ipv4 { o0: 10, o1: 0, o2: 0, o3: 1 });
    assert_eq!(
        bh6,
        Ipv6 { g0: 0, g1: 0, g2: 0, g3: 0, g4: 0, g5: 0, g6: 0, g7: 1 }
    );
    assert_eq!(cfg.matchclasses, Some(entries(&[b"ads"])));
}

#[test]
fn build_with_empty_matchclasses_disables_filtering() {
    let cfg = build_config(
        bv(b"d1"),
        &entries(&[b"10.0.0.1", b"::1"]),
        entries(&[]),
        &entries(&[b"1.1.1.1:53"]),
        entries(&[b"UDP=0.0.0.0:53"]),
    )
    .unwrap();
    assert!(!cfg.is_filtering);
    assert_eq!(cfg.blackhole_ips, None);
    assert_eq!(cfg.matchclasses, None);
}

#[test]
fn build_without_forwarders_fails() {
    let r = build_config(
        bv(b"d1"),
        &entries(&[]),
        entries(&[]),
        &entries(&[]),
        entries(&[b"UDP=0.0.0.0:53"]),
    );
    assert_eq!(r, Err(ConfigBuildError::ForwardersMissing));
}

#[test]
fn build_with_no_parsable_forwarder_fails() {
    let r = build_config(
        bv(b"d1"),
        &entries(&[]),
        entries(&[]),
        &entries(&[b"nonsense", b"also=bad"]),
        entries(&[b"UDP=0.0.0.0:53"]),
    );
    assert_eq!(r, Err(ConfigBuildError::NoValidForwarders));
}

#[test]
fn build_without_binds_fails() {
    let r = build_config(
        bv(b"d1"),
        &entries(&[]),
        entries(&[]),
        &entries(&[b"1.1.1.1:53"]),
        entries(&[]),
    );
    assert_eq!(r, Err(ConfigBuildError::BindsMissing));
}

#[test]
fn invalid_forwarder_entries_are_dropped() {
    let cfg = build_config(
        bv(b"d1"),
        &entries(&[]),
        entries(&[]),
        &entries(&[b"bogus", b"9.9.9.9:53", b"[::1]:5353"]),
        entries(&[b"UDP=0.0.0.0:53"]),
    )
    .unwrap();
    assert_eq!(cfg.forwarders.len(), 2);
    assert_eq!(cfg.forwarders[0].port, 53);
    assert_eq!(cfg.forwarders[1].port, 5353);
}

#[test]
fn blackhole_pair_needs_exactly_two_parsable_entries() {
    assert_eq!(blackhole_pair(&entries(&[])), None);
    assert_eq!(blackhole_pair(&entries(&[b"10.0.0.1"])), None);
    assert_eq!(blackhole_pair(&entries(&[b"10.0.0.1", b"10.0.0.2"])), None);
    assert_eq!(blackhole_pair(&entries(&[b"::1", b"10.0.0.1"])), None);
    let pair = blackhole_pair(&entries(&[b"10.0.0.1", b"::1"])).unwrap();
    assert_eq!(pair.0, Ipv4 { o0: 10, o1: 0, o2: 0, o3: 1 });
}

#[test]
fn set_keys_follow_the_store_schema() {
    assert_eq!(set_key(SetKind::Forwarders, b"d1"), bv(b"forwarders_d1"));
    assert_eq!(set_key(SetKind::Binds, b"d1"), bv(b"binds_d1"));
    assert_eq!(set_key(SetKind::Matchclasses, b"d1"), bv(b"matchclasses_d1"));
    assert_eq!(set_key(SetKind::BlackholeIps, b"d1"), bv(b"blackhole_ips_d1"));
}
