use dnslr::addr::{IpAddr, Ipv4, Ipv6};
use dnslr::config::build_config;
use dnslr::query::{decide_filtered, lookup_keys, match_from_count, next_attempt, plan_query,
    qtype_label, relay_upstream, QueryPlan, RecordKind, ResolveStep, Response, StoreError,
    UpstreamError};
use dnslr::reload::{trigger_action, Trigger, TriggerAction};

fn entries(raw: &[&[u8]]) -> Vec<Vec<u8>> {
    raw.iter().map(|s| s.to_vec()).collect()
}

fn filtering_config() -> dnslr::config::Config {
    build_config(
        b"d1".to_vec(),
        &entries(&[b"10.0.0.1", b"::1"]),
        entries(&[b"ads"]),
        &entries(&[b"1.1.1.1:53"]),
        entries(&[b"UDP=0.0.0.0:53"]),
    )
    .unwrap()
}

fn plain_config() -> dnslr::config::Config {
    build_config(
        b"d1".to_vec(),
        &entries(&[]),
        entries(&[]),
        &entries(&[b"1.1.1.1:53"]),
        entries(&[b"UDP=0.0.0.0:53"]),
    )
    .unwrap()
}

#[test]
fn address_queries_consult_the_store_when_filtering() {
    let cfg = filtering_config();
    assert_eq!(plan_query(&cfg, RecordKind::A), QueryPlan::Consult);
    assert_eq!(plan_query(&cfg, RecordKind::Aaaa), QueryPlan::Consult);
}

#[test]
fn other_record_types_are_never_filtered() {
    let cfg = filtering_config();
    assert_eq!(plan_query(&cfg, RecordKind::Other), QueryPlan::Forward);
}

#[test]
fn nothing_is_consulted_without_filtering() {
    let cfg = plain_config();
    assert_eq!(plan_query(&cfg, RecordKind::A), QueryPlan::Forward);
    assert_eq!(plan_query(&cfg, RecordKind::Aaaa), QueryPlan::Forward);
    assert_eq!(plan_query(&cfg, RecordKind::Other), QueryPlan::Forward);
}

#[test]
fn matched_a_query_gets_the_ipv4_blackhole() {
    let cfg = filtering_config();
    let r = decide_filtered(&cfg, RecordKind::A, Ok(1));
    assert_eq!(r, Some(IpAddr::V4(Ipv4 { o0: 10, o1: 0, o2: 0, o3: 1 })));
}

#[test]
fn matched_aaaa_query_gets_the_ipv6_blackhole() {
    let cfg = filtering_config();
    let r = decide_filtered(&cfg, RecordKind::Aaaa, Ok(2));
    assert_eq!(
        r,
        Some(IpAddr::V6(Ipv6 { g0: 0, g1: 0, g2: 0, g3: 0, g4: 0, g5: 0, g6: 0, g7: 1 }))
    );
}

#[test]
fn unmatched_query_is_forwarded() {
    let cfg = filtering_config();
    assert_eq!(decide_filtered(&cfg, RecordKind::A, Ok(0)), None);
}

#[test]
fn store_error_fails_open() {
    let cfg = filtering_config();
    assert_eq!(
        decide_filtered(&cfg, RecordKind::A, Err(StoreError::Unavailable)),
        None
    );
}

#[test]
fn upstream_answer_is_relayed_verbatim() {
    let answer: Vec<u8> = vec![0, 1, 2, 3];
    assert_eq!(
        relay_upstream(Ok(answer.clone())),
        Response::Answer(answer)
    );
}

#[test]
fn upstream_failure_becomes_servfail() {
    assert_eq!(
        relay_upstream(Err(UpstreamError::NoUpstreamAnswered)),
        Response::ServFail
    );
}

#[test]
fn lookup_keys_join_class_and_name() {
    let keys = lookup_keys(&entries(&[b"ads", b"malware"]), b"ads.example.com");
    assert_eq!(keys.len(), 2);
    assert_eq!(keys[0], b"ads:ads.example.com".to_vec());
    assert_eq!(keys[1], b"malware:ads.example.com".to_vec());
}

#[test]
fn existence_count_means_match_when_positive() {
    assert!(!match_from_count(0));
    assert!(match_from_count(1));
    assert!(match_from_count(7));
}

#[test]
fn qtype_labels() {
    assert_eq!(qtype_label(RecordKind::A), Some(b"A".to_vec()));
    assert_eq!(qtype_label(RecordKind::Aaaa), Some(b"AAAA".to_vec()));
    assert_eq!(qtype_label(RecordKind::Other), None);
}

#[test]
fn upstreams_are_tried_in_order_then_given_up() {
    assert_eq!(next_attempt(2, 0), ResolveStep::Try(0));
    assert_eq!(next_attempt(2, 1), ResolveStep::Try(1));
    assert_eq!(next_attempt(2, 2), ResolveStep::GiveUp);
    assert_eq!(next_attempt(0, 0), ResolveStep::GiveUp);
}

#[test]
fn only_the_reload_trigger_rebuilds() {
    assert_eq!(trigger_action(Trigger::Reload), TriggerAction::Rebuild);
    assert_eq!(trigger_action(Trigger::AuxOne), TriggerAction::Note);
    assert_eq!(trigger_action(Trigger::AuxTwo), TriggerAction::Note);
}
