//! The per-query decision pipeline.
//!
//! For each incoming query the handler reads the current configuration,
//! decides whether the policy store must be consulted at all, interprets
//! the store's answer fail-open, and either synthesizes the blackhole
//! answer of the query's address family or forwards upstream and relays
//! the result verbatim.

use vstd::prelude::*;

use crate::addr::{IpAddr, COLON};
use crate::config::Config;
use crate::text::push_all;

verus! {

/// The record types this system distinguishes: only address queries
/// participate in filtering.
#[derive(Clone, Copy, Debug, PartialEq, Eq, Structural)]
pub enum RecordKind {
    A,
    Aaaa,
    Other,
}

pub open spec fn is_address_query(k: RecordKind) -> bool {
    k == RecordKind::A || k == RecordKind::Aaaa
}

/// A failure of the policy store during a lookup. At request time it is
/// absorbed fail-open; at build time it fails the reload cycle.
#[derive(Clone, Copy, Debug, PartialEq, Eq, Structural)]
pub enum StoreError {
    Unavailable,
}

/// Total failure of upstream resolution.
#[derive(Clone, Copy, Debug, PartialEq, Eq, Structural)]
pub enum UpstreamError {
    NoUpstreamAnswered,
}

/// What to do with one incoming query before any store round-trip.
#[derive(Clone, Copy, Debug, PartialEq, Eq, Structural)]
pub enum QueryPlan {
    /// Ask the store whether the name is policy-filtered.
    Consult,
    /// Forward upstream without consulting the store.
    Forward,
}

pub open spec fn plan_spec(config: Config, qtype: RecordKind) -> QueryPlan {
    if config.is_filtering && is_address_query(qtype) {
        QueryPlan::Consult
    } else {
        QueryPlan::Forward
    }
}

/// The store is consulted exactly for address queries under a filtering
/// configuration; everything else is forwarded at once, saving the
/// round-trip and guaranteeing fail-open behaviour.
pub fn plan_query(config: &Config, qtype: RecordKind) -> (r: QueryPlan)
    ensures
        r == plan_spec(*config, qtype),
        r == QueryPlan::Consult <==> (config.is_filtering && is_address_query(qtype)),
{
    if config.is_filtering && (matches!(qtype, RecordKind::A) || matches!(
        qtype,
        RecordKind::Aaaa,
    )) {
        QueryPlan::Consult
    } else {
        QueryPlan::Forward
    }
}

/// A query whose record type is not an address type is never filtered,
/// whatever the configuration holds: its plan is always to forward.
pub proof fn lemma_non_address_queries_never_filtered(config: Config, qtype: RecordKind)
    requires
        !is_address_query(qtype),
    ensures
        plan_spec(config, qtype) == QueryPlan::Forward,
{
}

/// The lookup keys derived from a query name: one per configured
/// matchclass, the class joined to the name by a colon.
pub fn lookup_keys(matchclasses: &Vec<Vec<u8>>, qname: &[u8]) -> (r: Vec<Vec<u8>>)
    ensures
        r@.len() == matchclasses@.len(),
        forall|i: int|
            0 <= i < r@.len() ==> r@[i]@ == matchclasses@[i]@ + seq![COLON] + qname@,
{
    let mut keys: Vec<Vec<u8>> = Vec::new();
    let mut i: usize = 0;
    while i < matchclasses.len()
        invariant
            i <= matchclasses@.len(),
            keys@.len() == i,
            forall|k: int|
                0 <= k < i ==> keys@[k]@ == matchclasses@[k]@ + seq![COLON] + qname@,
        decreases matchclasses@.len() - i,
    {
        let mut key: Vec<u8> = Vec::new();
        push_all(&mut key, matchclasses[i].as_slice());
        key.push(COLON);
        proof {
            assert(key@ =~= matchclasses@[i as int]@ + seq![COLON]);
        }
        push_all(&mut key, qname);
        keys.push(key);
        i += 1;
    }
    keys
}

/// The store's multi-key existence answer means "filtered" exactly when
/// the count is positive.
pub fn match_from_count(count: u64) -> (r: bool)
    ensures
        r == (count > 0),
{
    count > 0
}

/// The wire label of a record type as the store expects it, for the
/// types that participate in filtering.
pub fn qtype_label(qtype: RecordKind) -> (r: Option<Vec<u8>>)
    ensures
        match r {
            // "A" and "AAAA"
            Some(l) => (qtype == RecordKind::A && l@ == seq![65u8]) || (qtype == RecordKind::Aaaa
                && l@ == seq![65u8, 65u8, 65u8, 65u8]),
            None => qtype == RecordKind::Other,
        },
{
    match qtype {
        RecordKind::A => {
            let l: Vec<u8> = vec![65u8];
            proof {
                assert(l@ =~= seq![65u8]);
            }
            Some(l)
        },
        RecordKind::Aaaa => {
            let l: Vec<u8> = vec![65u8, 65u8, 65u8, 65u8];
            proof {
                assert(l@ =~= seq![65u8, 65u8, 65u8, 65u8]);
            }
            Some(l)
        },
        RecordKind::Other => None,
    }
}

/// Interprets the store's existence answer for an address query under a
/// filtering configuration.
///
/// A positive count yields exactly the configured blackhole address of
/// the query's family; a zero count, and any store error (fail-open),
/// yields no filtered answer and the query is forwarded.
pub fn decide_filtered(config: &Config, qtype: RecordKind, store_reply: Result<u64, StoreError>)
    -> (r: Option<IpAddr>)
    requires
        config.wf(),
        config.is_filtering,
        is_address_query(qtype),
    ensures
        r is Some <==> (store_reply matches Ok(n) && n > 0),
        config.blackhole_ips matches Some(pair) ==> ((store_reply matches Ok(n) && n > 0) ==> r
            == (if qtype == RecordKind::A {
            Some(IpAddr::V4(pair.0))
        } else {
            Some(IpAddr::V6(pair.1))
        })),
{
    match store_reply {
        Ok(count) => {
            if count > 0 {
                match &config.blackhole_ips {
                    Some(pair) => {
                        if matches!(qtype, RecordKind::A) {
                            Some(IpAddr::V4(pair.0))
                        } else {
                            Some(IpAddr::V6(pair.1))
                        }
                    },
                    None => None,
                }
            } else {
                None
            }
        },
        Err(_) => None,
    }
}

/// The outgoing response: an answer relayed from upstream, or a
/// resolution-failure response.
#[derive(Clone, Debug, PartialEq, Eq)]
pub enum Response {
    Answer(Vec<u8>),
    ServFail,
}

/// Relays the forwarding outcome verbatim: an upstream answer is the
/// response, unmodified; total upstream failure surfaces as a
/// resolution-failure response.
pub fn relay_upstream(outcome: Result<Vec<u8>, UpstreamError>) -> (r: Response)
    ensures
        match outcome {
            Ok(a) => r == Response::Answer(a),
            Err(_) => r == Response::ServFail,
        },
{
    match outcome {
        Ok(a) => Response::Answer(a),
        Err(_) => Response::ServFail,
    }
}

/// The next step of first-success resolution across the fixed forwarder
/// list: each upstream is tried at most once, in order, and running past
/// the end gives up.
#[derive(Clone, Copy, Debug, PartialEq, Eq, Structural)]
pub enum ResolveStep {
    Try(usize),
    GiveUp,
}

pub fn next_attempt(forwarder_count: usize, next_index: usize) -> (r: ResolveStep)
    ensures
        r == (if next_index < forwarder_count {
            ResolveStep::Try(next_index)
        } else {
            ResolveStep::GiveUp
        }),
{
    if next_index < forwarder_count {
        ResolveStep::Try(next_index)
    } else {
        ResolveStep::GiveUp
    }
}

} // verus!
