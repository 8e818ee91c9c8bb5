//! Bind specifications and the listener-setup gate.
//!
//! A bind spec is a byte string `"<protocol>=<address>"`. Unknown
//! protocol tokens are skipped by the caller, never fatal individually;
//! only binding nothing at all is fatal.

use vstd::prelude::*;

use crate::text::{find_byte, find_byte_index};

verus! {

/// The byte `'='`.
pub const EQUALS: u8 = 61;

#[derive(Clone, Copy, Debug, PartialEq, Eq, Structural)]
pub enum Proto {
    Udp,
    Tcp,
}

/// The protocol and address denoted by a bind spec, if any: a `"UDP"` or
/// `"TCP"` token, an equals sign, and the address part, kept verbatim.
pub open spec fn bind_spec_of(s: Seq<u8>) -> Option<(Proto, Seq<u8>)> {
    let i = find_byte(s, EQUALS);
    if i < s.len() {
        let proto = s.take(i as int);
        let address = s.skip(i as int + 1);
        // "UDP"
        if proto == seq![85u8, 68u8, 80u8] {
            Some((Proto::Udp, address))
        } else if proto == seq![84u8, 67u8, 80u8] {
            // "TCP"
            Some((Proto::Tcp, address))
        } else {
            None
        }
    } else {
        None
    }
}

pub fn parse_bind_spec(s: &[u8]) -> (r: Option<(Proto, Vec<u8>)>)
    ensures
        match r {
            Some(pa) => bind_spec_of(s@) == Some((pa.0, pa.1@)),
            None => bind_spec_of(s@) is None,
        },
{
    let i = find_byte_index(s, EQUALS);
    if i >= s.len() {
        return None;
    }
    let token = &s[0..i];
    proof {
        assert(token@ =~= s@.take(i as int));
    }
    let is_udp = token.len() == 3 && token[0] == 85 && token[1] == 68 && token[2] == 80;
    let is_tcp = token.len() == 3 && token[0] == 84 && token[1] == 67 && token[2] == 80;
    if !is_udp && !is_tcp {
        proof {
            assert(s@.take(i as int) != seq![85u8, 68u8, 80u8]);
            assert(s@.take(i as int) != seq![84u8, 67u8, 80u8]);
        }
        return None;
    }
    let address = vstd::slice::slice_to_vec(&s[i + 1..s.len()]);
    proof {
        assert(address@ =~= s@.skip(i as int + 1));
        if is_udp {
            assert(s@.take(i as int) =~= seq![85u8, 68u8, 80u8]);
        } else {
            assert(s@.take(i as int) =~= seq![84u8, 67u8, 80u8]);
            assert(s@.take(i as int) != seq![85u8, 68u8, 80u8]);
        }
    }
    if is_udp {
        Some((Proto::Udp, address))
    } else {
        Some((Proto::Tcp, address))
    }
}

/// The outcome of attempting every bind spec independently.
#[derive(Clone, Copy, Debug, PartialEq, Eq, Structural)]
pub enum BindReport {
    /// Every attempted bind succeeded.
    AllOk,
    /// Some binds failed, but at least one listener is up.
    Degraded,
    /// No listener could be bound: the server cannot serve and must
    /// abort.
    NoneBound,
}

/// The single gate of listener setup: attempt every candidate, count
/// successes, and be fatal exactly when zero succeeded.
pub fn bind_report(attempted: usize, succeeded: usize) -> (r: BindReport)
    requires
        succeeded <= attempted,
    ensures
        r == BindReport::NoneBound <==> succeeded == 0,
        r == BindReport::AllOk <==> (succeeded > 0 && succeeded == attempted),
        r == BindReport::Degraded <==> 0 < succeeded < attempted,
{
    if succeeded == 0 {
        BindReport::NoneBound
    } else if succeeded == attempted {
        BindReport::AllOk
    } else {
        BindReport::Degraded
    }
}

} // verus!
