//! IP address and socket address values and their textual grammars.
//!
//! Forwarder and blackhole entries arrive from the policy store as byte
//! strings; these parsers validate them and every grammar is pinned down
//! by a spec function, so a caller knows exactly which entries survive.

use vstd::prelude::*;

use crate::text::{
    all_digits, dec_value, hex_value, scan_decimal, scan_hex, split_bytes, split_on, views,
};

verus! {

/// The byte `'.'`.
pub const DOT: u8 = 46;

/// The byte `':'`.
pub const COLON: u8 = 58;

/// The byte `'['`.
pub const LBRACKET: u8 = 91;

/// The byte `']'`.
pub const RBRACKET: u8 = 93;

/// An IPv4 address as its four dotted-quad octets.
#[derive(Clone, Copy, Debug, PartialEq, Eq, Structural)]
pub struct Ipv4 {
    pub o0: u8,
    pub o1: u8,
    pub o2: u8,
    pub o3: u8,
}

/// An IPv6 address as its eight 16-bit groups.
#[derive(Clone, Copy, Debug, PartialEq, Eq, Structural)]
pub struct Ipv6 {
    pub g0: u16,
    pub g1: u16,
    pub g2: u16,
    pub g3: u16,
    pub g4: u16,
    pub g5: u16,
    pub g6: u16,
    pub g7: u16,
}

#[derive(Clone, Copy, Debug, PartialEq, Eq, Structural)]
pub enum IpAddr {
    V4(Ipv4),
    V6(Ipv6),
}

/// An upstream forwarder: an IP address and a port.
#[derive(Clone, Copy, Debug, PartialEq, Eq, Structural)]
pub struct SockAddr {
    pub ip: IpAddr,
    pub port: u16,
}

/// A dotted-quad octet: one to three decimal digits, no leading zero,
/// value at most 255.
pub open spec fn valid_octet(s: Seq<u8>) -> bool {
    &&& 1 <= s.len() <= 3
    &&& all_digits(s)
    &&& dec_value(s) <= 255
    &&& (s.len() > 1 ==> s[0] != crate::text::D0)
}

/// A decimal port number: one to five digits, value at most 65535.
pub open spec fn valid_port(s: Seq<u8>) -> bool {
    &&& 1 <= s.len() <= 5
    &&& all_digits(s)
    &&& dec_value(s) <= 65535
}

/// An IPv6 group: one to four hexadecimal digits.
pub open spec fn valid_group(s: Seq<u8>) -> bool {
    1 <= s.len() <= 4 && crate::text::all_hex_digits(s)
}

/// The address denoted by a dotted-quad byte string, if any.
pub open spec fn ipv4_of(s: Seq<u8>) -> Option<Ipv4> {
    let p = split_on(s, DOT);
    if p.len() == 4 && valid_octet(p[0]) && valid_octet(p[1]) && valid_octet(p[2]) && valid_octet(
        p[3],
    ) {
        Some(
            Ipv4 {
                o0: dec_value(p[0]) as u8,
                o1: dec_value(p[1]) as u8,
                o2: dec_value(p[2]) as u8,
                o3: dec_value(p[3]) as u8,
            },
        )
    } else {
        None
    }
}

pub fn parse_octet(s: &[u8]) -> (r: Option<u8>)
    ensures
        match r {
            Some(v) => valid_octet(s@) && v as nat == dec_value(s@),
            None => !valid_octet(s@),
        },
{
    match scan_decimal(s) {
        Some(v) => {
            if s.len() > 3 || v > 255 {
                return None;
            }
            if s.len() > 1 && s[0] == crate::text::D0 {
                return None;
            }
            Some(v as u8)
        },
        None => None,
    }
}

pub fn parse_port(s: &[u8]) -> (r: Option<u16>)
    ensures
        match r {
            Some(v) => valid_port(s@) && v as nat == dec_value(s@),
            None => !valid_port(s@),
        },
{
    match scan_decimal(s) {
        Some(v) => if v <= 65535 {
            Some(v as u16)
        } else {
            None
        },
        None => None,
    }
}

pub fn parse_group(s: &[u8]) -> (r: Option<u16>)
    ensures
        match r {
            Some(v) => valid_group(s@) && v as nat == hex_value(s@),
            None => !valid_group(s@),
        },
{
    scan_hex(s)
}

pub fn parse_ipv4(s: &[u8]) -> (r: Option<Ipv4>)
    ensures
        r == ipv4_of(s@),
{
    let parts = split_bytes(s, DOT);
    if parts.len() != 4 {
        return None;
    }
    let o0 = parse_octet(parts[0].as_slice());
    let o1 = parse_octet(parts[1].as_slice());
    let o2 = parse_octet(parts[2].as_slice());
    let o3 = parse_octet(parts[3].as_slice());
    match (o0, o1, o2, o3) {
        (Some(a), Some(b), Some(c), Some(d)) => Some(Ipv4 { o0: a, o1: b, o2: c, o3: d }),
        _ => None,
    }
}

/// The index of the first `"::"` in `s`, or `s.len()` when there is none.
pub open spec fn find_dcolon(s: Seq<u8>) -> nat
    decreases s.len(),
{
    if s.len() < 2 {
        s.len()
    } else if s[0] == COLON && s[1] == COLON {
        0
    } else {
        1 + find_dcolon(s.drop_first())
    }
}

pub proof fn lemma_find_dcolon_props(s: Seq<u8>)
    ensures
        find_dcolon(s) <= s.len(),
        find_dcolon(s) < s.len() ==> find_dcolon(s) + 2 <= s.len() && s[find_dcolon(s) as int]
            == COLON && s[find_dcolon(s) as int + 1] == COLON,
        forall|j: int|
            0 <= j < find_dcolon(s) && j + 2 <= s.len() ==> !((#[trigger] s[j]) == COLON && s[j
                + 1] == COLON),
    decreases s.len(),
{
    if s.len() >= 2 && !(s[0] == COLON && s[1] == COLON) {
        let t = s.drop_first();
        lemma_find_dcolon_props(t);
        assert forall|j: int|
            0 <= j < find_dcolon(s) && j + 2 <= s.len() implies !((#[trigger] s[j]) == COLON && s[j
            + 1] == COLON) by {
            if j > 0 {
                assert(t[j - 1] == s[j]);
                assert(t[j] == s[j + 1]);
            }
        }
    }
}

/// The eight groups denoted by an IPv6 byte string, if any: either eight
/// colon-separated groups, or a single `"::"` standing for at least one
/// zero group, with at most seven explicit groups around it.
pub open spec fn ipv6_groups(s: Seq<u8>) -> Option<Seq<u16>> {
    let d = find_dcolon(s);
    if d < s.len() {
        let left = s.take(d as int);
        let right = s.skip(d as int + 2);
        let lp = if left.len() == 0 {
            Seq::<Seq<u8>>::empty()
        } else {
            split_on(left, COLON)
        };
        let rp = if right.len() == 0 {
            Seq::<Seq<u8>>::empty()
        } else {
            split_on(right, COLON)
        };
        if groups_ok(lp) && groups_ok(rp) && lp.len() + rp.len() <= 7 {
            Some(
                group_values(lp) + Seq::<u16>::new((8 - lp.len() - rp.len()) as nat, |i: int| 0u16)
                    + group_values(rp),
            )
        } else {
            None
        }
    } else {
        let p = split_on(s, COLON);
        if p.len() == 8 && groups_ok(p) {
            Some(group_values(p))
        } else {
            None
        }
    }
}

pub open spec fn groups_ok(parts: Seq<Seq<u8>>) -> bool {
    forall|k: int| 0 <= k < parts.len() ==> valid_group(parts[k])
}

pub open spec fn group_values(parts: Seq<Seq<u8>>) -> Seq<u16> {
    parts.map_values(|g: Seq<u8>| hex_value(g) as u16)
}

/// The address denoted by an IPv6 byte string, if any.
pub open spec fn ipv6_of(s: Seq<u8>) -> Option<Ipv6> {
    match ipv6_groups(s) {
        Some(g) => Some(
            Ipv6 {
                g0: g[0],
                g1: g[1],
                g2: g[2],
                g3: g[3],
                g4: g[4],
                g5: g[5],
                g6: g[6],
                g7: g[7],
            },
        ),
        None => None,
    }
}

/// Parses the colon-separated parts of one side of an IPv6 string into
/// group values.
fn parse_group_parts(parts: &Vec<Vec<u8>>) -> (r: Option<Vec<u16>>)
    ensures
        match r {
            Some(v) => groups_ok(views(parts@)) && v@ == group_values(views(parts@)),
            None => !groups_ok(views(parts@)),
        },
{
    let mut out: Vec<u16> = Vec::new();
    let mut i: usize = 0;
    while i < parts.len()
        invariant
            i <= parts@.len(),
            out@.len() == i,
            forall|k: int| 0 <= k < i ==> valid_group(parts@[k]@),
            forall|k: int| 0 <= k < i ==> out@[k] as nat == hex_value(parts@[k]@),
        decreases parts@.len() - i,
    {
        match parse_group(parts[i].as_slice()) {
            Some(v) => {
                out.push(v);
            },
            None => {
                proof {
                    assert(views(parts@)[i as int] == parts@[i as int]@);
                }
                return None;
            },
        }
        i += 1;
    }
    proof {
        assert forall|k: int| 0 <= k < views(parts@).len() implies valid_group(
            views(parts@)[k],
        ) by {
            assert(views(parts@)[k] == parts@[k]@);
        }
        assert(out@ =~= group_values(views(parts@)));
    }
    Some(out)
}

pub fn parse_ipv6(s: &[u8]) -> (r: Option<Ipv6>)
    ensures
        r == ipv6_of(s@),
{
    proof {
        lemma_find_dcolon_props(s@);
    }
    let mut found: bool = false;
    let mut d: usize = 0;
    let mut i: usize = 0;
    while i < s.len()
        invariant
            i <= s@.len(),
            !found ==> forall|j: int|
                0 <= j < i && j + 2 <= s@.len() ==> !((#[trigger] s@[j]) == COLON && s@[j + 1]
                    == COLON),
            found ==> d + 2 <= s@.len() && s@[d as int] == COLON && s@[d as int + 1] == COLON
                && (forall|j: int|
                0 <= j < d && j + 2 <= s@.len() ==> !((#[trigger] s@[j]) == COLON && s@[j + 1]
                    == COLON)),
        decreases s@.len() - i,
    {
        if !found && i + 1 < s.len() && s[i] == COLON && s[i + 1] == COLON {
            found = true;
            d = i;
        }
        i += 1;
    }
    proof {
        lemma_find_dcolon_props(s@);
        if found {
            if find_dcolon(s@) < d {
                assert(!(s@[find_dcolon(s@) as int] == COLON && s@[find_dcolon(s@) as int + 1]
                    == COLON));
            }
            assert(find_dcolon(s@) == d);
        } else {
            if find_dcolon(s@) < s@.len() {
                assert(false);
            }
        }
    }
    if !found {
        let parts = split_bytes(s, COLON);
        if parts.len() != 8 {
            return None;
        }
        match parse_group_parts(&parts) {
            Some(v) => {
                return Some(
                    Ipv6 {
                        g0: v[0],
                        g1: v[1],
                        g2: v[2],
                        g3: v[3],
                        g4: v[4],
                        g5: v[5],
                        g6: v[6],
                        g7: v[7],
                    },
                );
            },
            None => {
                return None;
            },
        }
    }
    let left = &s[0..d];
    let right = &s[d + 2..s.len()];
    proof {
        assert(left@ =~= s@.take(d as int));
        assert(right@ =~= s@.skip(d as int + 2));
    }
    let lp: Vec<Vec<u8>> = if left.len() == 0 {
        Vec::new()
    } else {
        split_bytes(left, COLON)
    };
    let rp: Vec<Vec<u8>> = if right.len() == 0 {
        Vec::new()
    } else {
        split_bytes(right, COLON)
    };
    proof {
        if left.len() == 0 {
            assert(views(lp@) =~= Seq::<Seq<u8>>::empty());
        }
        if right.len() == 0 {
            assert(views(rp@) =~= Seq::<Seq<u8>>::empty());
        }
    }
    let lv = match parse_group_parts(&lp) {
        Some(v) => v,
        None => {
            return None;
        },
    };
    let rv = match parse_group_parts(&rp) {
        Some(v) => v,
        None => {
            return None;
        },
    };
    if lv.len() > 7 || rv.len() > 7 - lv.len() {
        return None;
    }
    let mut groups: Vec<u16> = Vec::new();
    let mut i: usize = 0;
    while i < lv.len()
        invariant
            i <= lv@.len(),
            groups@ =~= lv@.take(i as int),
        decreases lv@.len() - i,
    {
        groups.push(lv[i]);
        i += 1;
    }
    let zeros: usize = 8 - lv.len() - rv.len();
    let mut z: usize = 0;
    while z < zeros
        invariant
            z <= zeros,
            groups@ =~= lv@ + Seq::<u16>::new(z as nat, |k: int| 0u16),
        decreases zeros - z,
    {
        proof {
            assert(lv@ + Seq::<u16>::new(z as nat, |k: int| 0u16).push(0u16) =~= (lv@ + Seq::<
                u16,
            >::new((z + 1) as nat, |k: int| 0u16)));
        }
        groups.push(0u16);
        z += 1;
    }
    let mut j: usize = 0;
    let ghost mid: Seq<u16> = groups@;
    while j < rv.len()
        invariant
            j <= rv@.len(),
            groups@ =~= mid + rv@.take(j as int),
        decreases rv@.len() - j,
    {
        groups.push(rv[j]);
        j += 1;
    }
    proof {
        assert(lv@.take(lv@.len() as int) =~= lv@);
        assert(rv@.take(rv@.len() as int) =~= rv@);
        assert(groups@ =~= group_values(views(lp@)) + Seq::<u16>::new(
            (8 - views(lp@).len() - views(rp@).len()) as nat,
            |k: int| 0u16,
        ) + group_values(views(rp@)));
        assert(groups@.len() == 8);
    }
    Some(
        Ipv6 {
            g0: groups[0],
            g1: groups[1],
            g2: groups[2],
            g3: groups[3],
            g4: groups[4],
            g5: groups[5],
            g6: groups[6],
            g7: groups[7],
        },
    )
}

/// The socket address denoted by a byte string, if any: either
/// `"<ipv4>:<port>"` or `"[<ipv6>]:<port>"`.
pub open spec fn sockaddr_of(s: Seq<u8>) -> Option<SockAddr> {
    if s.len() > 0 && s[0] == LBRACKET {
        let q = split_on(s.skip(1), RBRACKET);
        if q.len() == 2 && q[1].len() >= 1 && q[1][0] == COLON {
            match ipv6_of(q[0]) {
                Some(ip) => if valid_port(q[1].skip(1)) {
                    Some(SockAddr { ip: IpAddr::V6(ip), port: dec_value(q[1].skip(1)) as u16 })
                } else {
                    None
                },
                None => None,
            }
        } else {
            None
        }
    } else {
        let p = split_on(s, COLON);
        if p.len() == 2 {
            match ipv4_of(p[0]) {
                Some(ip) => if valid_port(p[1]) {
                    Some(SockAddr { ip: IpAddr::V4(ip), port: dec_value(p[1]) as u16 })
                } else {
                    None
                },
                None => None,
            }
        } else {
            None
        }
    }
}

pub fn parse_sockaddr(s: &[u8]) -> (r: Option<SockAddr>)
    ensures
        r == sockaddr_of(s@),
{
    if s.len() > 0 && s[0] == LBRACKET {
        let inner = &s[1..s.len()];
        proof {
            assert(inner@ =~= s@.skip(1));
        }
        let q = split_bytes(inner, RBRACKET);
        if q.len() != 2 {
            return None;
        }
        let tail = q[1].as_slice();
        if tail.len() == 0 || tail[0] != COLON {
            return None;
        }
        let ip = match parse_ipv6(q[0].as_slice()) {
            Some(ip) => ip,
            None => {
                return None;
            },
        };
        let port_part = &tail[1..tail.len()];
        proof {
            assert(port_part@ =~= q@[1]@.skip(1));
        }
        match parse_port(port_part) {
            Some(port) => Some(SockAddr { ip: IpAddr::V6(ip), port }),
            None => None,
        }
    } else {
        let p = split_bytes(s, COLON);
        if p.len() != 2 {
            return None;
        }
        let ip = match parse_ipv4(p[0].as_slice()) {
            Some(ip) => ip,
            None => {
                return None;
            },
        };
        match parse_port(p[1].as_slice()) {
            Some(port) => Some(SockAddr { ip: IpAddr::V4(ip), port }),
            None => None,
        }
    }
}

} // verus!
