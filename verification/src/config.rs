//! The hot-reloadable configuration snapshot and its builder.
//!
//! The builder turns the four raw entry sets fetched from the policy
//! store into one immutable, fully validated `Config`. Filtering degrades
//! silently when its prerequisites are not met; an unusable forwarder or
//! bind set is fatal to the build.

use vstd::prelude::*;

use crate::addr::{ipv4_of, ipv6_of, parse_ipv4, parse_ipv6, parse_sockaddr, sockaddr_of, Ipv4,
    Ipv6, SockAddr};
use crate::text::{push_all, views};

verus! {

/// The byte `'_'`.
pub const UNDERSCORE: u8 = 95;

/// Why a configuration build failed. Everything else degrades; only a
/// missing or wholly invalid forwarder set, or a missing bind set, is
/// fatal.
#[derive(Clone, Copy, Debug, PartialEq, Eq, Structural)]
pub enum ConfigBuildError {
    ForwardersMissing,
    NoValidForwarders,
    BindsMissing,
}

/// One immutable configuration snapshot.
#[derive(Clone, Debug, PartialEq, Eq)]
pub struct Config {
    pub daemon_id: Vec<u8>,
    pub forwarders: Vec<SockAddr>,
    pub binds: Vec<Vec<u8>>,
    pub is_filtering: bool,
    pub matchclasses: Option<Vec<Vec<u8>>>,
    pub blackhole_ips: Option<(Ipv4, Ipv6)>,
}

impl Config {
    /// Filtering is never partially enabled: it is on exactly when both
    /// the blackhole pair and a non-empty matchclass set are present,
    /// and a built configuration always has at least one forwarder and
    /// one bind.
    pub open spec fn wf(self) -> bool {
        &&& self.is_filtering == (self.blackhole_ips is Some && self.matchclasses is Some)
        &&& self.forwarders@.len() > 0
        &&& self.binds@.len() > 0
        &&& (self.matchclasses matches Some(m) ==> m@.len() > 0)
    }
}

/// The blackhole pair denoted by a fetched entry set: present exactly
/// when there are two entries, the first an IPv4 address and the second
/// an IPv6 address.
pub open spec fn blackhole_of(entries: Seq<Seq<u8>>) -> Option<(Ipv4, Ipv6)> {
    if entries.len() == 2 {
        match (ipv4_of(entries[0]), ipv6_of(entries[1])) {
            (Some(v4), Some(v6)) => Some((v4, v6)),
            _ => None,
        }
    } else {
        None
    }
}

pub fn blackhole_pair(entries: &Vec<Vec<u8>>) -> (r: Option<(Ipv4, Ipv6)>)
    ensures
        r == blackhole_of(views(entries@)),
{
    if entries.len() != 2 {
        return None;
    }
    let v4 = parse_ipv4(entries[0].as_slice());
    let v6 = parse_ipv6(entries[1].as_slice());
    match (v4, v6) {
        (Some(a), Some(b)) => Some((a, b)),
        _ => None,
    }
}

/// The forwarder entries that parse as socket addresses, in order.
pub open spec fn parsed_forwarders(entries: Seq<Seq<u8>>) -> Seq<SockAddr>
    decreases entries.len(),
{
    if entries.len() == 0 {
        Seq::empty()
    } else {
        let rest = parsed_forwarders(entries.drop_last());
        match sockaddr_of(entries.last()) {
            Some(a) => rest.push(a),
            None => rest,
        }
    }
}

pub fn parse_forwarders(entries: &Vec<Vec<u8>>) -> (r: Vec<SockAddr>)
    ensures
        r@ == parsed_forwarders(views(entries@)),
{
    let mut out: Vec<SockAddr> = Vec::new();
    let mut i: usize = 0;
    proof {
        assert(views(entries@).take(0) =~= Seq::<Seq<u8>>::empty());
    }
    while i < entries.len()
        invariant
            i <= entries@.len(),
            out@ == parsed_forwarders(views(entries@).take(i as int)),
        decreases entries@.len() - i,
    {
        proof {
            assert(views(entries@).take(i as int + 1).drop_last() =~= views(entries@).take(
                i as int,
            ));
            assert(views(entries@).take(i as int + 1).last() == entries@[i as int]@);
        }
        match parse_sockaddr(entries[i].as_slice()) {
            Some(a) => {
                out.push(a);
            },
            None => {},
        }
        i += 1;
    }
    proof {
        assert(views(entries@).take(entries@.len() as int) =~= views(entries@));
    }
    out
}

/// Builds one configuration snapshot from the four raw entry sets
/// fetched from the policy store.
///
/// Filtering is enabled exactly when the blackhole entries form a valid
/// pair and at least one matchclass was fetched; otherwise both optional
/// fields stay absent. Forwarder entries that do not parse are dropped.
/// The build fails exactly when no forwarder entry was fetched, none
/// parsed, or no bind entry was fetched.
pub fn build_config(
    daemon_id: Vec<u8>,
    blackhole_entries: &Vec<Vec<u8>>,
    matchclass_entries: Vec<Vec<u8>>,
    forwarder_entries: &Vec<Vec<u8>>,
    bind_entries: Vec<Vec<u8>>,
) -> (r: Result<Config, ConfigBuildError>)
    ensures
        r is Err <==> (forwarder_entries@.len() == 0 || parsed_forwarders(
            views(forwarder_entries@),
        ).len() == 0 || bind_entries@.len() == 0),
        r == Result::<Config, ConfigBuildError>::Err(ConfigBuildError::ForwardersMissing)
            <==> forwarder_entries@.len() == 0,
        r == Result::<Config, ConfigBuildError>::Err(ConfigBuildError::NoValidForwarders)
            <==> (forwarder_entries@.len() > 0 && parsed_forwarders(views(forwarder_entries@)).len()
            == 0),
        r == Result::<Config, ConfigBuildError>::Err(ConfigBuildError::BindsMissing)
            <==> (forwarder_entries@.len() > 0 && parsed_forwarders(views(forwarder_entries@)).len()
            > 0 && bind_entries@.len() == 0),
        r matches Ok(c) ==> {
            &&& c.wf()
            &&& c.daemon_id@ == daemon_id@
            &&& c.forwarders@ == parsed_forwarders(views(forwarder_entries@))
            &&& views(c.binds@) == views(bind_entries@)
            &&& c.is_filtering == (blackhole_of(views(blackhole_entries@)) is Some
                && matchclass_entries@.len() > 0)
            &&& c.blackhole_ips == (if c.is_filtering {
                blackhole_of(views(blackhole_entries@))
            } else {
                None::<(Ipv4, Ipv6)>
            })
            &&& (if c.is_filtering {
                c.matchclasses matches Some(m) && views(m@) == views(matchclass_entries@)
            } else {
                c.matchclasses is None
            })
        },
{
    let bh = blackhole_pair(blackhole_entries);
    let filtering = bh.is_some() && matchclass_entries.len() > 0;
    if forwarder_entries.len() == 0 {
        return Err(ConfigBuildError::ForwardersMissing);
    }
    let forwarders = parse_forwarders(forwarder_entries);
    if forwarders.len() == 0 {
        return Err(ConfigBuildError::NoValidForwarders);
    }
    if bind_entries.len() == 0 {
        return Err(ConfigBuildError::BindsMissing);
    }
    Ok(
        Config {
            daemon_id,
            forwarders,
            binds: bind_entries,
            is_filtering: filtering,
            matchclasses: if filtering {
                Some(matchclass_entries)
            } else {
                None
            },
            blackhole_ips: if filtering {
                bh
            } else {
                None
            },
        },
    )
}

/// The four entry-set kinds the policy store holds per daemon.
#[derive(Clone, Copy, Debug, PartialEq, Eq, Structural)]
pub enum SetKind {
    Forwarders,
    Binds,
    Matchclasses,
    BlackholeIps,
}

/// The name of a kind as it appears in store keys.
pub open spec fn kind_label(k: SetKind) -> Seq<u8> {
    match k {
        // "forwarders"
        SetKind::Forwarders => seq![102u8, 111u8, 114u8, 119u8, 97u8, 114u8, 100u8, 101u8, 114u8,
            115u8],
        // "binds"
        SetKind::Binds => seq![98u8, 105u8, 110u8, 100u8, 115u8],
        // "matchclasses"
        SetKind::Matchclasses => seq![109u8, 97u8, 116u8, 99u8, 104u8, 99u8, 108u8, 97u8, 115u8,
            115u8, 101u8, 115u8],
        // "blackhole_ips"
        SetKind::BlackholeIps => seq![98u8, 108u8, 97u8, 99u8, 107u8, 104u8, 111u8, 108u8, 101u8,
            95u8, 105u8, 112u8, 115u8],
    }
}

fn kind_bytes(k: SetKind) -> (r: Vec<u8>)
    ensures
        r@ == kind_label(k),
{
    let v: Vec<u8> = match k {
        SetKind::Forwarders => vec![102u8, 111u8, 114u8, 119u8, 97u8, 114u8, 100u8, 101u8, 114u8,
            115u8],
        SetKind::Binds => vec![98u8, 105u8, 110u8, 100u8, 115u8],
        SetKind::Matchclasses => vec![109u8, 97u8, 116u8, 99u8, 104u8, 99u8, 108u8, 97u8, 115u8,
            115u8, 101u8, 115u8],
        SetKind::BlackholeIps => vec![98u8, 108u8, 97u8, 99u8, 107u8, 104u8, 111u8, 108u8, 101u8,
            95u8, 105u8, 112u8, 115u8],
    };
    proof {
        assert(v@ =~= kind_label(k));
    }
    v
}

/// The store key of one entry set: the kind's name, an underscore, and
/// the daemon identifier.
pub fn set_key(kind: SetKind, daemon_id: &[u8]) -> (r: Vec<u8>)
    ensures
        r@ == kind_label(kind) + seq![UNDERSCORE] + daemon_id@,
{
    let mut r = kind_bytes(kind);
    r.push(UNDERSCORE);
    proof {
        assert(r@ =~= kind_label(kind) + seq![UNDERSCORE]);
    }
    push_all(&mut r, daemon_id);
    r
}

} // verus!
