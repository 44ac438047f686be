//! The addresses that a receiver is reached at.

use vstd::prelude::*;

use crate::device::IpAddress;
use crate::text::{trim, trimmed};

verus! {

/// The variable of the environment that names the interface to announce on.
pub const ADVERTISE_INTERFACE_VAR: &'static str = "FERRICAST_CAST_INTERFACE";

/// The address 127.0.0.1.
pub const LOOPBACK: u32 = 0x7f00_0001;

/// The value of the variable without white space around it; nothing where that
/// leaves nothing.
pub fn interface_override(value: Option<&str>) -> (chosen: Option<String>)
    ensures
        match chosen {
            Some(s) => (value matches Some(v) && s@ == trimmed(v@)) && s@.len() > 0,
            None => value matches Some(v) ==> trimmed(v@).len() == 0,
        },
{
    match value {
        None => None,
        Some(v) => {
            let s: String = trim(v);
            if s.as_str().unicode_len() == 0 {
                None
            } else {
                Some(s)
            }
        },
    }
}

/// Whether the address stands for none, or for this machine alone.
pub open spec fn is_local(addr: IpAddress) -> bool {
    match addr {
        IpAddress::V4(a) => a == 0 || a / 0x100_0000 == 127,
        IpAddress::V6(a) => a == 0 || a == 1,
    }
}

/// The source address of the default route, where it can be announced: an
/// address of version four that other machines can reach.
pub fn default_route_ipv4(addr: IpAddress) -> (out: Option<IpAddress>)
    ensures
        out == if addr is V4 && !is_local(addr) {
            Some(addr)
        } else {
            None
        },
{
    match addr {
        IpAddress::V4(a) => {
            if a == 0 || a / 0x100_0000 == 127 {
                None
            } else {
                Some(addr)
            }
        },
        IpAddress::V6(_) => None,
    }
}

/// `ips` with `ip` behind it, unless it holds it.
pub open spec fn added(ips: Seq<IpAddress>, ip: Option<IpAddress>) -> Seq<IpAddress> {
    match ip {
        Some(a) => if ips.contains(a) {
            ips
        } else {
            ips.push(a)
        },
        None => ips,
    }
}

fn add_ip(ips: &mut Vec<IpAddress>, ip: Option<IpAddress>)
    ensures
        final(ips)@ == added(old(ips)@, ip),
{
    match ip {
        None => {},
        Some(a) => {
            let mut i: usize = 0;
            while i < ips.len()
                invariant
                    i <= ips@.len(),
                    ips@ == old(ips)@,
                    forall|k: int| 0 <= k < i ==> ips@[k] != a,
                    ip == Some(a),
                decreases ips@.len() - i,
            {
                if ips[i] == a {
                    assert(ips@.contains(a));
                    return ;
                }
                i = i + 1;
            }
            ips.push(a);
        },
    }
}

/// The address that was chosen, where it is one of version four; any other
/// choice counts as none.
pub open spec fn chosen_ipv4(chosen: Option<IpAddress>) -> Option<IpAddress> {
    match chosen {
        Some(IpAddress::V4(a)) => Some(IpAddress::V4(a)),
        _ => None,
    }
}

/// The addresses of the receiver, the most wanted first: the one that was
/// chosen, where it is of version four, the one of the default route, and the
/// machine's own.
pub open spec fn advertise_ips(
    chosen: Option<IpAddress>,
    route: Option<IpAddress>,
) -> Seq<IpAddress> {
    added(added(added(Seq::empty(), chosen_ipv4(chosen)), route), Some(IpAddress::V4(LOOPBACK)))
}

/// The addresses of the receiver, the most wanted first.
pub fn detect_advertise_ips(chosen: Option<IpAddress>, route: Option<IpAddress>) -> (ips: Vec<
    IpAddress,
>)
    ensures
        ips@ == advertise_ips(chosen, route),
{
    let mut ips: Vec<IpAddress> = Vec::new();
    assert(ips@ =~= Seq::empty());
    let first: Option<IpAddress> = match chosen {
        Some(IpAddress::V4(a)) => Some(IpAddress::V4(a)),
        _ => None,
    };
    add_ip(&mut ips, first);
    add_ip(&mut ips, route);
    add_ip(&mut ips, Some(IpAddress::V4(LOOPBACK)));
    ips
}

/// No address is listed twice, the machine's own always is, the chosen one
/// comes first where it is of version four, and any other choice changes
/// nothing.
pub proof fn advertised_ips_are_distinct(chosen: Option<IpAddress>, route: Option<IpAddress>)
    ensures
        advertise_ips(chosen, route).no_duplicates(),
        advertise_ips(chosen, route).contains(IpAddress::V4(LOOPBACK)),
        chosen matches Some(IpAddress::V4(a)) ==> advertise_ips(chosen, route)[0] == IpAddress::V4(
            a,
        ),
        !(chosen matches Some(IpAddress::V4(_))) ==> advertise_ips(chosen, route) == advertise_ips(
            None,
            route,
        ),
        route matches Some(a) ==> advertise_ips(chosen, route).contains(a),
{
    let none = Seq::<IpAddress>::empty();
    let one = added(none, chosen_ipv4(chosen));
    let two = added(one, route);
    let all = added(two, Some(IpAddress::V4(LOOPBACK)));
    if two.contains(IpAddress::V4(LOOPBACK)) {
    } else {
        assert(all.last() == IpAddress::V4(LOOPBACK));
    }
    if let Some(a) = route {
        if !one.contains(a) {
            assert(two.last() == a);
        }
        assert(two.contains(a));
        let i = choose|i: int| 0 <= i < two.len() && two[i] == a;
        assert(all[i] == a);
    }
}

/// An address that no other machine can reach: none at all, one of the network
/// 127 or, in version six, the one of the machine itself. Such an address of the
/// default route is not announced.
pub proof fn local_addresses_are_not_announced(a: u32, b: u128)
    ensures
        is_local(IpAddress::V4(a)) == (a == 0 || 0x7f00_0000 <= a <= 0x7fff_ffff),
        is_local(IpAddress::V6(b)) == (b <= 1),
        LOOPBACK == 0x7f00_0001,
        ADVERTISE_INTERFACE_VAR@ == "FERRICAST_CAST_INTERFACE"@,
{
}

/// Without a choice the address of the default route comes first, and the
/// machine's own comes last of all.
pub proof fn route_comes_before_the_machine(chosen: u32, route: IpAddress)
    ensures
        advertise_ips(None, Some(route))[0] == route,
        advertise_ips(None, None) == seq![IpAddress::V4(0x7f00_0001)],
        IpAddress::V4(chosen) != route && chosen != 0x7f00_0001 && route != IpAddress::V4(
            0x7f00_0001,
        ) ==> advertise_ips(Some(IpAddress::V4(chosen)), Some(route)) == seq![
            IpAddress::V4(chosen),
            route,
            IpAddress::V4(0x7f00_0001),
        ],
{
    let none = Seq::<IpAddress>::empty();
    assert(!none.contains(route));
    assert(added(none, Some(route)) =~= seq![route]);
    assert(advertise_ips(None, None) =~= seq![IpAddress::V4(0x7f00_0001)]);
    let one = added(none, Some(IpAddress::V4(chosen)));
    assert(one =~= seq![IpAddress::V4(chosen)]);
}

} // verus!
