//! Choosing among the addresses a receiver advertises, and the order in which
//! the sender tries the addresses a host name resolves to.

use vstd::prelude::*;

verus! {

/// An IP address: IPv4 as its 32-bit value, IPv6 as its 128-bit value.
#[derive(Clone, Copy, PartialEq, Eq, Debug, Structural)]
pub enum IpAddr {
    V4(u32),
    V6(u128),
}

/// An IP address with a port.
#[derive(Clone, Copy, PartialEq, Eq, Debug, Structural)]
pub struct SocketAddr {
    pub ip: IpAddr,
    pub port: u16,
}

/// The 32-bit value of four IPv4 octets.
pub open spec fn v4_value(a: u8, b: u8, c: u8, d: u8) -> u32 {
    (a * 16777216 + b * 65536 + c * 256 + d) as u32
}

/// The 128-bit value of eight IPv6 segments.
pub open spec fn v6_value(s: Seq<u16>) -> u128
    recommends
        s.len() == 8,
{
    (s[0] * 0x1_0000_0000_0000_0000_0000_0000_0000 + s[1] * 0x1_0000_0000_0000_0000_0000_0000
        + s[2] * 0x1_0000_0000_0000_0000_0000 + s[3] * 0x1_0000_0000_0000_0000 + s[4]
        * 0x1_0000_0000_0000 + s[5] * 0x1_0000_0000 + s[6] * 0x1_0000 + s[7]) as u128
}

impl IpAddr {
    /// An IPv4 address from its octets.
    pub fn v4(a: u8, b: u8, c: u8, d: u8) -> (r: IpAddr)
        ensures
            r == IpAddr::V4(v4_value(a, b, c, d)),
    {
        IpAddr::V4((a as u32) * 16777216 + (b as u32) * 65536 + (c as u32) * 256 + (d as u32))
    }

    /// An IPv6 address from its eight segments.
    pub fn v6(s: [u16; 8]) -> (r: IpAddr)
        ensures
            r == IpAddr::V6(v6_value(s@)),
    {
        IpAddr::V6(
            (s[0] as u128) * 0x1_0000_0000_0000_0000_0000_0000_0000 + (s[1] as u128)
                * 0x1_0000_0000_0000_0000_0000_0000 + (s[2] as u128) * 0x1_0000_0000_0000_0000_0000
                + (s[3] as u128) * 0x1_0000_0000_0000_0000 + (s[4] as u128) * 0x1_0000_0000_0000 + (
            s[5] as u128) * 0x1_0000_0000 + (s[6] as u128) * 0x1_0000 + (s[7] as u128),
        )
    }
}

/// 127.0.0.0/8 or ::1.
pub open spec fn is_loopback(a: IpAddr) -> bool {
    match a {
        IpAddr::V4(x) => x / 16777216 == 127,
        IpAddr::V6(x) => x == 1,
    }
}

/// 169.254.0.0/16: an interface that never got a lease.
pub open spec fn is_v4_link_local(x: u32) -> bool {
    x / 65536 == 0xA9FE
}

/// fe80::/10: meaningless without a scope id.
pub open spec fn is_v6_link_local(x: u128) -> bool {
    0xfe80 <= x / 0x1_0000_0000_0000_0000_0000_0000_0000 <= 0xfebf
}

/// How likely an advertised address is to reach the peer; lower is better.
/// Loopback is never the peer (3); link-local addresses rarely work (2); any
/// other IPv4 (0) beats any other IPv6 (1).
pub open spec fn rank_of(a: IpAddr) -> u8 {
    if is_loopback(a) {
        3
    } else {
        match a {
            IpAddr::V4(x) => if is_v4_link_local(x) {
                2
            } else {
                0
            },
            IpAddr::V6(x) => if is_v6_link_local(x) {
                2
            } else {
                1
            },
        }
    }
}

/// Rank an advertised address; lower is better.
pub fn addr_rank(a: &IpAddr) -> (r: u8)
    ensures
        r == rank_of(*a),
{
    match a {
        IpAddr::V4(x) => {
            if *x / 16777216 == 127 {
                3
            } else if *x / 65536 == 0xA9FE {
                2
            } else {
                0
            }
        },
        IpAddr::V6(x) => {
            if *x == 1 {
                3
            } else {
                let top = *x / 0x1_0000_0000_0000_0000_0000_0000_0000;
                if 0xfe80 <= top && top <= 0xfebf {
                    2
                } else {
                    1
                }
            }
        },
    }
}

/// The address order std uses: every IPv4 before every IPv6, then by value.
pub open spec fn addr_lt(a: IpAddr, b: IpAddr) -> bool {
    match (a, b) {
        (IpAddr::V4(x), IpAddr::V4(y)) => x < y,
        (IpAddr::V4(_), IpAddr::V6(_)) => true,
        (IpAddr::V6(_), IpAddr::V4(_)) => false,
        (IpAddr::V6(x), IpAddr::V6(y)) => x < y,
    }
}

/// `a` comes strictly before `b` when ranked, ties broken by the address.
pub open spec fn pick_lt(a: IpAddr, b: IpAddr) -> bool {
    rank_of(a) < rank_of(b) || (rank_of(a) == rank_of(b) && addr_lt(a, b))
}

/// `a` is the address to dial out of `s`: one of them, and no other comes
/// before it.
pub open spec fn is_pick(s: Seq<IpAddr>, a: IpAddr) -> bool {
    s.contains(a) && forall|i: int| 0 <= i < s.len() ==> !pick_lt(#[trigger] s[i], a)
}

fn pick_less(a: &IpAddr, b: &IpAddr) -> (r: bool)
    ensures
        r == pick_lt(*a, *b),
{
    let ra = addr_rank(a);
    let rb = addr_rank(b);
    if ra != rb {
        return ra < rb;
    }
    match (a, b) {
        (IpAddr::V4(x), IpAddr::V4(y)) => *x < *y,
        (IpAddr::V4(_), IpAddr::V6(_)) => true,
        (IpAddr::V6(_), IpAddr::V4(_)) => false,
        (IpAddr::V6(x), IpAddr::V6(y)) => *x < *y,
    }
}

/// Pick the address to dial out of everything a receiver advertised: the
/// best-ranked, ties broken on the address so the choice does not depend on
/// the order they arrived in. `None` only for an empty list: a lone bad
/// address is still returned.
pub fn pick_service_addr(addrs: &[IpAddr]) -> (r: Option<IpAddr>)
    ensures
        r is None <==> addrs@.len() == 0,
        r matches Some(a) ==> is_pick(addrs@, a),
{
    if addrs.len() == 0 {
        return None;
    }
    let mut best = addrs[0];
    let mut i: usize = 1;
    while i < addrs.len()
        invariant
            1 <= i <= addrs@.len(),
            addrs@.contains(best),
            forall|j: int| 0 <= j < i ==> !pick_lt(#[trigger] addrs@[j], best),
        decreases addrs@.len() - i,
    {
        if pick_less(&addrs[i], &best) {
            best = addrs[i];
        }
        i += 1;
    }
    Some(best)
}

/// The pick does not depend on the order the addresses arrive in, nor on
/// repeats: two lists holding the same addresses give the same pick.
pub proof fn lemma_pick_order_independent(s: Seq<IpAddr>, t: Seq<IpAddr>, a: IpAddr, b: IpAddr)
    requires
        forall|x: IpAddr| s.contains(x) <==> t.contains(x),
        is_pick(s, a),
        is_pick(t, b),
    ensures
        a == b,
{
    assert(t.contains(a));
    assert(s.contains(b));
    let i = choose|i: int| 0 <= i < t.len() && t[i] == a;
    let j = choose|j: int| 0 <= j < s.len() && s[j] == b;
    assert(!pick_lt(t[i], b));
    assert(!pick_lt(s[j], a));
    match (a, b) {
        (IpAddr::V4(x), IpAddr::V4(y)) => {},
        (IpAddr::V6(x), IpAddr::V6(y)) => {},
        _ => {},
    }
}

/// `a` is the smallest of `s` in std's address order: one of them, and no
/// other comes before it.
pub open spec fn is_least(s: Seq<IpAddr>, a: IpAddr) -> bool {
    s.contains(a) && forall|i: int| 0 <= i < s.len() ==> !addr_lt(#[trigger] s[i], a)
}

fn addr_less(a: &IpAddr, b: &IpAddr) -> (r: bool)
    ensures
        r == addr_lt(*a, *b),
{
    match (a, b) {
        (IpAddr::V4(x), IpAddr::V4(y)) => *x < *y,
        (IpAddr::V4(_), IpAddr::V6(_)) => true,
        (IpAddr::V6(_), IpAddr::V4(_)) => false,
        (IpAddr::V6(x), IpAddr::V6(y)) => *x < *y,
    }
}

/// The address the settings window lists and stores for a receiver: the
/// smallest IPv4 address if there is one (people recognize those), else the
/// smallest address; taking the smallest keeps the choice the same however
/// often the receiver is resolved again. `None` only for an empty list.
pub fn pick_ipv4_first(addrs: &[IpAddr]) -> (r: Option<IpAddr>)
    ensures
        r is None <==> addrs@.len() == 0,
        r matches Some(a) ==> is_least(addrs@, a),
        // an IPv4 address, whenever there is one
        r matches Some(a) ==> ((exists|i: int| 0 <= i < addrs@.len() && #[trigger] addrs@[i] is V4) ==> a is V4),
{
    if addrs.len() == 0 {
        return None;
    }
    let mut best = addrs[0];
    let mut i: usize = 1;
    while i < addrs.len()
        invariant
            1 <= i <= addrs@.len(),
            addrs@.contains(best),
            forall|j: int| 0 <= j < i ==> !addr_lt(#[trigger] addrs@[j], best),
        decreases addrs@.len() - i,
    {
        if addr_less(&addrs[i], &best) {
            best = addrs[i];
        }
        i += 1;
    }
    proof {
        if exists|i: int| 0 <= i < addrs@.len() && #[trigger] addrs@[i] is V4 {
            let k = choose|i: int| 0 <= i < addrs@.len() && #[trigger] addrs@[i] is V4;
            assert(!addr_lt(addrs@[k], best));
        }
    }
    Some(best)
}

/// The listed address is stable across re-resolves: two lists holding the
/// same addresses, in any order and with any repeats, give the same one.
pub proof fn lemma_least_order_independent(s: Seq<IpAddr>, t: Seq<IpAddr>, a: IpAddr, b: IpAddr)
    requires
        forall|x: IpAddr| s.contains(x) <==> t.contains(x),
        is_least(s, a),
        is_least(t, b),
    ensures
        a == b,
{
    assert(t.contains(a));
    assert(s.contains(b));
    let i = choose|i: int| 0 <= i < t.len() && t[i] == a;
    let j = choose|j: int| 0 <= j < s.len() && s[j] == b;
    assert(!addr_lt(t[i], b));
    assert(!addr_lt(s[j], a));
}

// ----- the sender's connect order -----

/// Try-order within one resolved host: IPv4 first (the receiver binds IPv4),
/// then IPv6, then link-local IPv6, loopback last.
pub open spec fn connect_rank(a: SocketAddr) -> u8 {
    match a.ip {
        IpAddr::V4(_) => 0,
        IpAddr::V6(x) => if x == 1 {
            3
        } else if is_v6_link_local(x) {
            2
        } else {
            1
        },
    }
}

fn connect_rank_exec(a: &SocketAddr) -> (r: u8)
    ensures
        r == connect_rank(*a),
{
    match a.ip {
        IpAddr::V4(_) => 0,
        IpAddr::V6(x) => {
            if x == 1 {
                3
            } else {
                let top = x / 0x1_0000_0000_0000_0000_0000_0000_0000;
                if 0xfe80 <= top && top <= 0xfebf {
                    2
                } else {
                    1
                }
            }
        },
    }
}

/// The addresses of rank `k`, in their original order.
pub open spec fn with_rank(s: Seq<SocketAddr>, k: u8) -> Seq<SocketAddr> {
    s.filter(|a: SocketAddr| connect_rank(a) == k)
}

/// A stable sort by `connect_rank`: all rank-0 addresses in resolver order,
/// then rank 1, 2 and 3.
pub open spec fn connect_order(s: Seq<SocketAddr>) -> Seq<SocketAddr> {
    with_rank(s, 0) + with_rank(s, 1) + with_rank(s, 2) + with_rank(s, 3)
}

/// Order resolved addresses for connecting: by rank, keeping the resolver's
/// order among equals.
pub fn order_for_connect(addrs: &[SocketAddr]) -> (v: Vec<SocketAddr>)
    ensures
        v@ == connect_order(addrs@),
{
    let mut out: Vec<SocketAddr> = Vec::new();
    let mut k: u8 = 0;
    while k < 4
        invariant
            k <= 4,
            out@ == (if k == 0 {
                Seq::<SocketAddr>::empty()
            } else if k == 1 {
                with_rank(addrs@, 0)
            } else if k == 2 {
                with_rank(addrs@, 0) + with_rank(addrs@, 1)
            } else if k == 3 {
                with_rank(addrs@, 0) + with_rank(addrs@, 1) + with_rank(addrs@, 2)
            } else {
                connect_order(addrs@)
            }),
        decreases 4 - k,
    {
        let ghost before = out@;
        let mut i: usize = 0;
        while i < addrs.len()
            invariant
                k < 4,
                i <= addrs@.len(),
                out@ == before + addrs@.subrange(0, i as int).filter(|a: SocketAddr| connect_rank(a) == k),
            decreases addrs@.len() - i,
        {
            proof {
                reveal(Seq::filter);
                assert(addrs@.subrange(0, i + 1).drop_last() =~= addrs@.subrange(0, i as int));
            }
            if connect_rank_exec(&addrs[i]) == k {
                out.push(addrs[i]);
            }
            i += 1;
        }
        assert(addrs@.subrange(0, addrs@.len() as int) =~= addrs@);
        k += 1;
    }
    out
}

/// Connecting order is sorted by rank: an earlier address never ranks higher.
pub proof fn lemma_connect_order_sorted(s: Seq<SocketAddr>, i: int, j: int)
    requires
        0 <= i <= j < connect_order(s).len(),
    ensures
        connect_rank(connect_order(s)[i]) <= connect_rank(connect_order(s)[j]),
{
    let b0 = with_rank(s, 0);
    let b1 = with_rank(s, 1);
    let b2 = with_rank(s, 2);
    let b3 = with_rank(s, 3);
    let o = connect_order(s);
    assert forall|k: int| 0 <= k < o.len() implies connect_rank(#[trigger] o[k]) == (if k
        < b0.len() {
        0u8
    } else if k < b0.len() + b1.len() {
        1u8
    } else if k < b0.len() + b1.len() + b2.len() {
        2u8
    } else {
        3u8
    }) by {
        if k < b0.len() {
            s.lemma_filter_pred(|a: SocketAddr| connect_rank(a) == 0, k);
        } else if k < b0.len() + b1.len() {
            s.lemma_filter_pred(|a: SocketAddr| connect_rank(a) == 1, k - b0.len());
        } else if k < b0.len() + b1.len() + b2.len() {
            s.lemma_filter_pred(|a: SocketAddr| connect_rank(a) == 2, k - b0.len() - b1.len());
        } else {
            s.lemma_filter_pred(|a: SocketAddr| connect_rank(a) == 3, k - b0.len() - b1.len() - b2.len());
        }
    }
    assert(connect_rank(o[i]) == connect_rank(o[i]));
    assert(connect_rank(o[j]) == connect_rank(o[j]));
}

/// A LAN address worth showing the user: not loopback, not 169.254/16, not
/// 0.0.0.0.
pub fn usable_lan_ipv4(x: u32) -> (b: bool)
    ensures
        b == (!is_loopback(IpAddr::V4(x)) && !is_v4_link_local(x) && x != 0),
{
    !(x / 16777216 == 127) && !(x / 65536 == 0xA9FE) && x != 0
}

}
