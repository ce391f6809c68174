//! Socket addresses, their order, and lists of them.
use vstd::prelude::*;

verus! {

/// The address of a socket, the IP address as a number whose highest byte is its first.
#[derive(Debug, Clone, Copy, PartialEq, Eq, Structural)]
pub enum SocketAddr {
    V4 { ip: u32, port: u16 },
    V6 { ip6: u128, port: u16, flowinfo: u32, scope_id: u32 },
}

/// The IPv4 loopback address, 127.0.0.1.
pub const LOCALHOST: u32 = 0x7f00_0001;

/// The plain address with the IP address of `addr` and the port `port`.
pub open spec fn at_port(addr: SocketAddr, port: u16) -> SocketAddr {
    match addr {
        SocketAddr::V4 { ip, .. } => SocketAddr::V4 { ip, port },
        SocketAddr::V6 { ip6, .. } => SocketAddr::V6 { ip6, port, flowinfo: 0, scope_id: 0 },
    }
}

/// The order of addresses: IPv4 before IPv6, then by IP address, by port, by flow information
/// and by scope.
pub open spec fn before(a: SocketAddr, b: SocketAddr) -> bool {
    match (a, b) {
        (SocketAddr::V4 { ip: ip1, port: port1 }, SocketAddr::V4 { ip: ip2, port: port2 }) => {
            ip1 < ip2 || ip1 == ip2 && port1 < port2
        },
        (SocketAddr::V4 { .. }, SocketAddr::V6 { .. }) => true,
        (SocketAddr::V6 { .. }, SocketAddr::V4 { .. }) => false,
        (
            SocketAddr::V6 { ip6: ip1, port: port1, flowinfo: flow1, scope_id: scope1 },
            SocketAddr::V6 { ip6: ip2, port: port2, flowinfo: flow2, scope_id: scope2 },
        ) => {
            ip1 < ip2 || ip1 == ip2 && (port1 < port2 || port1 == port2 && (flow1 < flow2 || flow1
                == flow2 && scope1 < scope2))
        },
    }
}

/// Each address of `list` comes before those that follow it.
pub open spec fn ascending(list: Seq<SocketAddr>) -> bool {
    forall|i: int, j: int| 0 <= i < j < list.len() ==> before(#[trigger] list[i], #[trigger] list[j])
}

impl SocketAddr {
    /// The plain address with this one's IP address and the port `port`.
    pub fn at_port(self, port: u16) -> (addr: SocketAddr)
        ensures
            addr == at_port(self, port),
    {
        match self {
            SocketAddr::V4 { ip, .. } => SocketAddr::V4 { ip, port },
            SocketAddr::V6 { ip6, .. } => SocketAddr::V6 { ip6, port, flowinfo: 0, scope_id: 0 },
        }
    }

    /// Whether this address comes before `other`.
    pub fn is_before(&self, other: &SocketAddr) -> (earlier: bool)
        ensures
            earlier == before(*self, *other),
    {
        match (*self, *other) {
            (SocketAddr::V4 { ip: ip1, port: port1 }, SocketAddr::V4 { ip: ip2, port: port2 }) => {
                ip1 < ip2 || (ip1 == ip2 && port1 < port2)
            },
            (SocketAddr::V4 { .. }, SocketAddr::V6 { .. }) => true,
            (SocketAddr::V6 { .. }, SocketAddr::V4 { .. }) => false,
            (
                SocketAddr::V6 { ip6: ip1, port: port1, flowinfo: flow1, scope_id: scope1 },
                SocketAddr::V6 { ip6: ip2, port: port2, flowinfo: flow2, scope_id: scope2 },
            ) => {
                ip1 < ip2 || (ip1 == ip2 && (port1 < port2 || (port1 == port2 && (flow1 < flow2 || (
                flow1 == flow2 && scope1 < scope2)))))
            },
        }
    }
}

/// Whether `addr` is in `list`.
pub fn contains_address(list: &Vec<SocketAddr>, addr: SocketAddr) -> (found: bool)
    ensures
        found == list@.contains(addr),
{
    let mut i: usize = 0;
    while i < list.len()
        invariant
            i <= list.len(),
            forall|k: int| 0 <= k < i ==> list@[k] != addr,
        decreases list.len() - i,
    {
        if list[i] == addr {
            return true;
        }
        i = i + 1;
    }
    false
}

/// Whether the two lists are the same.
pub fn same_addresses(a: &Vec<SocketAddr>, b: &Vec<SocketAddr>) -> (same: bool)
    ensures
        same == (a@ == b@),
{
    if a.len() != b.len() {
        return false;
    }
    let mut i: usize = 0;
    while i < a.len()
        invariant
            i <= a.len(),
            a.len() == b.len(),
            forall|k: int| 0 <= k < i ==> a@[k] == b@[k],
        decreases a.len() - i,
    {
        if a[i] != b[i] {
            return false;
        }
        i = i + 1;
    }
    assert(a@ =~= b@);
    true
}

/// Puts `addr` in its place in an ascending list, unless it is there already.
fn insert_in_order(list: &mut Vec<SocketAddr>, addr: SocketAddr)
    requires
        ascending(old(list)@),
    ensures
        ascending(final(list)@),
        forall|a: SocketAddr| #[trigger]
            final(list)@.contains(a) <==> old(list)@.contains(a) || a == addr,
{
    let ghost before_insert = list@;
    let mut low: usize = 0;
    let mut high: usize = list.len();
    while low < high
        invariant
            list@ == before_insert,
            low <= high <= list.len(),
            ascending(list@),
            forall|k: int| 0 <= k < low ==> before(#[trigger] list@[k], addr),
            forall|k: int| high <= k < list.len() ==> !before(#[trigger] list@[k], addr),
        decreases high - low,
    {
        let middle: usize = low + (high - low) / 2;
        if list[middle].is_before(&addr) {
            low = middle + 1;
        } else {
            high = middle;
        }
    }
    if low < list.len() && list[low] == addr {
        assert(list@.contains(list@[low as int]));
        return;
    }
    list.insert(low, addr);
    proof {
        assert(list@ =~= before_insert.insert(low as int, addr));
        assert(list@[low as int] == addr);
        assert forall|a: SocketAddr| #[trigger]
            list@.contains(a) <==> before_insert.contains(a) || a == addr by {
            if before_insert.contains(a) {
                let k = before_insert.index_of(a);
                if k < low {
                    assert(list@[k] == a);
                } else {
                    assert(list@[k + 1] == a);
                }
            }
            if list@.contains(a) && a != addr {
                let k = list@.index_of(a);
                if k < low {
                    assert(before_insert[k] == a);
                } else {
                    assert(before_insert[k - 1] == a);
                }
            }
        }
    }
}

/// The addresses of `list` in ascending order, each once.
pub fn sorted_addresses(list: &Vec<SocketAddr>) -> (sorted: Vec<SocketAddr>)
    ensures
        ascending(sorted@),
        forall|a: SocketAddr| #[trigger] sorted@.contains(a) <==> list@.contains(a),
{
    let mut sorted: Vec<SocketAddr> = Vec::new();
    let mut i: usize = 0;
    while i < list.len()
        invariant
            i <= list.len(),
            ascending(sorted@),
            forall|a: SocketAddr| #[trigger]
                sorted@.contains(a) <==> list@.take(i as int).contains(a),
        decreases list.len() - i,
    {
        insert_in_order(&mut sorted, list[i]);
        proof {
            assert(list@.take(i + 1) =~= list@.take(i as int).push(list@[i as int]));
            assert forall|a: SocketAddr| #[trigger]
                sorted@.contains(a) <==> list@.take(i + 1).contains(a) by {
                broadcast use vstd::seq_lib::group_seq_properties;

            }
        }
        i = i + 1;
    }
    proof {
        assert(list@.take(list@.len() as int) =~= list@);
    }
    sorted
}

/// Two ascending lists of the same addresses are the same list.
pub proof fn ascending_lists_agree(a: Seq<SocketAddr>, b: Seq<SocketAddr>)
    requires
        ascending(a),
        ascending(b),
        forall|addr: SocketAddr| #[trigger] a.contains(addr) <==> b.contains(addr),
    ensures
        a == b,
    decreases a.len(),
{
    if a.len() == 0 {
        if b.len() > 0 {
            assert(b.contains(b[0]));
            assert(a.contains(b[0]));
        }
        assert(a =~= b);
    } else {
        assert(a.contains(a.last()));
        assert(b.contains(a.last()));
        assert(b.contains(b.last()));
        assert(a.contains(b.last()));
        let i = a.index_of(b.last());
        let j = b.index_of(a.last());
        assert(a.last() == b.last());
        let a1 = a.drop_last();
        let b1 = b.drop_last();
        assert forall|addr: SocketAddr| #[trigger] a1.contains(addr) <==> b1.contains(addr) by {
            if a1.contains(addr) {
                let k = a1.index_of(addr);
                assert(a[k] == addr);
                assert(a.contains(addr));
                assert(b.contains(addr));
                let m = b.index_of(addr);
                assert(addr != a.last());
                assert(b1[m] == addr);
            }
            if b1.contains(addr) {
                let k = b1.index_of(addr);
                assert(b[k] == addr);
                assert(b.contains(addr));
                assert(a.contains(addr));
                let m = a.index_of(addr);
                assert(addr != b.last());
                assert(a1[m] == addr);
            }
        }
        ascending_lists_agree(a1, b1);
        assert(a =~= a1.push(a.last()));
        assert(b =~= b1.push(b.last()));
    }
}

/// Another port leaves the IP address as it is, and nothing but the IP address is kept.
pub proof fn other_port_keeps_the_ip(addr: SocketAddr, port: u16)
    ensures
        addr matches SocketAddr::V4 { ip, .. } ==> at_port(addr, port) == (SocketAddr::V4 { ip, port }),
        addr matches SocketAddr::V6 { ip6, .. } ==> at_port(addr, port) == (SocketAddr::V6 {
            ip6,
            port,
            flowinfo: 0,
            scope_id: 0,
        }),
{
}

/// Of two addresses one comes before the other, unless they are the same; and what comes before an
/// address comes before all that follow it.
pub proof fn addresses_stand_in_a_line(a: SocketAddr, b: SocketAddr, c: SocketAddr)
    ensures
        !before(a, a),
        a != b ==> (before(a, b) <==> !before(b, a)),
        before(a, b) && before(b, c) ==> before(a, c),
{
}

/// What comes first: IPv4 before IPv6; of two of a kind the one with the lower IP address,
/// whatever else they hold; at one IP address the lower port, and of IPv6 then the lower flow
/// information and the lower scope.
pub proof fn ip_comes_before_port(
    ip: u32,
    other_ip: u32,
    ip6: u128,
    other_ip6: u128,
    port: u16,
    other_port: u16,
    flowinfo: u32,
    other_flowinfo: u32,
    scope_id: u32,
    other_scope_id: u32,
)
    ensures
        before(
            SocketAddr::V4 { ip, port },
            SocketAddr::V6 { ip6, port: other_port, flowinfo, scope_id },
        ),
        ip < other_ip ==> before(
            SocketAddr::V4 { ip, port },
            SocketAddr::V4 { ip: other_ip, port: other_port },
        ),
        port < other_port ==> before(
            SocketAddr::V4 { ip, port },
            SocketAddr::V4 { ip, port: other_port },
        ),
        ip6 < other_ip6 ==> before(
            SocketAddr::V6 { ip6, port, flowinfo, scope_id },
            SocketAddr::V6 {
                ip6: other_ip6,
                port: other_port,
                flowinfo: other_flowinfo,
                scope_id: other_scope_id,
            },
        ),
        port < other_port ==> before(
            SocketAddr::V6 { ip6, port, flowinfo, scope_id },
            SocketAddr::V6 {
                ip6,
                port: other_port,
                flowinfo: other_flowinfo,
                scope_id: other_scope_id,
            },
        ),
        flowinfo < other_flowinfo ==> before(
            SocketAddr::V6 { ip6, port, flowinfo, scope_id },
            SocketAddr::V6 { ip6, port, flowinfo: other_flowinfo, scope_id: other_scope_id },
        ),
        scope_id < other_scope_id ==> before(
            SocketAddr::V6 { ip6, port, flowinfo, scope_id },
            SocketAddr::V6 { ip6, port, flowinfo, scope_id: other_scope_id },
        ),
{
}

/// In an ascending list every address comes before those that follow it, so none is there twice.
pub proof fn ascending_list_repeats_nothing(list: Seq<SocketAddr>, i: int, j: int)
    requires
        ascending(list),
        0 <= i < j < list.len(),
    ensures
        before(list[i], list[j]),
        list[i] != list[j],
{
}

} // verus!
