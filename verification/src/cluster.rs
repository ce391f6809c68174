//! Which nodes of the cluster a transaction is sent to.
use vstd::prelude::*;

use crate::address::{
    ascending, ascending_lists_agree, at_port, before, contains_address, sorted_addresses,
    SocketAddr, LOCALHOST,
};
use crate::text::{contains_text, same_text, texts};

verus! {

/// The port on which a node takes transactions, where it does not say otherwise.
pub const TPU_PORT: u16 = 8004;

/// To how many addresses a transaction is sent at most.
pub const MAX_TPU_TARGETS: usize = 10;

/// For how many slots the leaders are asked for.
pub const FUTURE_SLOTS_COUNT: usize = 10;

/// To how many Jito leaders a transaction is sent at most.
pub const JITO_LEADER_COUNT: usize = 5;

/// A node of the cluster, as it announces itself.
#[derive(Debug, PartialEq)]
pub struct ClusterNode {
    pub pubkey: String,
    pub tpu: Option<SocketAddr>,
    pub gossip: Option<SocketAddr>,
}

/// Where `node` takes transactions: at the address that it names, or else at the default port of
/// its gossip address.
pub open spec fn node_address(node: ClusterNode) -> Option<SocketAddr> {
    match node.tpu {
        Some(tpu) => Some(tpu),
        None => match node.gossip {
            Some(gossip) => Some(at_port(gossip, TPU_PORT)),
            None => None,
        },
    }
}

/// The address that is used where the cluster names none.
pub open spec fn localhost_address() -> SocketAddr {
    SocketAddr::V4 { ip: LOCALHOST, port: TPU_PORT }
}

/// The address of the first of `nodes` that is called `pubkey` and has an address.
pub open spec fn leader_address(pubkey: Seq<char>, nodes: Seq<ClusterNode>) -> Option<SocketAddr>
    decreases nodes.len(),
{
    if nodes.len() == 0 {
        None
    } else if nodes[0].pubkey@ == pubkey && node_address(nodes[0]) is Some {
        node_address(nodes[0])
    } else {
        leader_address(pubkey, nodes.drop_first())
    }
}

/// The addresses of the leaders that have one, in the leaders' order, each leader once.
pub open spec fn leader_addresses(leaders: Seq<Seq<char>>, nodes: Seq<ClusterNode>) -> Seq<
    SocketAddr,
>
    decreases leaders.len(),
{
    if leaders.len() == 0 {
        Seq::empty()
    } else {
        let earlier = leader_addresses(leaders.drop_last(), nodes);
        if leaders.drop_last().contains(leaders.last()) {
            earlier
        } else {
            match leader_address(leaders.last(), nodes) {
                Some(addr) => earlier.push(addr),
                None => earlier,
            }
        }
    }
}

/// Whether `pubkey` is a leader whose address is known.
pub open spec fn is_served(
    pubkey: Seq<char>,
    leaders: Seq<Seq<char>>,
    nodes: Seq<ClusterNode>,
) -> bool {
    leaders.contains(pubkey) && leader_address(pubkey, nodes) is Some
}

/// The addresses of the leaders, followed by those of the other nodes among the first `count`,
/// each once, until there are enough.
pub open spec fn filled(
    leaders: Seq<Seq<char>>,
    nodes: Seq<ClusterNode>,
    count: int,
) -> Seq<SocketAddr>
    decreases count,
{
    if count <= 0 {
        leader_addresses(leaders, nodes)
    } else {
        let earlier = filled(leaders, nodes, count - 1);
        let node = nodes[count - 1];
        if earlier.len() >= MAX_TPU_TARGETS || is_served(node.pubkey@, leaders, nodes) {
            earlier
        } else {
            match node_address(node) {
                Some(addr) => if earlier.contains(addr) {
                    earlier
                } else {
                    earlier.push(addr)
                },
                None => earlier,
            }
        }
    }
}

/// The addresses to send transactions to: the leaders', then other nodes' to make up the number,
/// and the local one where there is none at all.
pub open spec fn tpu_addresses(leaders: Seq<Seq<char>>, nodes: Seq<ClusterNode>) -> Seq<SocketAddr> {
    let found = filled(leaders, nodes, nodes.len() as int);
    if found.len() == 0 {
        seq![localhost_address()]
    } else {
        found
    }
}

/// At most the first `count` of `list`.
pub open spec fn first_of(list: Seq<SocketAddr>, count: int) -> Seq<SocketAddr> {
    if list.len() <= count {
        list
    } else {
        list.take(count)
    }
}

/// The leaders that are on the list `jito` of Jito validators, in the leaders' order.
pub open spec fn real_jito_leaders(leaders: Seq<Seq<char>>, jito: Seq<Seq<char>>) -> Seq<Seq<char>> {
    leaders.filter(|leader: Seq<char>| jito.contains(leader))
}

/// The addresses of the Jito leaders: the first of the leaders that are on the list `jito`.
pub open spec fn jito_addresses(
    leaders: Seq<Seq<char>>,
    jito: Seq<Seq<char>>,
    nodes: Seq<ClusterNode>,
) -> Seq<SocketAddr> {
    first_of(leader_addresses(real_jito_leaders(leaders, jito), nodes), JITO_LEADER_COUNT as int)
}

/// Whether `addr` is the address of one of `nodes`.
pub open spec fn is_node_address(addr: SocketAddr, nodes: Seq<ClusterNode>) -> bool {
    exists|i: int| 0 <= i < nodes.len() && node_address(#[trigger] nodes[i]) == Some(addr)
}

/// Whether none of `nodes` has an address.
pub open spec fn no_node_address(nodes: Seq<ClusterNode>) -> bool {
    forall|i: int| 0 <= i < nodes.len() ==> node_address(#[trigger] nodes[i]) is None
}

/// `list` is the list for a cluster whose leaders are not known: every address of `nodes` in
/// ascending order, each once, and the local one where there is none at all.
pub open spec fn is_fallback_list(list: Seq<SocketAddr>, nodes: Seq<ClusterNode>) -> bool {
    &&& ascending(list)
    &&& forall|addr: SocketAddr| #[trigger]
        list.contains(addr) <==> is_node_address(addr, nodes) || no_node_address(nodes) && addr
            == localhost_address()
}

impl ClusterNode {
    /// Where this node takes transactions.
    pub fn address(&self) -> (addr: Option<SocketAddr>)
        ensures
            addr == node_address(*self),
    {
        match self.tpu {
            Some(tpu) => Some(tpu),
            None => match self.gossip {
                Some(gossip) => Some(gossip.at_port(TPU_PORT)),
                None => None,
            },
        }
    }
}

/// The address of the first of `nodes` that is called `pubkey` and has an address.
pub fn find_leader_address(pubkey: &str, nodes: &Vec<ClusterNode>) -> (addr: Option<SocketAddr>)
    ensures
        addr == leader_address(pubkey@, nodes@),
{
    let mut i: usize = 0;
    proof {
        assert(nodes@.skip(0) =~= nodes@);
    }
    while i < nodes.len()
        invariant
            i <= nodes.len(),
            leader_address(pubkey@, nodes@) == leader_address(pubkey@, nodes@.skip(i as int)),
        decreases nodes.len() - i,
    {
        proof {
            assert(nodes@.skip(i as int).drop_first() =~= nodes@.skip(i + 1));
        }
        if same_text(nodes[i].pubkey.as_str(), pubkey) {
            let addr = nodes[i].address();
            if addr.is_some() {
                return addr;
            }
        }
        i = i + 1;
    }
    None
}

/// The addresses of the first leaders are the first of the leaders' addresses.
proof fn lemma_leader_prefix(leaders: Seq<Seq<char>>, nodes: Seq<ClusterNode>, count: int)
    requires
        0 <= count <= leaders.len(),
    ensures
        leader_addresses(leaders.take(count), nodes).len() <= leader_addresses(leaders, nodes).len(),
        leader_addresses(leaders.take(count), nodes) == leader_addresses(leaders, nodes).take(
            leader_addresses(leaders.take(count), nodes).len() as int,
        ),
    decreases leaders.len(),
{
    let part = leader_addresses(leaders.take(count), nodes);
    let whole = leader_addresses(leaders, nodes);
    if count == leaders.len() {
        assert(leaders.take(count) =~= leaders);
        assert(part =~= whole.take(part.len() as int));
    } else {
        let earlier = leader_addresses(leaders.drop_last(), nodes);
        lemma_leader_prefix(leaders.drop_last(), nodes, count);
        assert(leaders.drop_last().take(count) =~= leaders.take(count));
        assert(part =~= whole.take(part.len() as int));
    }
}

/// The addresses of the leaders that have one, in the leaders' order, each leader once; at most
/// `limit` of them.
pub fn find_leader_addresses(
    leaders: &Vec<String>,
    nodes: &Vec<ClusterNode>,
    limit: usize,
) -> (found: Vec<SocketAddr>)
    ensures
        found@ == first_of(leader_addresses(texts(leaders@), nodes@), limit as int),
{
    let mut found: Vec<SocketAddr> = Vec::new();
    let mut seen: Vec<String> = Vec::new();
    let ghost names = texts(leaders@);
    let mut i: usize = 0;
    while i < leaders.len() && found.len() < limit
        invariant
            i <= leaders.len(),
            names == texts(leaders@),
            texts(seen@) == names.take(i as int),
            found.len() <= limit,
            found@ == leader_addresses(names.take(i as int), nodes@),
        decreases leaders.len() - i,
    {
        proof {
            assert(names.take(i + 1).drop_last() =~= names.take(i as int));
            assert(names.take(i + 1).last() == leaders@[i as int]@);
        }
        if !contains_text(&seen, leaders[i].as_str()) {
            match find_leader_address(leaders[i].as_str(), nodes) {
                Some(addr) => {
                    found.push(addr);
                },
                None => {},
            }
        }
        let ghost seen_before = seen@;
        seen.push(leaders[i].clone());
        proof {
            assert(texts(seen@) =~= texts(seen_before).push(leaders@[i as int]@));
            assert(names.take(i + 1) =~= names.take(i as int).push(leaders@[i as int]@));
        }
        i = i + 1;
    }
    proof {
        lemma_leader_prefix(names, nodes@, i as int);
        if i == leaders.len() {
            assert(names.take(i as int) =~= names);
        }
        assert(found@ =~= first_of(leader_addresses(names, nodes@), limit as int));
    }
    found
}

/// The addresses to send transactions to, given the leaders of the coming slots.
pub fn select_tpu_addresses(leaders: &Vec<String>, nodes: &Vec<ClusterNode>) -> (found: Vec<
    SocketAddr,
>)
    ensures
        found@ == tpu_addresses(texts(leaders@), nodes@),
{
    let ghost names = texts(leaders@);
    let mut found = find_leader_addresses(leaders, nodes, leaders.len());
    proof {
        lemma_leader_count(names, nodes@);
    }
    let mut i: usize = 0;
    while i < nodes.len()
        invariant
            i <= nodes.len(),
            names == texts(leaders@),
            found@ == filled(names, nodes@, i as int),
        decreases nodes.len() - i,
    {
        let node = &nodes[i];
        if found.len() < MAX_TPU_TARGETS {
            let served = contains_text(leaders, node.pubkey.as_str()) && find_leader_address(
                node.pubkey.as_str(),
                nodes,
            ).is_some();
            if !served {
                match node.address() {
                    Some(addr) => {
                        if !contains_address(&found, addr) {
                            found.push(addr);
                        }
                    },
                    None => {},
                }
            }
        }
        i = i + 1;
    }
    if found.len() == 0 {
        found.push(SocketAddr::V4 { ip: LOCALHOST, port: TPU_PORT });
    }
    found
}

/// There are no more leaders' addresses than leaders.
proof fn lemma_leader_count(leaders: Seq<Seq<char>>, nodes: Seq<ClusterNode>)
    ensures
        leader_addresses(leaders, nodes).len() <= leaders.len(),
    decreases leaders.len(),
{
    if leaders.len() > 0 {
        lemma_leader_count(leaders.drop_last(), nodes);
    }
}

/// The leaders that are on the list `jito` of Jito validators, in the leaders' order.
fn find_jito_leaders(leaders: &Vec<String>, jito: &Vec<String>) -> (found: Vec<String>)
    ensures
        texts(found@) == real_jito_leaders(texts(leaders@), texts(jito@)),
{
    let mut found: Vec<String> = Vec::new();
    let ghost names = texts(leaders@);
    let ghost wanted = |leader: Seq<char>| texts(jito@).contains(leader);
    let mut i: usize = 0;
    proof {
        reveal(Seq::filter);
        assert(texts(found@) =~= names.take(0).filter(wanted));
    }
    while i < leaders.len()
        invariant
            i <= leaders.len(),
            names == texts(leaders@),
            wanted == (|leader: Seq<char>| texts(jito@).contains(leader)),
            texts(found@) == names.take(i as int).filter(wanted),
        decreases leaders.len() - i,
    {
        let ghost found_before = texts(found@);
        proof {
            assert(names.take(i + 1).drop_last() =~= names.take(i as int));
            assert(names.take(i + 1).last() == leaders@[i as int]@);
            reveal(Seq::filter);
        }
        if contains_text(jito, leaders[i].as_str()) {
            found.push(leaders[i].clone());
            assert(texts(found@) =~= found_before.push(leaders@[i as int]@));
        }
        i = i + 1;
    }
    assert(names.take(names.len() as int) =~= names);
    found
}

/// The addresses of the Jito leaders, where there are any. A leader is a Jito leader where its
/// name is on the list `jito`.
///
/// Names are compared as they stand. The list that the Jito service publishes names vote
/// accounts, while leaders and nodes go by the keys of the nodes: a validator is found only where
/// the list holds the name that it leads under.
pub fn select_jito_addresses(
    leaders: &Vec<String>,
    jito: &Vec<String>,
    nodes: &Vec<ClusterNode>,
) -> (result: Result<Vec<SocketAddr>, String>)
    ensures
        match result {
            Ok(found) => found@.len() > 0 && found@ == jito_addresses(
                texts(leaders@),
                texts(jito@),
                nodes@,
            ),
            Err(message) => jito_addresses(texts(leaders@), texts(jito@), nodes@).len() == 0
                && message@ == "No Jito leader TPU addresses found"@,
        },
{
    let chosen = find_jito_leaders(leaders, jito);
    let found = find_leader_addresses(&chosen, nodes, JITO_LEADER_COUNT);
    if found.len() == 0 {
        Err("No Jito leader TPU addresses found".to_owned())
    } else {
        Ok(found)
    }
}

/// The addresses to send transactions to where the leaders are not known.
pub fn select_fallback_addresses(nodes: &Vec<ClusterNode>) -> (found: Vec<SocketAddr>)
    ensures
        is_fallback_list(found@, nodes@),
{
    let mut all: Vec<SocketAddr> = Vec::new();
    let mut i: usize = 0;
    while i < nodes.len()
        invariant
            i <= nodes.len(),
            forall|addr: SocketAddr| #[trigger]
                all@.contains(addr) <==> is_node_address(addr, nodes@.take(i as int)),
            all.len() == 0 <==> no_node_address(nodes@.take(i as int)),
        decreases nodes.len() - i,
    {
        let ghost part = nodes@.take(i as int);
        let ghost more = nodes@.take(i + 1);
        let ghost all_before = all@;
        proof {
            assert(more =~= part.push(nodes@[i as int]));
            assert(more[i as int] == nodes@[i as int]);
        }
        match nodes[i].address() {
            Some(addr) => {
                all.push(addr);
            },
            None => {},
        }
        proof {
            assert forall|addr: SocketAddr| #[trigger]
                all@.contains(addr) <==> is_node_address(addr, more) by {
                if all@.contains(addr) {
                    let k = all@.index_of(addr);
                    if k < all_before.len() {
                        assert(all_before[k] == addr);
                        assert(all_before.contains(addr));
                        let m = choose|m: int|
                            0 <= m < part.len() && node_address(#[trigger] part[m]) == Some(addr);
                        assert(more[m] == part[m]);
                    }
                }
                if is_node_address(addr, more) {
                    let m = choose|m: int|
                        0 <= m < more.len() && node_address(#[trigger] more[m]) == Some(addr);
                    if m < i {
                        assert(part[m] == more[m]);
                        assert(all_before.contains(addr));
                        let k = all_before.index_of(addr);
                        assert(all@[k] == addr);
                    } else {
                        assert(all@[all@.len() - 1] == addr);
                    }
                }
            }
            if all.len() == 0 {
                assert forall|m: int| 0 <= m < more.len() implies node_address(
                    #[trigger] more[m],
                ) is None by {
                    if m < i {
                        assert(more[m] == part[m]);
                    }
                }
            }
            if no_node_address(more) {
                assert forall|m: int| 0 <= m < part.len() implies node_address(
                    #[trigger] part[m],
                ) is None by {
                    assert(part[m] == more[m]);
                }
            }
        }
        i = i + 1;
    }
    proof {
        assert(nodes@.take(nodes@.len() as int) =~= nodes@);
    }
    if all.len() == 0 {
        all.push(SocketAddr::V4 { ip: LOCALHOST, port: TPU_PORT });
        proof {
            assert(all@[0] == localhost_address());
        }
    }
    sorted_addresses(&all)
}

/// What filling up keeps: the leaders' addresses stay in front, and what is added is new, is some
/// node's address and stops at the limit.
proof fn lemma_filled(leaders: Seq<Seq<char>>, nodes: Seq<ClusterNode>, count: int)
    requires
        0 <= count <= nodes.len(),
    ensures
        ({
            let first = leader_addresses(leaders, nodes);
            let list = filled(leaders, nodes, count);
            &&& first.len() <= list.len()
            &&& list.take(first.len() as int) == first
            &&& list.len() <= MAX_TPU_TARGETS || list == first
            &&& forall|i: int, j: int|
                #![trigger list[i], list[j]]
                0 <= i < j < list.len() && first.len() <= j ==> list[i] != list[j]
            &&& forall|j: int|
                first.len() <= j < list.len() ==> is_node_address(#[trigger] list[j], nodes)
            &&& list.len() < MAX_TPU_TARGETS ==> forall|i: int|
                0 <= i < count && node_address(#[trigger] nodes[i]) is Some ==> is_served(
                    nodes[i].pubkey@,
                    leaders,
                    nodes,
                ) || list.contains(node_address(nodes[i])->0)
        }),
    decreases count,
{
    let first = leader_addresses(leaders, nodes);
    let list = filled(leaders, nodes, count);
    if count == 0 {
        assert(list.take(first.len() as int) =~= first);
    } else {
        lemma_filled(leaders, nodes, count - 1);
        let earlier = filled(leaders, nodes, count - 1);
        let node = nodes[count - 1];
        assert(list.take(first.len() as int) =~= first);
        if list != earlier {
            let addr = node_address(node)->0;
            assert(list == earlier.push(addr));
            assert forall|i: int, j: int|
                #![trigger list[i], list[j]]
                0 <= i < j < list.len() && first.len() <= j implies list[i] != list[j] by {
                if j == earlier.len() {
                    assert(earlier.contains(earlier[i]));
                }
            }
        }
        if list.len() < MAX_TPU_TARGETS {
            assert forall|i: int|
                0 <= i < count && node_address(#[trigger] nodes[i]) is Some implies is_served(
                nodes[i].pubkey@,
                leaders,
                nodes,
            ) || list.contains(node_address(nodes[i])->0) by {
                let addr = node_address(nodes[i])->0;
                if i < count - 1 {
                    if earlier.contains(addr) {
                        assert(list[earlier.index_of(addr)] == addr);
                    }
                } else if list != earlier {
                    assert(list[list.len() - 1] == addr);
                }
            }
        }
    }
}

/// The address of a leader is that of a node of its name.
proof fn lemma_leader_address(pubkey: Seq<char>, nodes: Seq<ClusterNode>) -> (index: int)
    requires
        leader_address(pubkey, nodes) is Some,
    ensures
        0 <= index < nodes.len(),
        nodes[index].pubkey@ == pubkey,
        node_address(nodes[index]) == leader_address(pubkey, nodes),
    decreases nodes.len(),
{
    if nodes[0].pubkey@ == pubkey && node_address(nodes[0]) is Some {
        0
    } else {
        lemma_leader_address(pubkey, nodes.drop_first()) + 1
    }
}

/// Sending to the leaders means sending to nodes: each of the leaders' addresses is that of a
/// node whose name is among the leaders.
pub proof fn leader_addresses_are_leaders(
    leaders: Seq<Seq<char>>,
    nodes: Seq<ClusterNode>,
    position: int,
)
    requires
        0 <= position < leader_addresses(leaders, nodes).len(),
    ensures
        exists|i: int|
            0 <= i < nodes.len() && leaders.contains((#[trigger] nodes[i]).pubkey@) && node_address(
                nodes[i],
            ) == Some(leader_addresses(leaders, nodes)[position]),
    decreases leaders.len(),
{
    let earlier = leader_addresses(leaders.drop_last(), nodes);
    if position < earlier.len() {
        leader_addresses_are_leaders(leaders.drop_last(), nodes, position);
        let i = choose|i: int|
            0 <= i < nodes.len() && leaders.drop_last().contains((#[trigger] nodes[i]).pubkey@)
                && node_address(nodes[i]) == Some(earlier[position]);
        let k = leaders.drop_last().index_of(nodes[i].pubkey@);
        assert(leaders[k] == nodes[i].pubkey@);
    } else {
        let i = lemma_leader_address(leaders.last(), nodes);
        assert(leaders[leaders.len() - 1] == nodes[i].pubkey@);
    }
}

/// No leader is passed over: the address of every leader that has one is among the leaders'
/// addresses.
pub proof fn every_leader_is_served(
    leaders: Seq<Seq<char>>,
    nodes: Seq<ClusterNode>,
    pubkey: Seq<char>,
)
    requires
        is_served(pubkey, leaders, nodes),
    ensures
        leader_addresses(leaders, nodes).contains(leader_address(pubkey, nodes)->0),
    decreases leaders.len(),
{
    let addr = leader_address(pubkey, nodes)->0;
    let list = leader_addresses(leaders, nodes);
    let front = leaders.drop_last();
    if front.contains(pubkey) {
        every_leader_is_served(front, nodes, pubkey);
        let k = leader_addresses(front, nodes).index_of(addr);
        assert(list[k] == addr);
    } else {
        let k = leaders.index_of(pubkey);
        if k < leaders.len() - 1 {
            assert(front[k] == pubkey);
        }
        assert(list[list.len() - 1] == addr);
    }
}

/// A leader that leads more than one slot is counted once: naming it again changes nothing.
pub proof fn repeated_leader_changes_nothing(
    leaders: Seq<Seq<char>>,
    jito: Seq<Seq<char>>,
    nodes: Seq<ClusterNode>,
    pubkey: Seq<char>,
)
    requires
        leaders.contains(pubkey),
    ensures
        leader_addresses(leaders.push(pubkey), nodes) == leader_addresses(leaders, nodes),
        jito_addresses(leaders.push(pubkey), jito, nodes) == jito_addresses(leaders, jito, nodes),
        tpu_addresses(leaders.push(pubkey), nodes) == tpu_addresses(leaders, nodes),
{
    let chosen = real_jito_leaders(leaders, jito);
    assert(leaders.push(pubkey).drop_last() =~= leaders);
    reveal(Seq::filter);
    if jito.contains(pubkey) {
        lemma_real_jito_leader(leaders, jito, pubkey);
        assert(real_jito_leaders(leaders.push(pubkey), jito) == chosen.push(pubkey));
        assert(chosen.push(pubkey).drop_last() =~= chosen);
    }
    lemma_filled_same(leaders, leaders.push(pubkey), nodes, nodes.len() as int);
}

/// Filling up depends only on the leaders' addresses and on who the leaders are.
proof fn lemma_filled_same(
    leaders: Seq<Seq<char>>,
    others: Seq<Seq<char>>,
    nodes: Seq<ClusterNode>,
    count: int,
)
    requires
        leader_addresses(leaders, nodes) == leader_addresses(others, nodes),
        others.len() == leaders.len() + 1,
        others.drop_last() == leaders,
        leaders.contains(others.last()),
        count <= nodes.len(),
    ensures
        filled(leaders, nodes, count) == filled(others, nodes, count),
    decreases count,
{
    if count > 0 {
        lemma_filled_same(leaders, others, nodes, count - 1);
        let pubkey = nodes[count - 1].pubkey@;
        if leaders.contains(pubkey) {
            assert(others[leaders.index_of(pubkey)] == pubkey);
        }
        if others.contains(pubkey) {
            let k = others.index_of(pubkey);
            if k < leaders.len() {
                assert(leaders[k] == pubkey);
            }
        }
    }
}

/// There is always somewhere to send a transaction.
pub proof fn tpu_list_is_never_empty(leaders: Seq<Seq<char>>, nodes: Seq<ClusterNode>)
    ensures
        tpu_addresses(leaders, nodes).len() > 0,
{
}

/// The leaders come first, in their order, and the list is as long as the limit allows at most,
/// unless the leaders alone are more.
pub proof fn leaders_come_first(leaders: Seq<Seq<char>>, nodes: Seq<ClusterNode>)
    ensures
        leader_addresses(leaders, nodes).len() <= tpu_addresses(leaders, nodes).len(),
        tpu_addresses(leaders, nodes).take(leader_addresses(leaders, nodes).len() as int)
            == leader_addresses(leaders, nodes),
        tpu_addresses(leaders, nodes).len() <= MAX_TPU_TARGETS || tpu_addresses(leaders, nodes)
            == leader_addresses(leaders, nodes),
        leaders.len() <= MAX_TPU_TARGETS ==> tpu_addresses(leaders, nodes).len() <= MAX_TPU_TARGETS,
{
    lemma_filled(leaders, nodes, nodes.len() as int);
    lemma_leader_count(leaders, nodes);
    assert(tpu_addresses(leaders, nodes).take(leader_addresses(leaders, nodes).len() as int)
        =~= leader_addresses(leaders, nodes));
}

/// What fills up the list repeats nothing that is in it already.
pub proof fn fill_repeats_nothing(
    leaders: Seq<Seq<char>>,
    nodes: Seq<ClusterNode>,
    i: int,
    j: int,
)
    requires
        0 <= i < j < tpu_addresses(leaders, nodes).len(),
        leader_addresses(leaders, nodes).len() <= j,
    ensures
        tpu_addresses(leaders, nodes)[i] != tpu_addresses(leaders, nodes)[j],
{
    lemma_filled(leaders, nodes, nodes.len() as int);
}

/// Every address of the list is a node's, unless no node has an address: then the local address
/// alone is in it.
pub proof fn tpu_list_names_nodes(leaders: Seq<Seq<char>>, nodes: Seq<ClusterNode>)
    ensures
        no_node_address(nodes) ==> tpu_addresses(leaders, nodes) == seq![localhost_address()],
        !no_node_address(nodes) ==> forall|addr: SocketAddr| #[trigger]
            tpu_addresses(leaders, nodes).contains(addr) ==> is_node_address(addr, nodes),
{
    let count = nodes.len() as int;
    let list = filled(leaders, nodes, count);
    let first = leader_addresses(leaders, nodes);
    lemma_filled(leaders, nodes, count);
    assert forall|j: int| 0 <= j < list.len() implies is_node_address(#[trigger] list[j], nodes) by {
        if j < first.len() {
            leader_addresses_are_leaders(leaders, nodes, j);
            assert(list.take(first.len() as int)[j] == list[j]);
        }
    }
    if no_node_address(nodes) {
        if list.len() > 0 {
            assert(is_node_address(list[0], nodes));
        }
    } else if list.len() == 0 {
        let i = choose|i: int| 0 <= i < nodes.len() && node_address(#[trigger] nodes[i]) is Some;
        if is_served(nodes[i].pubkey@, leaders, nodes) {
            every_leader_is_served(leaders, nodes, nodes[i].pubkey@);
            assert(first.len() > 0);
        }
    }
}

/// A list below the limit leaves no node out: each node that has an address is in the list, or is
/// a leader that is served.
pub proof fn short_list_is_complete(leaders: Seq<Seq<char>>, nodes: Seq<ClusterNode>, i: int)
    requires
        tpu_addresses(leaders, nodes).len() < MAX_TPU_TARGETS,
        0 <= i < nodes.len(),
        node_address(nodes[i]) is Some,
    ensures
        is_served(nodes[i].pubkey@, leaders, nodes) || tpu_addresses(leaders, nodes).contains(
            node_address(nodes[i])->0,
        ),
{
    lemma_filled(leaders, nodes, nodes.len() as int);
    if filled(leaders, nodes, nodes.len() as int).len() == 0 && !is_served(
        nodes[i].pubkey@,
        leaders,
        nodes,
    ) {
        assert(filled(leaders, nodes, nodes.len() as int).contains(node_address(nodes[i])->0));
    }
}

/// A name is that of a real Jito leader where it is a leader's and on the list.
proof fn lemma_real_jito_leader(leaders: Seq<Seq<char>>, jito: Seq<Seq<char>>, pubkey: Seq<char>)
    ensures
        real_jito_leaders(leaders, jito).contains(pubkey) <==> leaders.contains(pubkey)
            && jito.contains(pubkey),
{
    broadcast use vstd::seq_lib::group_filter_ensures;

    let wanted = |leader: Seq<char>| jito.contains(leader);
    let chosen = leaders.filter(wanted);
    if chosen.contains(pubkey) {
        leaders.lemma_filter_contains_rev(wanted, pubkey);
        assert(wanted(chosen[chosen.index_of(pubkey)]));
    }
    if leaders.contains(pubkey) && jito.contains(pubkey) {
        assert(wanted(leaders[leaders.index_of(pubkey)]));
    }
}

/// Only real Jito nodes are chosen: each of the addresses is that of a node whose name is a
/// leader's and is on the list of Jito validators.
pub proof fn only_jito_nodes_are_chosen(
    leaders: Seq<Seq<char>>,
    jito: Seq<Seq<char>>,
    nodes: Seq<ClusterNode>,
    position: int,
)
    requires
        0 <= position < jito_addresses(leaders, jito, nodes).len(),
    ensures
        exists|i: int|
            0 <= i < nodes.len() && leaders.contains((#[trigger] nodes[i]).pubkey@)
                && jito.contains(nodes[i].pubkey@) && node_address(nodes[i]) == Some(
                jito_addresses(leaders, jito, nodes)[position],
            ),
{
    let chosen = real_jito_leaders(leaders, jito);
    leader_addresses_are_leaders(chosen, nodes, position);
    let i = choose|i: int|
        0 <= i < nodes.len() && chosen.contains((#[trigger] nodes[i]).pubkey@) && node_address(
            nodes[i],
        ) == Some(leader_addresses(chosen, nodes)[position]);
    lemma_real_jito_leader(leaders, jito, nodes[i].pubkey@);
}

/// Five Jito leaders are chosen at most, and where they are fewer, none is passed over: the
/// address of every leader that is on the list and has one is among those chosen.
pub proof fn jito_leaders_are_chosen_up_to_five(
    leaders: Seq<Seq<char>>,
    jito: Seq<Seq<char>>,
    nodes: Seq<ClusterNode>,
    pubkey: Seq<char>,
)
    ensures
        jito_addresses(leaders, jito, nodes).len() <= JITO_LEADER_COUNT,
        jito_addresses(leaders, jito, nodes).len() < JITO_LEADER_COUNT && jito.contains(pubkey)
            && is_served(pubkey, leaders, nodes) ==> jito_addresses(leaders, jito, nodes).contains(
            leader_address(pubkey, nodes)->0,
        ),
{
    let chosen = real_jito_leaders(leaders, jito);
    lemma_real_jito_leader(leaders, jito, pubkey);
    if jito.contains(pubkey) && is_served(pubkey, leaders, nodes) {
        every_leader_is_served(chosen, nodes, pubkey);
    }
}

/// Without a Jito validator on the list there is no Jito leader.
pub proof fn empty_list_chooses_nobody(leaders: Seq<Seq<char>>, nodes: Seq<ClusterNode>)
    ensures
        jito_addresses(leaders, Seq::empty(), nodes).len() == 0,
{
    let chosen = real_jito_leaders(leaders, Seq::empty());
    if chosen.len() > 0 {
        lemma_real_jito_leader(leaders, Seq::empty(), chosen[0]);
        assert(chosen.contains(chosen[0]));
    }
}

/// Without leaders to go by, the list depends on which nodes there are, not on their order.
pub proof fn fallback_ignores_order(
    list: Seq<SocketAddr>,
    nodes: Seq<ClusterNode>,
    other_list: Seq<SocketAddr>,
    other_nodes: Seq<ClusterNode>,
)
    requires
        is_fallback_list(list, nodes),
        is_fallback_list(other_list, other_nodes),
        nodes.to_multiset() == other_nodes.to_multiset(),
    ensures
        list == other_list,
{
    lemma_same_nodes(nodes, other_nodes);
    lemma_same_nodes(other_nodes, nodes);
    assert forall|addr: SocketAddr| #[trigger]
        list.contains(addr) <==> other_list.contains(addr) by {
        if is_node_address(addr, nodes) {
            assert(is_node_address(addr, other_nodes));
        }
        if is_node_address(addr, other_nodes) {
            assert(is_node_address(addr, nodes));
        }
    }
    ascending_lists_agree(list, other_list);
}

/// Where two lists hold the same nodes, the addresses of the one are addresses of the other.
proof fn lemma_same_nodes(nodes: Seq<ClusterNode>, others: Seq<ClusterNode>)
    requires
        nodes.to_multiset() == others.to_multiset(),
    ensures
        forall|addr: SocketAddr| #[trigger]
            is_node_address(addr, nodes) ==> is_node_address(addr, others),
        no_node_address(others) ==> no_node_address(nodes),
{
    broadcast use vstd::seq_lib::group_to_multiset_ensures;

    assert forall|i: int| 0 <= i < nodes.len() implies others.contains(#[trigger] nodes[i]) by {
        assert(nodes.contains(nodes[i]));
        assert(nodes.to_multiset().count(nodes[i]) > 0);
    }
    assert forall|addr: SocketAddr| #[trigger] is_node_address(addr, nodes) implies is_node_address(
        addr,
        others,
    ) by {
        let i = choose|i: int| 0 <= i < nodes.len() && node_address(#[trigger] nodes[i]) == Some(addr);
        let k = others.index_of(nodes[i]);
        assert(others[k] == nodes[i]);
    }
    if no_node_address(others) {
        assert forall|i: int| 0 <= i < nodes.len() implies node_address(
            #[trigger] nodes[i],
        ) is None by {
            let k = others.index_of(nodes[i]);
            assert(others[k] == nodes[i]);
        }
    }
}

/// The list for a cluster whose leaders are not known is never empty.
pub proof fn fallback_list_is_never_empty(list: Seq<SocketAddr>, nodes: Seq<ClusterNode>)
    requires
        is_fallback_list(list, nodes),
    ensures
        list.len() > 0,
{
    if no_node_address(nodes) {
        assert(list.contains(localhost_address()));
    } else {
        let i = choose|i: int| 0 <= i < nodes.len() && node_address(#[trigger] nodes[i]) is Some;
        assert(is_node_address(node_address(nodes[i])->0, nodes));
        assert(list.contains(node_address(nodes[i])->0));
    }
}

/// A node is reached where it says that it takes transactions; one that does not say, at port 8004
/// of the IP address that it gossips from; one that does neither, nowhere.
pub proof fn node_is_reached_where_it_says(node: ClusterNode)
    ensures
        node.tpu matches Some(tpu) ==> node_address(node) == Some(tpu),
        node.tpu is None ==> match node.gossip {
            Some(SocketAddr::V4 { ip, .. }) => node_address(node) == Some(
                SocketAddr::V4 { ip, port: 8004 },
            ),
            Some(SocketAddr::V6 { ip6, .. }) => node_address(node) == Some(
                SocketAddr::V6 { ip6, port: 8004, flowinfo: 0, scope_id: 0 },
            ),
            None => node_address(node) is None,
        },
{
}

/// A leader's address is that of the first node which goes by its name and has an address. `first`
/// is that node's position; where there is no such node, there is no address.
pub proof fn first_node_of_the_name_counts(pubkey: Seq<char>, nodes: Seq<ClusterNode>) -> (first: int)
    ensures
        match leader_address(pubkey, nodes) {
            Some(addr) => {
                &&& 0 <= first < nodes.len()
                &&& nodes[first].pubkey@ == pubkey
                &&& node_address(nodes[first]) == Some(addr)
                &&& forall|i: int|
                    0 <= i < first ==> (#[trigger] nodes[i]).pubkey@ != pubkey || node_address(
                        nodes[i],
                    ) is None
            },
            None => forall|i: int|
                0 <= i < nodes.len() ==> (#[trigger] nodes[i]).pubkey@ != pubkey || node_address(
                    nodes[i],
                ) is None,
        },
    decreases nodes.len(),
{
    if nodes.len() == 0 {
        0
    } else if nodes[0].pubkey@ == pubkey && node_address(nodes[0]) is Some {
        0
    } else {
        let rest = nodes.drop_first();
        let first = first_node_of_the_name_counts(pubkey, rest) + 1;
        assert forall|i: int|
            1 <= i < nodes.len() && (leader_address(pubkey, nodes) is Some ==> i < first) implies (
        #[trigger] nodes[i]).pubkey@ != pubkey || node_address(nodes[i]) is None by {
            assert(rest[i - 1] == nodes[i]);
        }
        first
    }
}

/// Each leader has one address in the list, at the place that its first slot gives it: `slots` are,
/// in ascending order, the slots whose leader has not led before and has an address, all of them,
/// and the addresses are those of their leaders.
pub proof fn each_leader_is_listed_once(leaders: Seq<Seq<char>>, nodes: Seq<ClusterNode>) -> (slots:
    Seq<int>)
    ensures
        slots.len() == leader_addresses(leaders, nodes).len(),
        forall|k: int, m: int| 0 <= k < m < slots.len() ==> #[trigger] slots[k] < #[trigger] slots[m],
        forall|k: int|
            0 <= k < slots.len() ==> {
                &&& 0 <= #[trigger] slots[k] < leaders.len()
                &&& !leaders.take(slots[k]).contains(leaders[slots[k]])
                &&& leader_address(leaders[slots[k]], nodes) == Some(
                    leader_addresses(leaders, nodes)[k],
                )
            },
        forall|i: int|
            0 <= i < leaders.len() && leader_address(#[trigger] leaders[i], nodes) is Some
                && !leaders.take(i).contains(leaders[i]) ==> slots.contains(i),
    decreases leaders.len(),
{
    if leaders.len() == 0 {
        Seq::empty()
    } else {
        let last = leaders.len() - 1;
        let front = leaders.drop_last();
        let earlier = each_leader_is_listed_once(front, nodes);
        let new = !front.contains(leaders.last()) && leader_address(leaders.last(), nodes) is Some;
        let slots = if new {
            earlier.push(last)
        } else {
            earlier
        };
        assert(leaders.take(last) =~= front);
        assert forall|k: int| 0 <= k < slots.len() implies {
            &&& 0 <= #[trigger] slots[k] < leaders.len()
            &&& !leaders.take(slots[k]).contains(leaders[slots[k]])
            &&& leader_address(leaders[slots[k]], nodes) == Some(leader_addresses(leaders, nodes)[k])
        } by {
            if k < earlier.len() {
                assert(slots[k] == earlier[k]);
                assert(leaders.take(slots[k]) =~= front.take(slots[k]));
            }
        }
        assert forall|i: int|
            0 <= i < leaders.len() && leader_address(#[trigger] leaders[i], nodes) is Some
                && !leaders.take(i).contains(leaders[i]) implies slots.contains(i) by {
            if i < last {
                assert(front[i] == leaders[i]);
                assert(leaders.take(i) =~= front.take(i));
                let k = earlier.index_of(i);
                assert(slots[k] == i);
            } else {
                assert(slots[earlier.len() as int] == i);
            }
        }
        slots
    }
}

/// The whole list: the leaders' addresses, then those of the other nodes in the nodes' order.
/// `picks` are the positions of the nodes that are added, in ascending order. None of them goes by
/// the name of a leader that is listed, and each brings an address that is not in the list yet. Of
/// the nodes that could be added, one is passed over only where its address is in the list before
/// its turn, or where the list holds ten by then. Only an empty list is made up for by the local
/// address.
pub proof fn other_nodes_make_up_ten(leaders: Seq<Seq<char>>, nodes: Seq<ClusterNode>) -> (picks: Seq<
    int,
>)
    ensures
        ({
            let first = leader_addresses(leaders, nodes);
            let list = tpu_addresses(leaders, nodes);
            &&& first.len() + picks.len() == 0 ==> list == seq![
                SocketAddr::V4 { ip: 0x7f00_0001, port: 8004 },
            ]
            &&& first.len() + picks.len() > 0 ==> list.len() == first.len() + picks.len()
            &&& picks.len() > 0 ==> list.len() <= 10
            &&& forall|k: int| 0 <= k < first.len() ==> #[trigger] list[k] == first[k]
            &&& forall|k: int, m: int|
                0 <= k < m < picks.len() ==> #[trigger] picks[k] < #[trigger] picks[m]
            &&& forall|k: int|
                0 <= k < picks.len() ==> {
                    &&& 0 <= #[trigger] picks[k] < nodes.len()
                    &&& node_address(nodes[picks[k]]) == Some(list[first.len() + k])
                    &&& !list.take(first.len() + k).contains(list[first.len() + k])
                    &&& !(leaders.contains(nodes[picks[k]].pubkey@) && leader_address(
                        nodes[picks[k]].pubkey@,
                        nodes,
                    ) is Some)
                }
            &&& forall|i: int|
                0 <= i < nodes.len() && node_address(#[trigger] nodes[i]) is Some && !(
                leaders.contains(nodes[i].pubkey@) && leader_address(nodes[i].pubkey@, nodes) is Some)
                    ==> {
                    ||| picks.contains(i)
                    ||| first.contains(node_address(nodes[i])->0)
                    ||| exists|k: int|
                        0 <= k < picks.len() && #[trigger] picks[k] < i && node_address(
                            nodes[picks[k]],
                        ) == node_address(nodes[i])
                    ||| list.len() >= 10 && forall|k: int|
                        0 <= k < picks.len() ==> #[trigger] picks[k] < i
                }
        }),
{
    let picks = lemma_picks(leaders, nodes, nodes.len() as int);
    let first = leader_addresses(leaders, nodes);
    assert(filled(leaders, nodes, nodes.len() as int).take(first.len() as int) =~= first);
    picks
}

/// What is added from among the first `count` nodes.
proof fn lemma_picks(leaders: Seq<Seq<char>>, nodes: Seq<ClusterNode>, count: int) -> (picks: Seq<int>)
    requires
        0 <= count <= nodes.len(),
    ensures
        ({
            let first = leader_addresses(leaders, nodes);
            let list = filled(leaders, nodes, count);
            &&& list.len() == first.len() + picks.len()
            &&& picks.len() > 0 ==> list.len() <= 10
            &&& forall|k: int| 0 <= k < first.len() ==> #[trigger] list[k] == first[k]
            &&& forall|k: int, m: int|
                0 <= k < m < picks.len() ==> #[trigger] picks[k] < #[trigger] picks[m]
            &&& forall|k: int|
                0 <= k < picks.len() ==> {
                    &&& 0 <= #[trigger] picks[k] < count
                    &&& node_address(nodes[picks[k]]) == Some(list[first.len() + k])
                    &&& !list.take(first.len() + k).contains(list[first.len() + k])
                    &&& !is_served(nodes[picks[k]].pubkey@, leaders, nodes)
                }
            &&& forall|i: int|
                0 <= i < count && node_address(#[trigger] nodes[i]) is Some && !is_served(
                    nodes[i].pubkey@,
                    leaders,
                    nodes,
                ) ==> {
                    ||| picks.contains(i)
                    ||| first.contains(node_address(nodes[i])->0)
                    ||| exists|k: int|
                        0 <= k < picks.len() && #[trigger] picks[k] < i && node_address(
                            nodes[picks[k]],
                        ) == node_address(nodes[i])
                    ||| list.len() >= 10 && forall|k: int|
                        0 <= k < picks.len() ==> #[trigger] picks[k] < i
                }
        }),
    decreases count,
{
    let first = leader_addresses(leaders, nodes);
    let list = filled(leaders, nodes, count);
    if count == 0 {
        Seq::empty()
    } else {
        let turn = count - 1;
        let node = nodes[turn];
        let earlier = filled(leaders, nodes, turn);
        let before_turn = lemma_picks(leaders, nodes, turn);
        let added = earlier.len() < MAX_TPU_TARGETS && !is_served(node.pubkey@, leaders, nodes)
            && node_address(node) is Some && !earlier.contains(node_address(node)->0);
        let picks = if added {
            before_turn.push(turn)
        } else {
            before_turn
        };
        assert(added ==> list == earlier.push(node_address(node)->0));
        assert(!added ==> list == earlier);
        assert forall|k: int| 0 <= k < first.len() implies #[trigger] list[k] == first[k] by {
            assert(list[k] == earlier[k]);
        }
        assert forall|k: int| 0 <= k < picks.len() implies {
            &&& 0 <= #[trigger] picks[k] < count
            &&& node_address(nodes[picks[k]]) == Some(list[first.len() + k])
            &&& !list.take(first.len() + k).contains(list[first.len() + k])
            &&& !is_served(nodes[picks[k]].pubkey@, leaders, nodes)
        } by {
            assert(list.take(first.len() + k) =~= earlier.take(first.len() + k));
            if k < before_turn.len() {
                assert(picks[k] == before_turn[k]);
            } else {
                assert(earlier.take(first.len() + k) =~= earlier);
            }
        }
        assert forall|i: int|
            0 <= i < count && node_address(#[trigger] nodes[i]) is Some && !is_served(
                nodes[i].pubkey@,
                leaders,
                nodes,
            ) implies {
            ||| picks.contains(i)
            ||| first.contains(node_address(nodes[i])->0)
            ||| exists|k: int|
                0 <= k < picks.len() && #[trigger] picks[k] < i && node_address(nodes[picks[k]])
                    == node_address(nodes[i])
            ||| list.len() >= 10 && forall|k: int|
                0 <= k < picks.len() ==> #[trigger] picks[k] < i
        } by {
            if i < turn {
                if before_turn.contains(i) {
                    assert(picks[before_turn.index_of(i)] == i);
                } else if exists|k: int|
                    0 <= k < before_turn.len() && #[trigger] before_turn[k] < i && node_address(
                        nodes[before_turn[k]],
                    ) == node_address(nodes[i]) {
                    let k = choose|k: int|
                        0 <= k < before_turn.len() && #[trigger] before_turn[k] < i && node_address(
                            nodes[before_turn[k]],
                        ) == node_address(nodes[i]);
                    assert(picks[k] == before_turn[k]);
                }
            } else if added {
                assert(picks[before_turn.len() as int] == i);
            } else if earlier.len() < MAX_TPU_TARGETS {
                let addr = node_address(node)->0;
                let k = earlier.index_of(addr);
                if k < first.len() {
                    assert(first[k] == addr);
                } else {
                    assert(picks[k - first.len()] == before_turn[k - first.len()]);
                }
            }
        }
        picks
    }
}

/// The slots at which the leaders on the list `jito` lead first.
proof fn lemma_jito_slots(
    leaders: Seq<Seq<char>>,
    jito: Seq<Seq<char>>,
    nodes: Seq<ClusterNode>,
) -> (slots: Seq<int>)
    ensures
        ({
            let list = leader_addresses(real_jito_leaders(leaders, jito), nodes);
            &&& slots.len() == list.len()
            &&& forall|k: int, m: int|
                0 <= k < m < slots.len() ==> #[trigger] slots[k] < #[trigger] slots[m]
            &&& forall|k: int|
                0 <= k < slots.len() ==> {
                    &&& 0 <= #[trigger] slots[k] < leaders.len()
                    &&& jito.contains(leaders[slots[k]])
                    &&& !leaders.take(slots[k]).contains(leaders[slots[k]])
                    &&& leader_address(leaders[slots[k]], nodes) == Some(list[k])
                }
            &&& forall|i: int|
                0 <= i < leaders.len() && jito.contains(leaders[i]) && leader_address(
                    #[trigger] leaders[i],
                    nodes,
                ) is Some && !leaders.take(i).contains(leaders[i]) ==> slots.contains(i)
        }),
    decreases leaders.len(),
{
    reveal(Seq::filter);
    if leaders.len() == 0 {
        Seq::empty()
    } else {
        let last = leaders.len() - 1;
        let front = leaders.drop_last();
        let earlier = lemma_jito_slots(front, jito, nodes);
        let list = leader_addresses(real_jito_leaders(leaders, jito), nodes);
        let chosen = real_jito_leaders(front, jito);
        lemma_real_jito_leader(front, jito, leaders.last());
        let new = jito.contains(leaders.last()) && !front.contains(leaders.last())
            && leader_address(leaders.last(), nodes) is Some;
        let slots = if new {
            earlier.push(last)
        } else {
            earlier
        };
        if jito.contains(leaders.last()) {
            assert(real_jito_leaders(leaders, jito) == chosen.push(leaders.last()));
            assert(chosen.push(leaders.last()).drop_last() =~= chosen);
        } else {
            assert(real_jito_leaders(leaders, jito) == chosen);
        }
        assert(leaders.take(last) =~= front);
        assert forall|k: int| 0 <= k < slots.len() implies {
            &&& 0 <= #[trigger] slots[k] < leaders.len()
            &&& jito.contains(leaders[slots[k]])
            &&& !leaders.take(slots[k]).contains(leaders[slots[k]])
            &&& leader_address(leaders[slots[k]], nodes) == Some(list[k])
        } by {
            if k < earlier.len() {
                assert(slots[k] == earlier[k]);
                assert(leaders.take(slots[k]) =~= front.take(slots[k]));
            }
        }
        assert forall|i: int|
            0 <= i < leaders.len() && jito.contains(leaders[i]) && leader_address(
                #[trigger] leaders[i],
                nodes,
            ) is Some && !leaders.take(i).contains(leaders[i]) implies slots.contains(i) by {
            if i < last {
                assert(front[i] == leaders[i]);
                assert(leaders.take(i) =~= front.take(i));
                let k = earlier.index_of(i);
                assert(slots[k] == i);
            } else {
                assert(slots[earlier.len() as int] == i);
            }
        }
        slots
    }
}

/// The Jito leaders that lead soonest are chosen: `slots` are, in ascending order, the first slots
/// of the leaders chosen, five at most. A leader on the list that has an address is left out only
/// where five others lead before it does.
pub proof fn soonest_jito_leaders_are_chosen(
    leaders: Seq<Seq<char>>,
    jito: Seq<Seq<char>>,
    nodes: Seq<ClusterNode>,
) -> (slots: Seq<int>)
    ensures
        slots.len() == jito_addresses(leaders, jito, nodes).len() <= 5,
        forall|k: int, m: int| 0 <= k < m < slots.len() ==> #[trigger] slots[k] < #[trigger] slots[m],
        forall|k: int|
            0 <= k < slots.len() ==> {
                &&& 0 <= #[trigger] slots[k] < leaders.len()
                &&& jito.contains(leaders[slots[k]])
                &&& !leaders.take(slots[k]).contains(leaders[slots[k]])
                &&& leader_address(leaders[slots[k]], nodes) == Some(
                    jito_addresses(leaders, jito, nodes)[k],
                )
            },
        forall|i: int|
            0 <= i < leaders.len() && jito.contains(leaders[i]) && leader_address(
                #[trigger] leaders[i],
                nodes,
            ) is Some && !leaders.take(i).contains(leaders[i]) ==> slots.contains(i) || slots.len()
                == 5 && slots[4] < i,
{
    let all = lemma_jito_slots(leaders, jito, nodes);
    let slots = if all.len() <= 5 {
        all
    } else {
        all.take(5)
    };
    assert forall|i: int|
        0 <= i < leaders.len() && jito.contains(leaders[i]) && leader_address(
            #[trigger] leaders[i],
            nodes,
        ) is Some && !leaders.take(i).contains(leaders[i]) implies slots.contains(i) || slots.len()
        == 5 && slots[4] < i by {
        let k = all.index_of(i);
        if k < slots.len() {
            assert(slots[k] == i);
        } else {
            assert(all[4] < all[k]);
        }
    }
    slots
}

/// Who is on the list of Jito validators counts, not in which order or how often.
pub proof fn order_of_the_jito_list_is_ignored(
    leaders: Seq<Seq<char>>,
    jito: Seq<Seq<char>>,
    other: Seq<Seq<char>>,
    nodes: Seq<ClusterNode>,
)
    requires
        forall|pubkey: Seq<char>| #[trigger] jito.contains(pubkey) <==> other.contains(pubkey),
    ensures
        jito_addresses(leaders, jito, nodes) == jito_addresses(leaders, other, nodes),
{
    let one = |leader: Seq<char>| jito.contains(leader);
    let two = |leader: Seq<char>| other.contains(leader);
    assert forall|leader: Seq<char>| #[trigger] one(leader) == two(leader) by {
        assert(jito.contains(leader) <==> other.contains(leader));
    }
    assert(one =~= two);
}

/// The first of a list are its items from the front on, as many as are asked for and there are.
pub proof fn first_of_is_the_front(list: Seq<SocketAddr>, count: nat)
    ensures
        first_of(list, count as int).len() == if list.len() < count {
            list.len()
        } else {
            count
        },
        forall|i: int|
            0 <= i < first_of(list, count as int).len() ==> #[trigger] first_of(list, count as int)[i]
                == list[i],
{
}

/// Without leaders to go by, every node that has an address is sent to, and nobody else: each
/// address of the list is some node's, no address stands in it twice, and the local address stands
/// in for nodes only where none has an address.
pub proof fn fallback_list_names_every_node(list: Seq<SocketAddr>, nodes: Seq<ClusterNode>)
    requires
        is_fallback_list(list, nodes),
    ensures
        forall|i: int|
            0 <= i < nodes.len() && node_address(#[trigger] nodes[i]) is Some ==> list.contains(
                node_address(nodes[i])->0,
            ),
        (exists|i: int| 0 <= i < nodes.len() && node_address(#[trigger] nodes[i]) is Some) ==> forall|
            k: int,
        |
            0 <= k < list.len() ==> exists|i: int|
                0 <= i < nodes.len() && node_address(#[trigger] nodes[i]) == Some(#[trigger] list[k]),
        (forall|i: int| 0 <= i < nodes.len() ==> node_address(#[trigger] nodes[i]) is None) ==> list
            == seq![SocketAddr::V4 { ip: 0x7f00_0001, port: 8004 }],
        forall|k: int, m: int|
            0 <= k < m < list.len() ==> before(#[trigger] list[k], #[trigger] list[m]),
{
    assert forall|i: int|
        0 <= i < nodes.len() && node_address(#[trigger] nodes[i]) is Some implies list.contains(
        node_address(nodes[i])->0,
    ) by {
        assert(is_node_address(node_address(nodes[i])->0, nodes));
    }
    assert forall|k: int| 0 <= k < list.len() && !no_node_address(nodes) implies exists|i: int|
        0 <= i < nodes.len() && node_address(#[trigger] nodes[i]) == Some(#[trigger] list[k]) by {
        assert(list.contains(list[k]));
        assert(is_node_address(list[k], nodes));
    }
    if no_node_address(nodes) {
        assert(list.contains(localhost_address()));
        assert forall|k: int| 0 <= k < list.len() implies #[trigger] list[k] == localhost_address() by {
            assert(list.contains(list[k]));
        }
        if list.len() > 1 {
            assert(before(list[0], list[1]));
        }
        assert(list =~= seq![localhost_address()]);
    }
}

/// There are as many leaders' addresses as there are different leaders that have one, however many
/// slots each of them leads.
pub proof fn as_many_addresses_as_leaders(leaders: Seq<Seq<char>>, nodes: Seq<ClusterNode>)
    ensures
        leader_addresses(leaders, nodes).len() == leaders.to_set().filter(
            |pubkey: Seq<char>| leader_address(pubkey, nodes) is Some,
        ).len(),
    decreases leaders.len(),
{
    broadcast use vstd::seq_lib::group_seq_properties;

    let known = |pubkey: Seq<char>| leader_address(pubkey, nodes) is Some;
    let served = leaders.to_set().filter(known);
    if leaders.len() == 0 {
        assert(served =~= Set::empty());
    } else {
        let front = leaders.drop_last();
        let earlier = front.to_set().filter(known);
        as_many_addresses_as_leaders(front, nodes);
        assert(leaders =~= front.push(leaders.last()));
        assert(leaders.to_set() =~= front.to_set().insert(leaders.last()));
        front.to_set().lemma_len_filter(known);
        if known(leaders.last()) {
            assert(served =~= earlier.insert(leaders.last()));
        } else {
            assert(served =~= earlier);
        }
        if front.contains(leaders.last()) {
            assert(front.to_set().contains(leaders.last()));
            assert(served =~= earlier);
        } else {
            assert(!front.to_set().contains(leaders.last()));
        }
    }
}

} // verus!
