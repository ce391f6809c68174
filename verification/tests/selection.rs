use solana_proxy::address::SocketAddr;
use solana_proxy::cluster::{
    find_leader_address, find_leader_addresses, select_fallback_addresses, select_jito_addresses,
    select_tpu_addresses, ClusterNode, TPU_PORT,
};

fn v4(ip: u32, port: u16) -> SocketAddr {
    SocketAddr::V4 { ip, port }
}

fn node(pubkey: &str, tpu: Option<SocketAddr>, gossip: Option<SocketAddr>) -> ClusterNode {
    ClusterNode { pubkey: pubkey.to_string(), tpu, gossip }
}

/// Nodes named n0, n1, .. with the addresses 10.0.0.0, 10.0.0.1, ..
fn many(count: u32) -> Vec<ClusterNode> {
    (0..count).map(|i| node(&format!("n{}", i), Some(v4(0x0a00_0000 + i, 8003)), None)).collect()
}

fn names(list: &[&str]) -> Vec<String> {
    list.iter().map(|name| name.to_string()).collect()
}

fn localhost() -> SocketAddr {
    v4(0x7f00_0001, 8004)
}

#[test]
fn node_names_its_address_or_its_gossip_address_serves() {
    assert_eq!(node("a", Some(v4(1, 2)), Some(v4(3, 4))).address(), Some(v4(1, 2)));
    assert_eq!(node("a", None, Some(v4(3, 4))).address(), Some(v4(3, TPU_PORT)));
    assert_eq!(node("a", None, None).address(), None);
}

#[test]
fn leader_without_an_address_is_looked_for_further() {
    let nodes = vec![node("a", None, None), node("b", Some(v4(1, 1)), None), node("a", Some(v4(2, 2)), None)];
    assert_eq!(find_leader_address("a", &nodes), Some(v4(2, 2)));
    assert_eq!(find_leader_address("c", &nodes), None);
}

#[test]
fn leaders_come_first_and_others_fill_up() {
    let found = select_tpu_addresses(&names(&["n7", "n3", "n7"]), &many(20));
    let expected: Vec<SocketAddr> = [7, 3, 0, 1, 2, 4, 5, 6, 8, 9]
        .iter()
        .map(|i| v4(0x0a00_0000 + i, 8003))
        .collect();
    assert_eq!(found, expected);
}

#[test]
fn more_leaders_than_the_limit_are_all_kept() {
    let leaders: Vec<String> = (0..12).map(|i| format!("n{}", i)).collect();
    assert_eq!(select_tpu_addresses(&leaders, &many(20)).len(), 12);
}

#[test]
fn small_cluster_is_taken_whole() {
    let found = select_tpu_addresses(&names(&["n2"]), &many(4));
    assert_eq!(found, vec![v4(0x0a00_0002, 8003), v4(0x0a00_0000, 8003), v4(0x0a00_0001, 8003), v4(0x0a00_0003, 8003)]);
}

#[test]
fn shared_address_fills_up_once() {
    let nodes = vec![
        node("a", Some(v4(1, 1)), None),
        node("b", Some(v4(1, 1)), None),
        node("c", None, Some(v4(2, 9))),
        node("d", Some(v4(2, 8004)), None),
        node("e", None, None),
    ];
    assert_eq!(select_tpu_addresses(&names(&["a"]), &nodes), vec![v4(1, 1), v4(2, 8004)]);
    // Two leaders at one address are both sent to.
    assert_eq!(select_tpu_addresses(&names(&["a", "b"]), &nodes), vec![v4(1, 1), v4(1, 1), v4(2, 8004)]);
}

#[test]
fn second_node_of_a_served_leader_is_passed_over() {
    let nodes = vec![node("a", Some(v4(1, 1)), None), node("a", Some(v4(2, 2)), None)];
    assert_eq!(select_tpu_addresses(&names(&["a"]), &nodes), vec![v4(1, 1)]);
    assert_eq!(select_tpu_addresses(&names(&[]), &nodes), vec![v4(1, 1), v4(2, 2)]);
}

#[test]
fn cluster_without_addresses_leaves_the_local_one() {
    assert_eq!(select_tpu_addresses(&names(&["a"]), &Vec::new()), vec![localhost()]);
    assert_eq!(select_tpu_addresses(&names(&["a"]), &vec![node("a", None, None)]), vec![localhost()]);
    assert_eq!(select_fallback_addresses(&Vec::new()), vec![localhost()]);
    assert_eq!(select_fallback_addresses(&vec![node("a", None, None)]), vec![localhost()]);
}

#[test]
fn repeated_leader_is_sent_to_once() {
    assert_eq!(
        select_tpu_addresses(&names(&["n1", "n2"]), &many(3)),
        select_tpu_addresses(&names(&["n1", "n2", "n1"]), &many(3))
    );
}

#[test]
fn jito_leaders_are_the_first_five_on_the_list() {
    let leaders = names(&["n9", "n9", "x", "n8", "n1", "n7", "n6", "n2", "n5", "n4"]);
    let jito = names(&["n4", "n5", "n6", "n7", "n8", "n9", "x"]);
    let expected: Vec<SocketAddr> = [9, 8, 7, 6, 5].iter().map(|i| v4(0x0a00_0000 + i, 8003)).collect();
    assert_eq!(select_jito_addresses(&leaders, &jito, &many(20)), Ok(expected));
}

#[test]
fn only_jito_leaders_are_chosen() {
    assert_eq!(
        select_jito_addresses(&names(&["n1", "n2", "n3"]), &names(&["n2", "n7"]), &many(20)),
        Ok(vec![v4(0x0a00_0002, 8003)])
    );
    let nobody = || Err("No Jito leader TPU addresses found".to_string());
    // A leader that is not on the list is not chosen, though it has an address.
    assert_eq!(select_jito_addresses(&names(&["n1"]), &names(&["n2"]), &many(20)), nobody());
    assert_eq!(select_jito_addresses(&names(&["n1"]), &names(&[]), &many(20)), nobody());
}

#[test]
fn jito_list_is_not_filled_up() {
    assert_eq!(
        select_jito_addresses(&names(&["n1"]), &names(&["n1", "n2"]), &many(20)),
        Ok(vec![v4(0x0a00_0001, 8003)])
    );
    assert_eq!(
        select_jito_addresses(&names(&["x"]), &names(&["x"]), &many(20)),
        Err("No Jito leader TPU addresses found".to_string())
    );
}

#[test]
fn limit_on_the_leaders() {
    assert_eq!(find_leader_addresses(&names(&["n1", "n2", "n3"]), &many(5), 2).len(), 2);
    assert_eq!(find_leader_addresses(&names(&["n1", "n2", "n3"]), &many(5), 0).len(), 0);
}

#[test]
fn fallback_list_is_sorted_without_repetition() {
    let nodes = vec![
        node("a", Some(v4(9, 1)), None),
        node("b", None, Some(v4(3, 7))),
        node("c", Some(v4(9, 1)), None),
        node("d", Some(SocketAddr::V6 { ip6: 1, port: 1, flowinfo: 0, scope_id: 0 }), None),
        node("e", None, None),
        node("f", Some(v4(3, 80)), None),
    ];
    assert_eq!(
        select_fallback_addresses(&nodes),
        vec![v4(3, 80), v4(3, 8004), v4(9, 1), SocketAddr::V6 { ip6: 1, port: 1, flowinfo: 0, scope_id: 0 }]
    );
}

#[test]
fn fallback_list_ignores_the_order_of_the_nodes() {
    let mut reversed = many(15);
    reversed.reverse();
    assert_eq!(select_fallback_addresses(&many(15)), select_fallback_addresses(&reversed));
    assert_eq!(select_fallback_addresses(&many(15)).len(), 15);
}
