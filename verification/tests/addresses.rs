use solana_proxy::address::{contains_address, same_addresses, sorted_addresses, SocketAddr};

fn v4(ip: u32, port: u16) -> SocketAddr {
    SocketAddr::V4 { ip, port }
}

fn v6(ip6: u128, port: u16, flowinfo: u32, scope_id: u32) -> SocketAddr {
    SocketAddr::V6 { ip6, port, flowinfo, scope_id }
}

fn samples() -> Vec<SocketAddr> {
    vec![
        v6(1, 8004, 0, 2),
        v4(0x0a00_0002, 8004),
        v6(1, 8004, 0, 1),
        v4(0x0a00_0001, 9000),
        v4(0xff00_0001, 1),
        v6(1, 8004, 3, 0),
        v4(0x0a00_0001, 8004),
        v6(1 << 100, 1, 0, 0),
        v6(1, 8003, 9, 9),
        v4(0x0a00_0002, 8004),
    ]
}

/// The samples in their order, each once.
fn in_order() -> Vec<SocketAddr> {
    vec![
        v4(0x0a00_0001, 8004),
        v4(0x0a00_0001, 9000),
        v4(0x0a00_0002, 8004),
        v4(0xff00_0001, 1),
        v6(1, 8003, 9, 9),
        v6(1, 8004, 0, 1),
        v6(1, 8004, 0, 2),
        v6(1, 8004, 3, 0),
        v6(1 << 100, 1, 0, 0),
    ]
}

#[test]
fn order_of_addresses() {
    let list = in_order();
    for i in 0..list.len() {
        for j in 0..list.len() {
            assert_eq!(list[i].is_before(&list[j]), i < j, "{:?} {:?}", list[i], list[j]);
        }
    }
}

#[test]
fn sorting_orders_and_drops_repetitions() {
    assert_eq!(sorted_addresses(&samples()), in_order());
}

#[test]
fn sorting_ignores_the_order_of_its_input() {
    let mut reversed = samples();
    reversed.reverse();
    assert_eq!(sorted_addresses(&samples()), sorted_addresses(&reversed));
}

#[test]
fn sorting_nothing_gives_nothing() {
    assert_eq!(sorted_addresses(&Vec::new()), Vec::new());
}

#[test]
fn new_port_drops_flow_and_scope() {
    assert_eq!(v4(7, 1).at_port(8004), v4(7, 8004));
    assert_eq!(v6(7, 1, 2, 3).at_port(8004), v6(7, 8004, 0, 0));
}

#[test]
fn membership_and_equality() {
    let list = vec![v4(1, 1), v6(1, 1, 0, 0)];
    assert!(contains_address(&list, v6(1, 1, 0, 0)));
    assert!(!contains_address(&list, v6(1, 1, 0, 1)));
    assert!(same_addresses(&list, &vec![v4(1, 1), v6(1, 1, 0, 0)]));
    assert!(!same_addresses(&list, &vec![v6(1, 1, 0, 0), v4(1, 1)]));
    assert!(!same_addresses(&list, &vec![v4(1, 1)]));
}
