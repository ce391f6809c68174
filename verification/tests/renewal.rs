use solana_proxy::address::SocketAddr;
use solana_proxy::cluster::ClusterNode;
use solana_proxy::refresh::{
    pubkey_texts, update_addresses, ClusterQuery, ClusterReply, JitoRefresh, JitoStep, TpuRefresh,
    TpuStep,
};
use solana_proxy::rpc::CommitmentLevel;
use solana_sdk::pubkey::Pubkey;

fn v4(ip: u32, port: u16) -> SocketAddr {
    SocketAddr::V4 { ip, port }
}

/// The node whose key is 32 times `key`.
fn node(key: u8, ip: u32) -> ClusterNode {
    ClusterNode {
        pubkey: Pubkey::new_from_array([key; 32]).to_string(),
        tpu: Some(v4(ip, 8003)),
        gossip: None,
    }
}

fn failed() -> ClusterReply {
    ClusterReply::Failed("no answer".to_string())
}

#[test]
fn keys_are_written_in_base58() {
    assert_eq!(
        pubkey_texts(&vec![[0; 32], [1; 32]]),
        vec![
            "11111111111111111111111111111111".to_string(),
            "4vJ9JU1bJJE96FWSJKvHsmmFADCg4gpZQff4P3bkLKi".to_string(),
        ]
    );
}

#[test]
fn tpu_renewal_asks_for_slot_leaders_and_nodes() {
    let refresh = TpuRefresh::Slot;
    assert_eq!(refresh.query(), ClusterQuery::Slot { commitment: CommitmentLevel::Processed });
    let refresh = match refresh.step(ClusterReply::Slot(42)) {
        TpuStep::Continue(next) => next,
        other => panic!("{:?}", other),
    };
    assert_eq!(refresh.query(), ClusterQuery::SlotLeaders { start: 42, limit: 10 });
    let refresh = match refresh.step(ClusterReply::SlotLeaders(vec![[2; 32]])) {
        TpuStep::Continue(next) => next,
        other => panic!("{:?}", other),
    };
    assert_eq!(refresh.query(), ClusterQuery::ClusterNodes);
    let step = refresh.step(ClusterReply::ClusterNodes(vec![node(1, 1), node(2, 2)]));
    assert_eq!(step, TpuStep::Found(vec![v4(2, 8003), v4(1, 8003)]));
}

#[test]
fn tpu_renewal_falls_back_on_any_failure() {
    for state in [
        TpuRefresh::Slot,
        TpuRefresh::Leaders { slot: 1 },
        TpuRefresh::Nodes { leaders: vec![[2; 32]] },
    ] {
        assert_eq!(state.step(failed()), TpuStep::Continue(TpuRefresh::Fallback));
    }
    assert_eq!(TpuRefresh::Fallback.query(), ClusterQuery::ClusterNodes);
    assert_eq!(
        TpuRefresh::Fallback.step(ClusterReply::ClusterNodes(vec![node(1, 9), node(2, 2)])),
        TpuStep::Found(vec![v4(2, 8003), v4(9, 8003)])
    );
    assert_eq!(TpuRefresh::Fallback.step(failed()), TpuStep::Failed("no answer".to_string()));
}

/// The list of Jito validators that names the nodes with these keys.
fn jito(keys: &[u8]) -> Vec<String> {
    keys.iter().map(|key| Pubkey::new_from_array([*key; 32]).to_string()).collect()
}

#[test]
fn jito_renewal_asks_for_twice_as_many_slots() {
    assert_eq!(JitoRefresh::Slot.query(), ClusterQuery::Slot { commitment: CommitmentLevel::Processed });
    assert_eq!(
        JitoRefresh::Slot.step(ClusterReply::Slot(7), &jito(&[2])),
        JitoStep::Continue(JitoRefresh::Leaders { slot: 7 })
    );
    let leaders = JitoRefresh::Leaders { slot: 7 };
    assert_eq!(leaders.query(), ClusterQuery::SlotLeaders { start: 7, limit: 20 });
    assert_eq!(
        leaders.step(ClusterReply::SlotLeaders(vec![[2; 32]]), &jito(&[2])),
        JitoStep::Continue(JitoRefresh::Nodes { leaders: vec![[2; 32]] })
    );
    let nodes = JitoRefresh::Nodes { leaders: vec![[2; 32], [3; 32]] };
    assert_eq!(nodes.query(), ClusterQuery::ClusterNodes);
    assert_eq!(
        nodes.step(ClusterReply::ClusterNodes(vec![node(1, 1), node(2, 2)]), &jito(&[2, 3])),
        JitoStep::Found(vec![v4(2, 8003)])
    );
}

#[test]
fn jito_renewal_finds_only_validators_on_the_list() {
    let found = |list: &[u8]| {
        JitoRefresh::Nodes { leaders: vec![[1; 32], [2; 32]] }
            .step(ClusterReply::ClusterNodes(vec![node(1, 1), node(2, 2)]), &jito(list))
    };
    assert_eq!(found(&[2]), JitoStep::Found(vec![v4(2, 8003)]));
    assert_eq!(found(&[2, 1]), JitoStep::Found(vec![v4(1, 8003), v4(2, 8003)]));
    let nobody = || JitoStep::Failed("No Jito leader TPU addresses found".to_string());
    assert_eq!(found(&[3]), nobody());
    assert_eq!(found(&[]), nobody());
}

#[test]
fn jito_renewal_fails_on_any_failure() {
    assert_eq!(
        JitoRefresh::Slot.step(failed(), &jito(&[1])),
        JitoStep::Failed("Failed to get current slot: no answer".to_string())
    );
    assert_eq!(
        JitoRefresh::Leaders { slot: 1 }.step(failed(), &jito(&[1])),
        JitoStep::Failed("Failed to get slot leaders: no answer".to_string())
    );
    assert_eq!(
        JitoRefresh::Nodes { leaders: Vec::new() }.step(failed(), &jito(&[1])),
        JitoStep::Failed("Failed to get cluster nodes: no answer".to_string())
    );
    assert_eq!(
        JitoRefresh::Nodes { leaders: vec![[9; 32]] }
            .step(ClusterReply::ClusterNodes(vec![node(1, 1)]), &jito(&[9])),
        JitoStep::Failed("No Jito leader TPU addresses found".to_string())
    );
}

#[test]
fn table_changes_only_where_the_addresses_do() {
    let mut table = Vec::new();
    assert!(update_addresses(&mut table, vec![v4(1, 1), v4(2, 2)]));
    assert_eq!(table, vec![v4(1, 1), v4(2, 2)]);
    assert!(!update_addresses(&mut table, vec![v4(1, 1), v4(2, 2)]));
    assert!(update_addresses(&mut table, vec![v4(2, 2), v4(1, 1)]));
    assert_eq!(table, vec![v4(2, 2), v4(1, 1)]);
}
