use solana_proxy::address::SocketAddr;
use solana_proxy::json::Json;
use solana_proxy::rpc::{CommitmentLevel, JSONRPCRequest, JSONRPCResponse, RPCError};
use solana_proxy::tpu::{
    after_sends, datagrams, handle_send_transaction_tpu, is_any_sent, rpc_reply, send_prepared,
    send_transaction_via_tpu, Datagram, RpcSendTransactionConfig, SendOutcome,
    UiTransactionEncoding,
};
use solana_proxy::transaction::{Preparation, SignedTransaction, TransactionFormat};
use solana_sdk::signature::Signature;
use solana_sdk::transaction::Transaction;

fn table(count: u32) -> Vec<SocketAddr> {
    (0..count).map(|i| SocketAddr::V4 { ip: i, port: 8004 }).collect()
}

fn id() -> Json {
    Json::Number(serde_json::Number::from(7))
}

fn request(params: Vec<Json>) -> JSONRPCRequest {
    JSONRPCRequest { jsonrpc: "2.0".to_string(), id: id(), method: "sendTransaction".to_string(), params }
}

fn error(code: i32, message: &str, data: &str) -> JSONRPCResponse {
    JSONRPCResponse {
        jsonrpc: "2.0".to_string(),
        id: id(),
        result: None,
        error: Some(RPCError { code, message: message.to_string(), data: Some(data.to_string()) }),
    }
}

fn answer(text: String) -> JSONRPCResponse {
    JSONRPCResponse { jsonrpc: "2.0".to_string(), id: id(), result: Some(Json::Text(text)), error: None }
}

fn config() -> RpcSendTransactionConfig {
    RpcSendTransactionConfig {
        skip_preflight: false,
        preflight_commitment: CommitmentLevel::Processed,
        encoding: UiTransactionEncoding::Base58,
        max_retries: 3,
        min_context_slot: None,
    }
}

fn wire() -> Vec<u8> {
    let transaction = Transaction { signatures: vec![Signature::from([5; 64])], ..Transaction::default() };
    bincode::serialize(&transaction).unwrap()
}

#[test]
fn ten_addresses_at_most_are_sent_to() {
    for (known, sent) in [(0, 0), (1, 1), (10, 10), (11, 10), (50, 10)] {
        let messages = send_transaction_via_tpu(&table(known), &vec![9, 8]);
        assert_eq!(messages.len(), sent);
        for (message, target) in messages.iter().zip(table(known).iter()) {
            assert_eq!(*message, Datagram { target: *target, payload: vec![9, 8] });
        }
    }
}

#[test]
fn limit_on_the_messages() {
    assert_eq!(datagrams(&table(5), 2, &Vec::new()).len(), 2);
    assert_eq!(datagrams(&table(5), 0, &Vec::new()).len(), 0);
}

fn signed() -> SignedTransaction {
    SignedTransaction { bytes: wire(), format: TransactionFormat::Versioned, signature: [5; 64] }
}

#[test]
fn transaction_goes_to_the_leaders_first() {
    let params = vec![Json::Text(bs58::encode(wire()).into_string())];
    assert_eq!(
        handle_send_transaction_tpu(request(params), &table(3)),
        SendOutcome::Send {
            id: id(),
            messages: table(3)
                .into_iter()
                .map(|target| Datagram { target, payload: wire() })
                .collect(),
            transaction: signed(),
        }
    );
}

#[test]
fn one_message_that_goes_out_is_enough() {
    let signature = || bs58::encode([5u8; 64]).into_string();
    for sent in [vec![true], vec![true, true], vec![false, false, true], vec![true, false]] {
        assert!(is_any_sent(&sent));
        assert_eq!(after_sends(id(), signed(), &sent), SendOutcome::Reply(answer(signature())));
    }
}

#[test]
fn transaction_goes_through_the_validator_where_all_messages_fail() {
    let params = vec![Json::Text(bs58::encode(wire()).into_string())];
    match handle_send_transaction_tpu(request(params), &table(2)) {
        SendOutcome::Send { id: caller, messages, transaction } => {
            let sent = vec![false; messages.len()];
            assert!(!is_any_sent(&sent));
            assert_eq!(
                after_sends(caller, transaction, &sent),
                SendOutcome::Rpc { id: id(), transaction: signed(), config: config() }
            );
        }
        other => panic!("{:?}", other),
    }
    assert_eq!(
        after_sends(id(), signed(), &Vec::new()),
        SendOutcome::Rpc { id: id(), transaction: signed(), config: config() }
    );
}

#[test]
fn transaction_goes_through_the_validator_where_no_leader_is_known() {
    let params = vec![Json::Text(bs58::encode(wire()).into_string())];
    assert_eq!(
        handle_send_transaction_tpu(request(params), &Vec::new()),
        SendOutcome::Rpc {
            id: id(),
            transaction: signed(),
            config: config(),
        }
    );
}

#[test]
fn parameters_have_to_hold_a_transaction() {
    let refused = |data: &str| SendOutcome::Reply(error(-32602, "Invalid params", data));
    assert_eq!(
        handle_send_transaction_tpu(request(Vec::new()), &table(1)),
        refused("Missing transaction parameter")
    );
    assert_eq!(
        handle_send_transaction_tpu(request(vec![Json::Null]), &table(1)),
        refused("Transaction must be a string (base58 or base64)")
    );
    let reason = bincode::deserialize::<Transaction>(&[0u8, 0]).unwrap_err().to_string();
    assert_eq!(
        handle_send_transaction_tpu(request(vec![Json::Text("11".to_string())]), &table(1)),
        refused(&format!(
            "Failed to deserialize transaction (tried VersionedTransaction and Transaction): {}",
            reason
        ))
    );
}

#[test]
fn transaction_needs_a_signature() {
    let unsigned = bincode::serialize(&Transaction::default()).unwrap();
    let params = vec![Json::Text(bs58::encode(unsigned).into_string())];
    assert_eq!(handle_send_transaction_tpu(request(params), &table(1)), SendOutcome::Unsigned);
}

#[test]
fn what_was_prepared_and_what_is_known_decide() {
    let transaction =
        || SignedTransaction { bytes: vec![1], format: TransactionFormat::Legacy, signature: [0; 64] };
    assert_eq!(
        send_prepared(id(), Preparation::Ready(transaction()), &Vec::new()),
        SendOutcome::Rpc { id: id(), transaction: transaction(), config: config() }
    );
    assert_eq!(
        send_prepared(id(), Preparation::Ready(transaction()), &table(1)),
        SendOutcome::Send {
            id: id(),
            messages: vec![Datagram { target: table(1)[0], payload: vec![1] }],
            transaction: transaction(),
        }
    );
    assert_eq!(send_prepared(id(), Preparation::Unsigned, &table(1)), SendOutcome::Unsigned);
    assert_eq!(
        send_prepared(id(), Preparation::Rejected("x".to_string()), &Vec::new()),
        SendOutcome::Reply(error(-32602, "Invalid params", "x"))
    );
}

#[test]
fn validator_answers_with_a_signature_or_an_error() {
    assert_eq!(rpc_reply(id(), Ok([1; 64])), answer(bs58::encode([1u8; 64]).into_string()));
    assert_eq!(
        rpc_reply(id(), Err("blockhash not found".to_string())),
        error(-32603, "Transaction failed", "blockhash not found")
    );
}
