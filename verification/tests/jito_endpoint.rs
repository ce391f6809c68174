use solana_proxy::address::SocketAddr;
use solana_proxy::jito::{
    handle_jito_transactions, jito_datagrams, jito_reply, reply_to_sends, send_prepared, JitoOutcome,
};
use solana_proxy::json::Json;
use solana_proxy::rpc::{JSONRPCRequest, JSONRPCResponse, RPCError, TokenQuery};
use solana_proxy::transaction::{Preparation, SignedTransaction, TransactionFormat};
use solana_sdk::signature::Signature;
use solana_sdk::transaction::Transaction;

fn valid() -> TokenQuery {
    TokenQuery { token: Some("beyond0128".to_string()) }
}

fn id() -> Json {
    Json::Text("id".to_string())
}

fn request(method: &str, params: Vec<Json>) -> Result<JSONRPCRequest, String> {
    Ok(JSONRPCRequest { jsonrpc: "2.0".to_string(), id: id(), method: method.to_string(), params })
}

fn error(id: Json, code: i32, message: &str, data: &str) -> JSONRPCResponse {
    JSONRPCResponse {
        jsonrpc: "2.0".to_string(),
        id,
        result: None,
        error: Some(RPCError { code, message: message.to_string(), data: Some(data.to_string()) }),
    }
}

fn answer(text: &str) -> JSONRPCResponse {
    JSONRPCResponse {
        jsonrpc: "2.0".to_string(),
        id: id(),
        result: Some(Json::Text(text.to_string())),
        error: None,
    }
}

fn not_available() -> JSONRPCResponse {
    error(
        id(),
        -32603,
        "Jito TPU not available",
        "Jito leader TPU addresses not initialized or unavailable",
    )
}

#[test]
fn jito_token_is_required() {
    for token in [None, Some("guess".to_string())] {
        assert_eq!(
            handle_jito_transactions(&TokenQuery { token }, request("sendTransaction", Vec::new())),
            JitoOutcome::Reply(error(
                Json::Null,
                -32001,
                "Unauthorized",
                "Invalid or missing token. Please provide ?token=beyond0128"
            ))
        );
    }
}

#[test]
fn jito_body_has_to_be_a_request() {
    assert_eq!(
        handle_jito_transactions(&valid(), Err("bad".to_string())),
        JitoOutcome::Reply(error(Json::Null, -32700, "Parse error", "bad"))
    );
}

#[test]
fn jito_parameters_have_to_hold_a_transaction() {
    let refused = |data: &str| JitoOutcome::Reply(error(id(), -32602, "Invalid params", data));
    assert_eq!(
        handle_jito_transactions(&valid(), request("m", Vec::new())),
        refused("Missing transaction parameter")
    );
    assert_eq!(
        handle_jito_transactions(&valid(), request("m", vec![Json::Bool(true)])),
        refused("Transaction must be a string (base58 or base64)")
    );
    assert_eq!(
        handle_jito_transactions(&valid(), request("m", vec![Json::Text("0".to_string())])),
        refused(&solana_proxy::codec::decode_transaction("0").unwrap_err())
    );
    let reason = bincode::deserialize::<Transaction>(&[0u8, 0]).unwrap_err().to_string();
    assert_eq!(
        handle_jito_transactions(&valid(), request("m", vec![Json::Text("11".to_string())])),
        refused(&format!("Failed to deserialize transaction: {}", reason))
    );
}

#[test]
fn jito_transaction_is_sent_whatever_the_method() {
    let transaction = Transaction { signatures: vec![Signature::from([6; 64])], ..Transaction::default() };
    let bytes = bincode::serialize(&transaction).unwrap();
    let text = bs58::encode(&bytes).into_string();
    assert_eq!(
        handle_jito_transactions(&valid(), request("anything", vec![Json::Text(text)])),
        JitoOutcome::Send {
            id: id(),
            transaction: SignedTransaction { bytes, format: TransactionFormat::Versioned, signature: [6; 64] },
        }
    );
}

#[test]
fn jito_transaction_needs_a_signature() {
    let bytes = bincode::serialize(&Transaction::default()).unwrap();
    let text = bs58::encode(&bytes).into_string();
    assert_eq!(
        handle_jito_transactions(&valid(), request("m", vec![Json::Text(text)])),
        JitoOutcome::Unsigned
    );
}

#[test]
fn what_was_prepared_decides() {
    let transaction =
        || SignedTransaction { bytes: vec![1], format: TransactionFormat::Legacy, signature: [0; 64] };
    assert_eq!(
        send_prepared(id(), Preparation::Ready(transaction())),
        JitoOutcome::Send { id: id(), transaction: transaction() }
    );
    assert_eq!(send_prepared(id(), Preparation::Unsigned), JitoOutcome::Unsigned);
    assert_eq!(
        send_prepared(id(), Preparation::Rejected("x".to_string())),
        JitoOutcome::Reply(error(id(), -32602, "Invalid params", "x"))
    );
}

#[test]
fn every_jito_leader_is_sent_to() {
    let table: Vec<SocketAddr> = (0..12).map(|i| SocketAddr::V4 { ip: i, port: 1 }).collect();
    let messages = jito_datagrams(&table, &vec![1, 2, 3]);
    assert_eq!(messages.len(), 12);
    for (message, target) in messages.iter().zip(table.iter()) {
        assert_eq!(message.target, *target);
        assert_eq!(message.payload, vec![1, 2, 3]);
    }
    assert!(jito_datagrams(&Vec::new(), &vec![1]).is_empty());
}

#[test]
fn one_send_is_enough() {
    assert_eq!(reply_to_sends(id(), "sig".to_string(), &vec![false, true, false]), answer("sig"));
    assert_eq!(reply_to_sends(id(), "sig".to_string(), &vec![false, false]), not_available());
    assert_eq!(reply_to_sends(id(), "sig".to_string(), &Vec::new()), not_available());
}

#[test]
fn answer_is_the_signature_in_base58() {
    let signature: [u8; 64] = [200; 64];
    let text = bs58::encode(signature).into_string();
    assert_eq!(jito_reply(id(), signature, &vec![true]), answer(&text));
    assert_eq!(jito_reply(id(), [0; 64], &vec![true]), answer(&"1".repeat(64)));
    assert_eq!(jito_reply(id(), signature, &vec![false]), not_available());
}
