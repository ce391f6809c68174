use solana_proxy::json::Json;
use solana_proxy::proxy::{
    broadcast_of, handle_proxy_method, handle_proxy_request, is_allowed_method, proxy_reply,
    transaction_to_broadcast, Header, ProxyOutcome, ProxyResult,
};
use solana_proxy::rpc::{JSONRPCRequest, JSONRPCResponse, RPCError, TokenQuery};
use solana_proxy::transaction::{Preparation, SignedTransaction, TransactionFormat};
use solana_sdk::signature::Signature;
use solana_sdk::transaction::Transaction;

fn query(token: &str) -> TokenQuery {
    TokenQuery { token: Some(token.to_string()) }
}

fn number(value: u64) -> Json {
    Json::Number(serde_json::Number::from(value))
}

fn request(method: &str, params: Vec<Json>) -> JSONRPCRequest {
    JSONRPCRequest { jsonrpc: "2.0".to_string(), id: number(1), method: method.to_string(), params }
}

fn error(id: Json, code: i32, message: &str, data: &str) -> JSONRPCResponse {
    JSONRPCResponse {
        jsonrpc: "2.0".to_string(),
        id,
        result: None,
        error: Some(RPCError { code, message: message.to_string(), data: Some(data.to_string()) }),
    }
}

fn header(name: &str, value: &[u8]) -> Header {
    Header { name: name.to_string(), value: value.to_vec() }
}

#[test]
fn token_is_required() {
    let refused = || ProxyOutcome::Reply(error(Json::Null, -32001, "Unauthorized", "Invalid or missing token."));
    let none = TokenQuery { token: None };
    assert_eq!(handle_proxy_request(&none, Ok(request("sendTransaction", Vec::new()))), refused());
    assert_eq!(handle_proxy_request(&query("beyond012"), Err("bad".to_string())), refused());
    assert_eq!(handle_proxy_request(&query(""), Ok(request("getHealth", Vec::new()))), refused());
}

#[test]
fn body_has_to_be_a_request() {
    assert_eq!(
        handle_proxy_request(&query("beyond0128"), Err("expected value at line 1 column 1".to_string())),
        ProxyOutcome::Reply(error(Json::Null, -32700, "Parse error", "expected value at line 1 column 1"))
    );
}

#[test]
fn only_transactions_to_send_are_broadcast() {
    let params = || vec![Json::Text("tx".to_string())];
    assert_eq!(
        handle_proxy_request(&query("beyond0128"), Ok(request("sendTransaction", params()))),
        ProxyOutcome::Forward { id: number(1), broadcast: Some(params()) }
    );
    for method in ["simulateTransaction", "getLatestBlockhash"] {
        assert_eq!(
            handle_proxy_request(&query("beyond0128"), Ok(request(method, params()))),
            ProxyOutcome::Forward { id: number(1), broadcast: None }
        );
    }
}

#[test]
fn other_methods_are_blocked() {
    for method in ["getAccountInfo", "requestAirdrop", "SendTransaction", ""] {
        assert!(!is_allowed_method(method));
        assert_eq!(
            handle_proxy_request(&query("beyond0128"), Ok(request(method, Vec::new()))),
            ProxyOutcome::Reply(error(
                number(1),
                -32601,
                "Method not allowed",
                "Allowed methods: sendTransaction, simulateTransaction, getLatestBlockhash"
            ))
        );
    }
}

#[test]
fn transaction_is_found_for_the_broadcast() {
    let transaction = Transaction { signatures: vec![Signature::from([6; 64])], ..Transaction::default() };
    let bytes = bincode::serialize(&transaction).unwrap();
    let params = vec![Json::Text(bs58::encode(&bytes).into_string())];
    assert_eq!(
        transaction_to_broadcast(&params),
        Some(SignedTransaction { bytes, format: TransactionFormat::Versioned, signature: [6; 64] })
    );
}

#[test]
fn parameters_without_a_transaction_are_not_broadcast() {
    assert_eq!(transaction_to_broadcast(&Vec::new()), None);
    assert_eq!(transaction_to_broadcast(&vec![number(1)]), None);
    assert_eq!(transaction_to_broadcast(&vec![Json::Text("0".to_string())]), None);
    assert_eq!(transaction_to_broadcast(&vec![Json::Text("11".to_string())]), None);
    let unsigned = bincode::serialize(&Transaction::default()).unwrap();
    assert_eq!(transaction_to_broadcast(&vec![Json::Text(bs58::encode(unsigned).into_string())]), None);
}

#[test]
fn broadcast_takes_what_is_ready() {
    let transaction =
        || SignedTransaction { bytes: vec![1], format: TransactionFormat::Legacy, signature: [0; 64] };
    assert_eq!(broadcast_of(Preparation::Ready(transaction())), Some(transaction()));
    assert_eq!(broadcast_of(Preparation::Unsigned), None);
    assert_eq!(broadcast_of(Preparation::Rejected("x".to_string())), None);
}

#[test]
fn headers_of_the_connection_stay_behind() {
    let headers = vec![
        header("host", b"proxy"),
        header("accept", b"*/*"),
        header("content-length", b"12"),
        header("x-visible", b"a\tb~"),
        header("x-accented", &[0xc3, 0xa9]),
        header("x-control", &[0x7f]),
        header("content-type", b"application/json"),
        header("accept", b"text/html"),
    ];
    let call = handle_proxy_method("http://localhost:8899", &headers, "{}".to_string());
    assert_eq!(call.url, "http://localhost:8899");
    assert_eq!(call.body, "{}");
    assert_eq!(
        call.headers,
        vec![
            header("Content-Type", b"application/json"),
            header("accept", b"*/*"),
            header("x-visible", b"a\tb~"),
            header("content-type", b"application/json"),
            header("accept", b"text/html"),
        ]
    );
}

#[test]
fn content_type_is_always_sent() {
    let call = handle_proxy_method("u", &Vec::new(), String::new());
    assert_eq!(call.headers, vec![header("Content-Type", b"application/json")]);
}

#[test]
fn answer_comes_back_under_the_callers_identifier() {
    let answer = JSONRPCResponse {
        jsonrpc: "2.1".to_string(),
        id: number(99),
        result: Some(Json::Text("hash".to_string())),
        error: Some(RPCError { code: 5, message: "m".to_string(), data: None }),
    };
    assert_eq!(
        proxy_reply(number(1), ProxyResult::Answered(answer)),
        JSONRPCResponse {
            jsonrpc: "2.1".to_string(),
            id: number(1),
            result: Some(Json::Text("hash".to_string())),
            error: Some(RPCError { code: 5, message: "m".to_string(), data: None }),
        }
    );
}

#[test]
fn failures_of_the_validator() {
    assert_eq!(
        proxy_reply(number(1), ProxyResult::Unreadable("eof".to_string())),
        error(number(1), -32603, "Invalid response from validator", "eof")
    );
    assert_eq!(
        proxy_reply(number(1), ProxyResult::Failed("refused".to_string())),
        error(Json::Null, -32603, "Internal proxy error", "refused")
    );
}
