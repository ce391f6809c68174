use solana_proxy::json::Json;
use solana_proxy::validators::{
    collect_vote_accounts, fetch_jito_validator_pubkeys, is_success, ValidatorsReply,
    JITO_VALIDATORS_URL,
};

fn text(value: &str) -> Json {
    Json::Text(value.to_string())
}

fn object(name: &str, value: Json) -> Json {
    Json::Object(vec![(name.to_string(), value)])
}

fn body(entries: Vec<Json>) -> Json {
    object("validators", Json::Array(entries))
}

#[test]
fn accounts_are_collected_once_each() {
    let accounts = collect_vote_accounts(&body(vec![
        object("vote_account", text("a")),
        object("vote_account", Json::Null),
        object("identity", text("x")),
        text("y"),
        object("vote_account", text("b")),
        object("vote_account", text("a")),
    ]));
    assert_eq!(accounts, vec!["a".to_string(), "b".to_string()]);
}

#[test]
fn other_bodies_name_no_validators() {
    assert!(collect_vote_accounts(&Json::Null).is_empty());
    assert!(collect_vote_accounts(&object("validators", text("a"))).is_empty());
    assert!(collect_vote_accounts(&object("others", Json::Array(vec![object("vote_account", text("a"))]))).is_empty());
}

#[test]
fn list_replaces_the_table() {
    let mut table = vec!["old".to_string()];
    let reply = ValidatorsReply::Body(body(vec![object("vote_account", text("new"))]));
    assert_eq!(fetch_jito_validator_pubkeys(&mut table, reply), Ok(()));
    assert_eq!(table, vec!["new".to_string()]);
}

#[test]
fn failures_leave_the_table_alone() {
    for (reply, message) in [
        (ValidatorsReply::Unreachable("down".to_string()), "Request failed: down"),
        (ValidatorsReply::Refused("404 Not Found".to_string()), "API returned error status: 404 Not Found"),
        (ValidatorsReply::Unreadable("eof".to_string()), "Failed to parse response: eof"),
        (ValidatorsReply::Body(body(Vec::new())), "No Jito validators found"),
    ] {
        let mut table = vec!["old".to_string()];
        assert_eq!(fetch_jito_validator_pubkeys(&mut table, reply), Err(message.to_string()));
        assert_eq!(table, vec!["old".to_string()]);
    }
}

#[test]
fn success_is_the_two_hundreds() {
    assert!(!is_success(199));
    assert!(is_success(200));
    assert!(is_success(299));
    assert!(!is_success(300));
    assert!(!is_success(404));
}

#[test]
fn list_has_its_address() {
    assert_eq!(JITO_VALIDATORS_URL, "https://kobe.mainnet.jito.network/api/v1/jitosol_validators");
}
