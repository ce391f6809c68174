use base64::Engine;
use solana_proxy::json::Json;
use solana_proxy::transaction::{
    after_versioned_failed, find_transaction_text, judge, prepare_transaction, read_signature,
    take_first_signature, Preparation, SignatureRead, SignedTransaction, TransactionFormat,
};
use solana_sdk::signature::Signature;
use solana_sdk::transaction::{Transaction, VersionedTransaction};

fn signed(signatures: Vec<[u8; 64]>) -> Transaction {
    Transaction {
        signatures: signatures.into_iter().map(Signature::from).collect(),
        ..Transaction::default()
    }
}

/// A legacy transaction that no versioned message can be.
fn legacy_only(signatures: Vec<[u8; 64]>) -> Transaction {
    let mut transaction = signed(signatures);
    transaction.message.header.num_required_signatures = 200;
    transaction
}

fn param(text: String) -> Vec<Json> {
    vec![Json::Text(text)]
}

#[test]
fn first_signature_of_a_versioned_transaction() {
    let bytes = bincode::serialize(&VersionedTransaction::from(signed(vec![[7; 64], [8; 64]]))).unwrap();
    assert_eq!(
        read_signature(&bytes),
        SignatureRead::Signed { format: TransactionFormat::Versioned, signature: [7; 64] }
    );
}

#[test]
fn legacy_transaction_is_read_as_versioned_where_it_can_be() {
    let bytes = bincode::serialize(&signed(vec![[9; 64]])).unwrap();
    assert_eq!(
        read_signature(&bytes),
        SignatureRead::Signed { format: TransactionFormat::Versioned, signature: [9; 64] }
    );
}

#[test]
fn first_signature_of_a_legacy_transaction() {
    let bytes = bincode::serialize(&legacy_only(vec![[3; 64], [4; 64]])).unwrap();
    assert!(bincode::deserialize::<VersionedTransaction>(&bytes).is_err());
    assert_eq!(
        read_signature(&bytes),
        SignatureRead::Signed { format: TransactionFormat::Legacy, signature: [3; 64] }
    );
}

#[test]
fn transaction_without_a_signature() {
    let bytes = bincode::serialize(&signed(Vec::new())).unwrap();
    assert_eq!(read_signature(&bytes), SignatureRead::Unsigned);
    let legacy = bincode::serialize(&legacy_only(Vec::new())).unwrap();
    assert_eq!(read_signature(&legacy), SignatureRead::Unsigned);
}

#[test]
fn bytes_that_are_no_transaction() {
    let bytes = vec![1, 2, 3];
    let error = bincode::deserialize::<Transaction>(&bytes).unwrap_err().to_string();
    assert_eq!(read_signature(&bytes), SignatureRead::Malformed(error));
}

#[test]
fn first_of_a_list_of_signatures() {
    assert_eq!(
        take_first_signature(TransactionFormat::Legacy, vec![[1; 64], [2; 64]]),
        SignatureRead::Signed { format: TransactionFormat::Legacy, signature: [1; 64] }
    );
    assert_eq!(take_first_signature(TransactionFormat::Versioned, Vec::new()), SignatureRead::Unsigned);
}

#[test]
fn legacy_form_is_the_second_guess() {
    assert_eq!(
        after_versioned_failed(Ok(vec![[5; 64]])),
        SignatureRead::Signed { format: TransactionFormat::Legacy, signature: [5; 64] }
    );
    assert_eq!(after_versioned_failed(Err("bad".to_string())), SignatureRead::Malformed("bad".to_string()));
}

#[test]
fn text_of_the_first_parameter() {
    assert_eq!(find_transaction_text(&param("abc".to_string())), Ok("abc"));
    assert_eq!(find_transaction_text(&Vec::new()), Err("Missing transaction parameter".to_string()));
    assert_eq!(
        find_transaction_text(&vec![Json::Null, Json::Text("abc".to_string())]),
        Err("Transaction must be a string (base58 or base64)".to_string())
    );
}

#[test]
fn transaction_is_prepared_from_either_encoding() {
    let bytes = bincode::serialize(&signed(vec![[255; 64]])).unwrap();
    let expected = || {
        Preparation::Ready(SignedTransaction {
            bytes: bytes.clone(),
            format: TransactionFormat::Versioned,
            signature: [255; 64],
        })
    };
    let text58 = bs58::encode(&bytes).into_string();
    let text64 = base64::engine::general_purpose::STANDARD.encode(&bytes);
    assert!(text64.contains('/'));
    assert_eq!(prepare_transaction(&param(text58.clone()), "Bad: "), expected());
    assert_eq!(prepare_transaction(&param(text64), "Bad: "), expected());
    // The wording of a refusal and the other parameters make no difference.
    assert_eq!(prepare_transaction(&param(text58.clone()), ""), expected());
    assert_eq!(prepare_transaction(&vec![Json::Text(text58), Json::Null], ""), expected());
}

#[test]
fn parameters_without_a_transaction_are_rejected() {
    assert_eq!(
        prepare_transaction(&Vec::new(), "Bad: "),
        Preparation::Rejected("Missing transaction parameter".to_string())
    );
    assert_eq!(
        prepare_transaction(&param("abc=def".to_string()), "Bad: "),
        Preparation::Rejected(solana_proxy::codec::decode_transaction("abc=def").unwrap_err())
    );
    let error = bincode::deserialize::<Transaction>(&[0u8, 0]).unwrap_err().to_string();
    assert_eq!(
        prepare_transaction(&param("11".to_string()), "Bad: "),
        Preparation::Rejected(format!("Bad: {}", error))
    );
}

#[test]
fn unsigned_transaction_is_told_apart() {
    let bytes = bincode::serialize(&signed(Vec::new())).unwrap();
    assert_eq!(
        prepare_transaction(&param(bs58::encode(&bytes).into_string()), "Bad: "),
        Preparation::Unsigned
    );
}

#[test]
fn judging_what_was_read() {
    assert_eq!(
        judge(vec![1], SignatureRead::Signed { format: TransactionFormat::Legacy, signature: [2; 64] }, "x"),
        Preparation::Ready(SignedTransaction {
            bytes: vec![1],
            format: TransactionFormat::Legacy,
            signature: [2; 64],
        })
    );
    assert_eq!(judge(vec![1], SignatureRead::Unsigned, "x"), Preparation::Unsigned);
    assert_eq!(
        judge(vec![1], SignatureRead::Malformed("y".to_string()), "x: "),
        Preparation::Rejected("x: y".to_string())
    );
}
