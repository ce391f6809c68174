//! Transactions: finding one in a request's parameters, decoding it, reading its signature.
use vstd::prelude::*;

use crate::base58::base58_text;
use crate::codec::{decode_transaction, decoded_transaction};
use crate::json::{json_text, Json};
use crate::text::join;

verus! {

/// The signatures that the wire form of a versioned transaction holds, or what is wrong with it.
pub uninterp spec fn versioned_signatures(bytes: Seq<u8>) -> Result<Seq<[u8; 64]>, Seq<char>>;

/// The signatures that the wire form of a legacy transaction holds, or what is wrong with it.
pub uninterp spec fn legacy_signatures(bytes: Seq<u8>) -> Result<Seq<[u8; 64]>, Seq<char>>;

/// The outcome that `result` stands for, signatures and error text by their views.
pub open spec fn signatures(result: Result<Vec<[u8; 64]>, String>) -> Result<
    Seq<[u8; 64]>,
    Seq<char>,
> {
    match result {
        Ok(list) => Ok(list@),
        Err(error) => Err(error@),
    }
}

/// `bincode::deserialize::<VersionedTransaction>`, of whose result the signatures are kept: what
/// it returns depends on the bytes alone. An error is handed on as its displayed text.
#[verifier::external_body]
fn read_versioned(bytes: &Vec<u8>) -> (result: Result<Vec<[u8; 64]>, String>)
    ensures
        signatures(result) == versioned_signatures(bytes@),
{
    match bincode::deserialize::<solana_sdk::transaction::VersionedTransaction>(bytes) {
        Ok(transaction) => Ok(transaction.signatures.into_iter().map(<[u8; 64]>::from).collect()),
        Err(error) => Err(error.to_string()),
    }
}

/// `bincode::deserialize::<Transaction>`, of whose result the signatures are kept: what it
/// returns depends on the bytes alone. An error is handed on as its displayed text.
#[verifier::external_body]
fn read_legacy(bytes: &Vec<u8>) -> (result: Result<Vec<[u8; 64]>, String>)
    ensures
        signatures(result) == legacy_signatures(bytes@),
{
    match bincode::deserialize::<solana_sdk::transaction::Transaction>(bytes) {
        Ok(transaction) => Ok(transaction.signatures.into_iter().map(<[u8; 64]>::from).collect()),
        Err(error) => Err(error.to_string()),
    }
}

/// `solana_sdk::signature::Signature` as it displays itself: its 64 bytes in base58.
#[verifier::external_body]
pub(crate) fn signature_text(signature: [u8; 64]) -> (text: String)
    ensures
        text@ == base58_text(signature@),
{
    solana_sdk::signature::Signature::from(signature).to_string()
}

/// The wire form that a transaction is in.
#[derive(Debug, Clone, Copy, PartialEq, Eq, Structural)]
pub enum TransactionFormat {
    Versioned,
    Legacy,
}

/// What reading a transaction's signature comes to.
#[derive(Debug, PartialEq)]
pub enum SignatureRead {
    /// The transaction's first signature, and the form that the transaction is in.
    Signed { format: TransactionFormat, signature: [u8; 64] },
    /// A transaction without a signature.
    Unsigned,
    /// No transaction in either form; why it is not a legacy one.
    Malformed(String),
}

/// A [`SignatureRead`], its text by its view.
pub ghost enum SignatureFinding {
    Signed { format: TransactionFormat, signature: [u8; 64] },
    Unsigned,
    Malformed(Seq<char>),
}

impl View for SignatureRead {
    type V = SignatureFinding;

    open spec fn view(&self) -> SignatureFinding {
        match *self {
            SignatureRead::Signed { format, signature } => SignatureFinding::Signed {
                format,
                signature,
            },
            SignatureRead::Unsigned => SignatureFinding::Unsigned,
            SignatureRead::Malformed(error) => SignatureFinding::Malformed(error@),
        }
    }
}

/// The first of `list`, where there is one.
pub open spec fn first_signature(format: TransactionFormat, list: Seq<[u8; 64]>) -> SignatureFinding {
    if list.len() == 0 {
        SignatureFinding::Unsigned
    } else {
        SignatureFinding::Signed { format, signature: list[0] }
    }
}

/// What the signature is, given what the two wire forms make of the bytes.
pub open spec fn chosen_signature(
    versioned: Result<Seq<[u8; 64]>, Seq<char>>,
    legacy: Result<Seq<[u8; 64]>, Seq<char>>,
) -> SignatureFinding {
    match versioned {
        Ok(list) => first_signature(TransactionFormat::Versioned, list),
        Err(_) => match legacy {
            Ok(list) => first_signature(TransactionFormat::Legacy, list),
            Err(error) => SignatureFinding::Malformed(error),
        },
    }
}

/// The signature of the transaction whose wire form is `bytes`.
pub open spec fn found_signature(bytes: Seq<u8>) -> SignatureFinding {
    chosen_signature(versioned_signatures(bytes), legacy_signatures(bytes))
}

/// The first of `list`, where there is one.
pub fn take_first_signature(format: TransactionFormat, list: Vec<[u8; 64]>) -> (read: SignatureRead)
    ensures
        read@ == first_signature(format, list@),
{
    if list.len() == 0 {
        SignatureRead::Unsigned
    } else {
        SignatureRead::Signed { format, signature: list[0] }
    }
}

/// What the signature is of bytes that are not a versioned transaction.
pub fn after_versioned_failed(legacy: Result<Vec<[u8; 64]>, String>) -> (read: SignatureRead)
    ensures
        forall|error: Seq<char>|
            read@ == #[trigger] chosen_signature(Err(error), signatures(legacy)),
{
    match legacy {
        Ok(list) => take_first_signature(TransactionFormat::Legacy, list),
        Err(error) => SignatureRead::Malformed(error),
    }
}

/// Reads the signature of the transaction whose wire form is `bytes`.
pub fn read_signature(bytes: &Vec<u8>) -> (read: SignatureRead)
    ensures
        read@ == found_signature(bytes@),
{
    match read_versioned(bytes) {
        Ok(list) => take_first_signature(TransactionFormat::Versioned, list),
        Err(_) => after_versioned_failed(read_legacy(bytes)),
    }
}

/// A transaction that is ready to be sent.
#[derive(Debug, PartialEq)]
pub struct SignedTransaction {
    pub bytes: Vec<u8>,
    pub format: TransactionFormat,
    pub signature: [u8; 64],
}

/// What a request's parameters come to.
#[derive(Debug, PartialEq)]
pub enum Preparation {
    /// A transaction to send.
    Ready(SignedTransaction),
    /// A transaction without a signature.
    Unsigned,
    /// No transaction; what is wrong with the parameters.
    Rejected(String),
}

/// A [`Preparation`], its bytes and text by their views.
pub ghost enum Prepared {
    Ready { bytes: Seq<u8>, format: TransactionFormat, signature: [u8; 64] },
    Unsigned,
    Rejected(Seq<char>),
}

impl View for Preparation {
    type V = Prepared;

    open spec fn view(&self) -> Prepared {
        match *self {
            Preparation::Ready(transaction) => Prepared::Ready {
                bytes: transaction.bytes@,
                format: transaction.format,
                signature: transaction.signature,
            },
            Preparation::Unsigned => Prepared::Unsigned,
            Preparation::Rejected(data) => Prepared::Rejected(data@),
        }
    }
}

/// The transaction's text in a request's parameters, or what is wrong with them.
pub open spec fn transaction_text(params: Seq<Json>) -> Result<Seq<char>, Seq<char>> {
    if params.len() == 0 {
        Err("Missing transaction parameter"@)
    } else {
        match json_text(params[0]) {
            Some(text) => Ok(text),
            None => Err("Transaction must be a string (base58 or base64)"@),
        }
    }
}

/// What decoded bytes come to, given what was found of their signature. `malformed` introduces
/// the message on bytes that are no transaction.
pub open spec fn judged(bytes: Seq<u8>, found: SignatureFinding, malformed: Seq<char>) -> Prepared {
    match found {
        SignatureFinding::Signed { format, signature } => Prepared::Ready {
            bytes,
            format,
            signature,
        },
        SignatureFinding::Unsigned => Prepared::Unsigned,
        SignatureFinding::Malformed(error) => Prepared::Rejected(malformed + error),
    }
}

/// What a request's parameters come to.
pub open spec fn prepared(params: Seq<Json>, malformed: Seq<char>) -> Prepared {
    match transaction_text(params) {
        Err(data) => Prepared::Rejected(data),
        Ok(text) => match decoded_transaction(text) {
            Err(data) => Prepared::Rejected(data),
            Ok(bytes) => judged(bytes, found_signature(bytes), malformed),
        },
    }
}

/// The transaction's text in a request's parameters, or what is wrong with them.
pub fn find_transaction_text(params: &Vec<Json>) -> (found: Result<&str, String>)
    ensures
        match found {
            Ok(text) => transaction_text(params@) == Ok::<Seq<char>, Seq<char>>(text@),
            Err(data) => transaction_text(params@) == Err::<Seq<char>, Seq<char>>(data@),
        },
{
    if params.len() == 0 {
        return Err("Missing transaction parameter".to_owned());
    }
    match params[0].as_str() {
        Some(text) => Ok(text),
        None => Err("Transaction must be a string (base58 or base64)".to_owned()),
    }
}

/// What decoded bytes come to, given what was read of their signature.
pub fn judge(bytes: Vec<u8>, read: SignatureRead, malformed: &str) -> (preparation: Preparation)
    ensures
        preparation@ == judged(bytes@, read@, malformed@),
{
    match read {
        SignatureRead::Signed { format, signature } => Preparation::Ready(
            SignedTransaction { bytes, format, signature },
        ),
        SignatureRead::Unsigned => Preparation::Unsigned,
        SignatureRead::Malformed(error) => Preparation::Rejected(
            join(malformed, error.as_str()),
        ),
    }
}

/// Finds, decodes and reads the transaction in a request's parameters.
pub fn prepare_transaction(params: &Vec<Json>, malformed: &str) -> (preparation: Preparation)
    ensures
        preparation@ == prepared(params@, malformed@),
{
    match find_transaction_text(params) {
        Err(data) => Preparation::Rejected(data),
        Ok(text) => match decode_transaction(text) {
            Err(data) => Preparation::Rejected(data),
            Ok(bytes) => {
                let read = read_signature(&bytes);
                judge(bytes, read, malformed)
            },
        },
    }
}

/// All endpoints accept the same transactions: whether parameters hold one, and which, does not
/// depend on how a refusal is worded.
pub proof fn endpoints_accept_the_same(params: Seq<Json>, wording: Seq<char>, other: Seq<char>)
    ensures
        prepared(params, wording) is Ready <==> prepared(params, other) is Ready,
        prepared(params, wording) is Unsigned <==> prepared(params, other) is Unsigned,
        prepared(params, wording) is Rejected <==> prepared(params, other) is Rejected,
        prepared(params, wording) is Ready ==> prepared(params, wording) == prepared(params, other),
{
}

/// What is sent is the caller's transaction, byte for byte as it was decoded, under the first
/// signature that is read from those bytes.
pub proof fn ready_transaction_is_the_callers(params: Seq<Json>, malformed: Seq<char>)
    requires
        prepared(params, malformed) is Ready,
    ensures
        params.len() > 0,
        json_text(params[0]) is Some,
        decoded_transaction(json_text(params[0])->0) == Ok::<Seq<u8>, Seq<char>>(
            prepared(params, malformed)->Ready_bytes,
        ),
        found_signature(prepared(params, malformed)->Ready_bytes) == (SignatureFinding::Signed {
            format: prepared(params, malformed)->Ready_format,
            signature: prepared(params, malformed)->Ready_signature,
        }),
{
}

/// Only the first parameter counts.
pub proof fn only_the_first_parameter_counts(
    params: Seq<Json>,
    others: Seq<Json>,
    malformed: Seq<char>,
)
    requires
        params.len() > 0,
        others.len() > 0,
        params[0] == others[0],
    ensures
        prepared(params, malformed) == prepared(others, malformed),
{
}

/// What is read counts as it is, signatures and words.
pub proof fn signatures_are_kept(result: Result<Vec<[u8; 64]>, String>)
    ensures
        match result {
            Ok(list) => signatures(result) == Ok::<Seq<[u8; 64]>, Seq<char>>(list@),
            Err(error) => signatures(result) == Err::<Seq<[u8; 64]>, Seq<char>>(error@),
        },
{
}

/// The first signature stands for a transaction. Bytes that are a versioned transaction are taken
/// for one, whatever they are as a legacy transaction; the legacy form counts where they are none,
/// and so do its words where they are neither.
pub proof fn first_signature_stands_for_the_transaction(
    versioned: Result<Seq<[u8; 64]>, Seq<char>>,
    legacy: Result<Seq<[u8; 64]>, Seq<char>>,
)
    ensures
        ({
            let found = chosen_signature(versioned, legacy);
            match (versioned, legacy) {
                (Ok(list), _) => if list.len() > 0 {
                    found == (SignatureFinding::Signed {
                        format: TransactionFormat::Versioned,
                        signature: list[0],
                    })
                } else {
                    found is Unsigned
                },
                (Err(_), Ok(list)) => if list.len() > 0 {
                    found == (SignatureFinding::Signed {
                        format: TransactionFormat::Legacy,
                        signature: list[0],
                    })
                } else {
                    found is Unsigned
                },
                (Err(_), Err(error)) => found == SignatureFinding::Malformed(error),
            }
        }),
        forall|format: TransactionFormat, list: Seq<[u8; 64]>| #[trigger]
            first_signature(format, list) == if list.len() > 0 {
                SignatureFinding::Signed { format, signature: list[0] }
            } else {
                SignatureFinding::Unsigned
            },
{
}

/// What a reading or a preparation comes to holds all that it holds itself.
pub proof fn views_keep_everything(read: SignatureRead, preparation: Preparation)
    ensures
        match read {
            SignatureRead::Signed { format, signature } => read@ == (SignatureFinding::Signed {
                format,
                signature,
            }),
            SignatureRead::Unsigned => read@ is Unsigned,
            SignatureRead::Malformed(error) => read@ == SignatureFinding::Malformed(error@),
        },
        match preparation {
            Preparation::Ready(transaction) => preparation@ == (Prepared::Ready {
                bytes: transaction.bytes@,
                format: transaction.format,
                signature: transaction.signature,
            }),
            Preparation::Unsigned => preparation@ is Unsigned,
            Preparation::Rejected(data) => preparation@ == Prepared::Rejected(data@),
        },
{
}

/// Parameters have to hold a transaction, as the text that comes first among them.
pub proof fn transaction_is_the_first_parameter(params: Seq<Json>, malformed: Seq<char>)
    ensures
        params.len() == 0 ==> {
            &&& transaction_text(params) == Err::<Seq<char>, Seq<char>>(
                "Missing transaction parameter"@,
            )
            &&& prepared(params, malformed) == Prepared::Rejected("Missing transaction parameter"@)
        },
        params.len() > 0 ==> match params[0] {
            Json::Text(text) => transaction_text(params) == Ok::<Seq<char>, Seq<char>>(text@),
            _ => {
                &&& transaction_text(params) == Err::<Seq<char>, Seq<char>>(
                    "Transaction must be a string (base58 or base64)"@,
                )
                &&& prepared(params, malformed) == Prepared::Rejected(
                    "Transaction must be a string (base58 or base64)"@,
                )
            },
        },
{
}

/// A signed transaction is ready to be sent with the bytes that its text decodes to and the first
/// signature in them; a text that does not decode is rejected in the decoder's words, and bytes
/// that are no transaction in words that `malformed` introduces.
pub proof fn decoded_bytes_are_sent(params: Seq<Json>, text: String, malformed: Seq<char>)
    requires
        params.len() > 0,
        params[0] == Json::Text(text),
    ensures
        match decoded_transaction(text@) {
            Err(data) => prepared(params, malformed) == Prepared::Rejected(data),
            Ok(bytes) => match (versioned_signatures(bytes), legacy_signatures(bytes)) {
                (Ok(list), _) => if list.len() > 0 {
                    prepared(params, malformed) == (Prepared::Ready {
                        bytes,
                        format: TransactionFormat::Versioned,
                        signature: list[0],
                    })
                } else {
                    prepared(params, malformed) is Unsigned
                },
                (Err(_), Ok(list)) => if list.len() > 0 {
                    prepared(params, malformed) == (Prepared::Ready {
                        bytes,
                        format: TransactionFormat::Legacy,
                        signature: list[0],
                    })
                } else {
                    prepared(params, malformed) is Unsigned
                },
                (Err(_), Err(error)) => prepared(params, malformed) == Prepared::Rejected(
                    malformed + error,
                ),
            },
        },
{
}

/// Bytes are judged by the signature that is found in them, and are themselves left as they are.
pub proof fn bytes_are_judged_by_their_signature(
    bytes: Seq<u8>,
    found: SignatureFinding,
    malformed: Seq<char>,
)
    ensures
        match found {
            SignatureFinding::Signed { format, signature } => judged(bytes, found, malformed) == (
            Prepared::Ready { bytes, format, signature }),
            SignatureFinding::Unsigned => judged(bytes, found, malformed) is Unsigned,
            SignatureFinding::Malformed(error) => judged(bytes, found, malformed)
                == Prepared::Rejected(malformed + error),
        },
        found_signature(bytes) == chosen_signature(
            versioned_signatures(bytes),
            legacy_signatures(bytes),
        ),
{
}

} // verus!
