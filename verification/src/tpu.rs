//! Sending transactions to the cluster: what goes to which address, and what is done where there
//! is none or nothing goes out.
use vstd::prelude::*;

use crate::address::SocketAddr;
use crate::base58::base58_text;
use crate::cluster::{first_of, MAX_TPU_TARGETS};
use crate::json::Json;
use crate::rpc::{
    error_reply, is_error_reply, is_text_reply, text_reply, CommitmentLevel, JSONRPCRequest,
    JSONRPCResponse, INTERNAL_ERROR, INVALID_PARAMS,
};
use crate::transaction::{
    prepare_transaction, prepared, signature_text, Preparation, Prepared, SignedTransaction,
    TransactionFormat,
};

verus! {

/// What introduces the message on bytes that are no transaction.
pub const MALFORMED: &'static str =
    "Failed to deserialize transaction (tried VersionedTransaction and Transaction): ";

/// A message to an address.
#[derive(Debug, PartialEq)]
pub struct Datagram {
    pub target: SocketAddr,
    pub payload: Vec<u8>,
}

/// `list` carries `bytes` to each of `targets`, in their order.
pub open spec fn carries(list: Seq<Datagram>, bytes: Seq<u8>, targets: Seq<SocketAddr>) -> bool {
    &&& list.len() == targets.len()
    &&& forall|i: int|
        0 <= i < list.len() ==> (#[trigger] list[i]).target == targets[i] && list[i].payload@ == bytes
}

/// Messages that carry `bytes` to the first `limit` of the addresses in `table`.
pub fn datagrams(table: &Vec<SocketAddr>, limit: usize, bytes: &Vec<u8>) -> (list: Vec<Datagram>)
    ensures
        carries(list@, bytes@, first_of(table@, limit as int)),
{
    let mut list: Vec<Datagram> = Vec::new();
    while list.len() < table.len() && list.len() < limit
        invariant
            list.len() <= table.len(),
            list.len() <= limit,
            forall|i: int|
                0 <= i < list.len() ==> (#[trigger] list@[i]).target == table@[i]
                    && list@[i].payload@ == bytes@,
        decreases table.len() - list.len(),
    {
        let target = table[list.len()];
        list.push(Datagram { target, payload: bytes.clone() });
    }
    list
}

/// The messages that broadcast a transaction to the addresses in `table`.
pub fn send_transaction_via_tpu(table: &Vec<SocketAddr>, bytes: &Vec<u8>) -> (list: Vec<Datagram>)
    ensures
        carries(list@, bytes@, first_of(table@, MAX_TPU_TARGETS as int)),
{
    datagrams(table, MAX_TPU_TARGETS, bytes)
}

/// How a transaction is written in a request.
#[derive(Debug, Clone, Copy, PartialEq, Eq, Structural)]
pub enum UiTransactionEncoding {
    Base58,
    Base64,
}

/// How a transaction is to be sent through the validator.
#[derive(Debug, Clone, Copy, PartialEq, Eq, Structural)]
pub struct RpcSendTransactionConfig {
    pub skip_preflight: bool,
    pub preflight_commitment: CommitmentLevel,
    pub encoding: UiTransactionEncoding,
    pub max_retries: usize,
    pub min_context_slot: Option<u64>,
}

/// How a transaction is sent through the validator: tried first, written in base58, repeated three
/// times at most, and against no slot in particular.
pub open spec fn fallback_config() -> RpcSendTransactionConfig {
    RpcSendTransactionConfig {
        skip_preflight: false,
        preflight_commitment: CommitmentLevel::Processed,
        encoding: UiTransactionEncoding::Base58,
        max_retries: 3,
        min_context_slot: None,
    }
}

/// What is to be done with a request to send a transaction.
#[derive(Debug, PartialEq)]
pub enum SendOutcome {
    /// Answer it at once.
    Reply(JSONRPCResponse),
    /// The transaction has no signature to answer with.
    Unsigned,
    /// Send these messages, which carry the transaction. What follows is decided by
    /// [`after_sends`], once it is known which of them went out.
    Send { id: Json, messages: Vec<Datagram>, transaction: SignedTransaction },
    /// Send the transaction through the validator, and answer under the identifier `id`.
    Rpc { id: Json, transaction: SignedTransaction, config: RpcSendTransactionConfig },
}

/// `outcome` is what is to be done with the request `id`, whose parameters come to `prepared`,
/// where the addresses in `table` are known.
pub open spec fn is_send_outcome(
    id: Json,
    prepared: Prepared,
    table: Seq<SocketAddr>,
    outcome: SendOutcome,
) -> bool {
    match prepared {
        Prepared::Rejected(data) => outcome matches SendOutcome::Reply(reply) && is_error_reply(
            reply,
            id,
            INVALID_PARAMS,
            "Invalid params"@,
            data,
        ),
        Prepared::Unsigned => outcome is Unsigned,
        Prepared::Ready { bytes, .. } => if table.len() > 0 {
            outcome matches SendOutcome::Send { id: caller, messages, transaction } && caller == id
                && carries(messages@, bytes, first_of(table, MAX_TPU_TARGETS as int))
                && Preparation::Ready(transaction)@ == prepared
        } else {
            outcome matches SendOutcome::Rpc { id: caller, transaction, config } && caller == id
                && Preparation::Ready(transaction)@ == prepared && config == fallback_config()
        },
    }
}

/// The transaction goes through the validator.
fn send_through_validator(id: Json, transaction: SignedTransaction) -> (outcome: SendOutcome)
    ensures
        outcome == (SendOutcome::Rpc { id, transaction, config: fallback_config() }),
{
    SendOutcome::Rpc {
        id,
        transaction,
        config: RpcSendTransactionConfig {
            skip_preflight: false,
            preflight_commitment: CommitmentLevel::Processed,
            encoding: UiTransactionEncoding::Base58,
            max_retries: 3,
            min_context_slot: None,
        },
    }
}

/// Decides what is to be done with the request `id`, given what its parameters come to.
pub fn send_prepared(id: Json, preparation: Preparation, table: &Vec<SocketAddr>) -> (outcome:
    SendOutcome)
    ensures
        is_send_outcome(id, preparation@, table@, outcome),
{
    match preparation {
        Preparation::Rejected(data) => SendOutcome::Reply(
            error_reply(id, INVALID_PARAMS, "Invalid params", data),
        ),
        Preparation::Unsigned => SendOutcome::Unsigned,
        Preparation::Ready(transaction) => {
            if table.len() > 0 {
                let messages = send_transaction_via_tpu(table, &transaction.bytes);
                SendOutcome::Send { id, messages, transaction }
            } else {
                send_through_validator(id, transaction)
            }
        },
    }
}

/// Decides what is to be done with a request to send a transaction: it goes to the leaders
/// directly, or through the validator where no address is known. [`after_sends`] takes over once
/// the messages to the leaders have been sent.
pub fn handle_send_transaction_tpu(request: JSONRPCRequest, table: &Vec<SocketAddr>) -> (outcome:
    SendOutcome)
    ensures
        is_send_outcome(request.id, prepared(request.params@, MALFORMED@), table@, outcome),
{
    let preparation = prepare_transaction(&request.params, MALFORMED);
    send_prepared(request.id, preparation, table)
}

/// Whether any of the messages went out.
pub open spec fn any_sent(sent: Seq<bool>) -> bool {
    sent.contains(true)
}

/// Tells whether any of the messages went out, where `sent` says of each whether it did.
pub fn is_any_sent(sent: &Vec<bool>) -> (any: bool)
    ensures
        any == any_sent(sent@),
{
    let mut i: usize = 0;
    while i < sent.len()
        invariant
            i <= sent.len(),
            forall|k: int| 0 <= k < i ==> !sent@[k],
        decreases sent.len() - i,
    {
        if sent[i] {
            return true;
        }
        i = i + 1;
    }
    false
}

/// `outcome` is what is to be done with the request `id` once its messages have been sent, where
/// `sent` says of each whether it went out.
pub open spec fn is_outcome_of_sends(
    id: Json,
    transaction: SignedTransaction,
    sent: Seq<bool>,
    outcome: SendOutcome,
) -> bool {
    if any_sent(sent) {
        outcome matches SendOutcome::Reply(reply) && is_text_reply(
            reply,
            id,
            base58_text(transaction.signature@),
        )
    } else {
        outcome == (SendOutcome::Rpc { id, transaction, config: fallback_config() })
    }
}

/// Decides what is to be done with the request `id` once its messages have been sent, where
/// `sent` says of each whether it went out: where one did, the answer is the transaction's
/// signature; where all failed, the transaction goes through the validator.
pub fn after_sends(id: Json, transaction: SignedTransaction, sent: &Vec<bool>) -> (outcome:
    SendOutcome)
    ensures
        is_outcome_of_sends(id, transaction, sent@, outcome),
{
    if is_any_sent(sent) {
        SendOutcome::Reply(text_reply(id, signature_text(transaction.signature)))
    } else {
        send_through_validator(id, transaction)
    }
}

/// What the caller whose request is `id` is answered, given what came of sending the transaction
/// through the validator: the signature that it returned, or why it did not.
pub fn rpc_reply(id: Json, sent: Result<[u8; 64], String>) -> (reply: JSONRPCResponse)
    ensures
        match sent {
            Ok(signature) => is_text_reply(reply, id, base58_text(signature@)),
            Err(error) => is_error_reply(
                reply,
                id,
                INTERNAL_ERROR,
                "Transaction failed"@,
                error@,
            ),
        },
{
    match sent {
        Ok(signature) => text_reply(id, signature_text(signature)),
        Err(error) => error_reply(id, INTERNAL_ERROR, "Transaction failed", error),
    }
}

/// A transaction goes to ten addresses at most, and to none only where none is known.
pub proof fn at_most_ten_messages(list: Seq<Datagram>, bytes: Seq<u8>, table: Seq<SocketAddr>)
    requires
        carries(list, bytes, first_of(table, MAX_TPU_TARGETS as int)),
    ensures
        list.len() <= MAX_TPU_TARGETS,
        list.len() == 0 <==> table.len() == 0,
{
}

/// `last` is what a request `id` comes to in the end, whose parameters come to `prepared`: what is
/// decided at first, or, where that is to send messages, what follows once `sent` says of each of
/// them whether it went out.
pub open spec fn is_send_run(
    id: Json,
    prepared: Prepared,
    table: Seq<SocketAddr>,
    sent: Seq<bool>,
    last: SendOutcome,
) -> bool {
    exists|first: SendOutcome| #[trigger]
        is_send_outcome(id, prepared, table, first) && match first {
            SendOutcome::Send { id: caller, messages, transaction } => sent.len() == messages@.len()
                && is_outcome_of_sends(caller, transaction, sent, last),
            _ => sent.len() == 0 && last == first,
        }
}

/// The leaders come first and the validator last: a transaction goes through the validator exactly
/// where no message went out, because no address is known or because all the messages failed.
/// Where one went out, the caller is answered with the transaction's signature.
pub proof fn validator_is_the_last_resort(
    id: Json,
    prepared: Prepared,
    table: Seq<SocketAddr>,
    sent: Seq<bool>,
    last: SendOutcome,
)
    requires
        is_send_run(id, prepared, table, sent, last),
        prepared is Ready,
    ensures
        sent.len() <= MAX_TPU_TARGETS,
        sent.len() == 0 <==> table.len() == 0,
        last is Rpc <==> table.len() == 0 || forall|i: int|
            0 <= i < sent.len() ==> !(#[trigger] sent[i]),
        last matches SendOutcome::Rpc { id: caller, transaction, config } ==> caller == id
            && Preparation::Ready(transaction)@ == prepared && config == fallback_config(),
        !(last is Rpc) ==> (last matches SendOutcome::Reply(reply) && is_text_reply(
            reply,
            id,
            base58_text(prepared->signature@),
        )),
{
    if !(last is Rpc) {
        assert(sent[sent.index_of(true)]);
    }
}

/// Whatever becomes of a request, it is answered under its own identifier.
pub proof fn sent_requests_keep_their_identifier(
    id: Json,
    prepared: Prepared,
    table: Seq<SocketAddr>,
    sent: Seq<bool>,
    last: SendOutcome,
)
    requires
        is_send_run(id, prepared, table, sent, last),
    ensures
        last matches SendOutcome::Reply(reply) ==> reply.id == id,
        last matches SendOutcome::Rpc { id: caller, .. } ==> caller == id,
        !(last is Send),
{
}

/// Each target gets one message, in the targets' order, and each message is the transaction byte
/// for byte.
pub proof fn each_target_gets_the_bytes(
    list: Seq<Datagram>,
    bytes: Seq<u8>,
    targets: Seq<SocketAddr>,
)
    requires
        carries(list, bytes, targets),
    ensures
        list.len() == targets.len(),
        forall|i: int| 0 <= i < list.len() ==> (#[trigger] list[i]).target == targets[i],
        forall|i: int| 0 <= i < list.len() ==> (#[trigger] list[i]).payload@ == bytes,
{
}

/// A message went out where one of the sends succeeded, whichever it is.
pub proof fn one_send_is_enough(sent: Seq<bool>)
    ensures
        any_sent(sent) <==> exists|i: int| 0 <= i < sent.len() && #[trigger] sent[i],
{
    if exists|i: int| 0 <= i < sent.len() && #[trigger] sent[i] {
        let i = choose|i: int| 0 <= i < sent.len() && #[trigger] sent[i];
        assert(sent[i] == true);
    }
    if any_sent(sent) {
        assert(sent[sent.index_of(true)]);
    }
}

/// Through the validator a transaction is tried first, at the commitment `processed`, written in
/// base58, repeated three times at most and bound to no slot.
pub proof fn validator_tries_a_transaction_first()
    ensures
        !fallback_config().skip_preflight,
        fallback_config().preflight_commitment is Processed,
        fallback_config().encoding is Base58,
        fallback_config().max_retries == 3,
        fallback_config().min_context_slot is None,
{
}

/// A signed transaction goes, as it was decoded and under the caller's identifier, to the first
/// ten of the addresses that are known, one message to each in their order, or through the
/// validator where none is known.
pub proof fn transaction_goes_to_the_first_ten(
    id: Json,
    bytes: Seq<u8>,
    format: TransactionFormat,
    signature: [u8; 64],
    table: Seq<SocketAddr>,
    outcome: SendOutcome,
)
    requires
        is_send_outcome(id, Prepared::Ready { bytes, format, signature }, table, outcome),
    ensures
        table.len() > 0 ==> (outcome matches SendOutcome::Send { id: caller, messages, transaction }
            && {
            &&& caller == id
            &&& transaction.bytes@ == bytes
            &&& transaction.format == format
            &&& transaction.signature == signature
            &&& messages@.len() == if table.len() < 10 {
                table.len() as int
            } else {
                10
            }
            &&& forall|i: int|
                0 <= i < messages@.len() ==> (#[trigger] messages@[i]).target == table[i]
                    && messages@[i].payload@ == bytes
        }),
        table.len() == 0 ==> (outcome matches SendOutcome::Rpc { id: caller, transaction, config }
            && {
            &&& caller == id
            &&& transaction.bytes@ == bytes
            &&& transaction.format == format
            &&& transaction.signature == signature
            &&& config == fallback_config()
        }),
{
}

/// Without a signed transaction nothing is sent, whoever could be sent to.
pub proof fn nothing_else_is_sent(
    id: Json,
    prepared: Prepared,
    table: Seq<SocketAddr>,
    outcome: SendOutcome,
)
    requires
        is_send_outcome(id, prepared, table, outcome),
    ensures
        match prepared {
            Prepared::Rejected(data) => outcome matches SendOutcome::Reply(reply) && is_error_reply(
                reply,
                id,
                INVALID_PARAMS,
                "Invalid params"@,
                data,
            ),
            Prepared::Unsigned => outcome is Unsigned,
            Prepared::Ready { .. } => outcome is Send || outcome is Rpc,
        },
{
}

/// Once the messages are sent, the caller learns the signature where one of them went out; where
/// none did, the same transaction goes through the validator.
pub proof fn failed_sends_go_through_the_validator(
    id: Json,
    transaction: SignedTransaction,
    sent: Seq<bool>,
    outcome: SendOutcome,
)
    requires
        is_outcome_of_sends(id, transaction, sent, outcome),
    ensures
        (exists|i: int| 0 <= i < sent.len() && #[trigger] sent[i]) ==> (
        outcome matches SendOutcome::Reply(reply) && is_text_reply(
            reply,
            id,
            base58_text(transaction.signature@),
        )),
        (forall|i: int| 0 <= i < sent.len() ==> !#[trigger] sent[i]) ==> outcome == (
        SendOutcome::Rpc { id, transaction, config: fallback_config() }),
{
    one_send_is_enough(sent);
}

} // verus!
