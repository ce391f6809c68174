//! The endpoint that sends transactions to the Jito leaders.
use vstd::prelude::*;

use crate::address::SocketAddr;
use crate::base58::base58_text;
use crate::json::Json;
use crate::rpc::{
    authorized, error_reply, is_authorized, is_error_reply, is_text_reply, text_reply,
    JSONRPCRequest, JSONRPCResponse, TokenQuery, INTERNAL_ERROR, INVALID_PARAMS, PARSE_ERROR,
    UNAUTHORIZED,
};
use crate::tpu::{any_sent, carries, datagrams, is_any_sent, Datagram};
use crate::transaction::{
    prepare_transaction, prepared, signature_text, Preparation, Prepared, SignedTransaction,
};

verus! {

/// What introduces the message on bytes that are no transaction.
pub const MALFORMED: &'static str = "Failed to deserialize transaction: ";

/// What is to be done with a request.
#[derive(Debug, PartialEq)]
pub enum JitoOutcome {
    /// Answer it at once.
    Reply(JSONRPCResponse),
    /// The transaction has no signature to answer with.
    Unsigned,
    /// Send the transaction, and answer under the identifier `id`.
    Send { id: Json, transaction: SignedTransaction },
}

/// `outcome` is what is to be done with the request `id`, whose parameters come to `prepared`.
pub open spec fn is_prepared_outcome(id: Json, prepared: Prepared, outcome: JitoOutcome) -> bool {
    match prepared {
        Prepared::Rejected(data) => outcome matches JitoOutcome::Reply(reply) && is_error_reply(
            reply,
            id,
            INVALID_PARAMS,
            "Invalid params"@,
            data,
        ),
        Prepared::Unsigned => outcome is Unsigned,
        Prepared::Ready { .. } => outcome matches JitoOutcome::Send { id: caller, transaction }
            && caller == id && Preparation::Ready(transaction)@ == prepared,
    }
}

/// `outcome` is what is to be done with a request that came with `query` and whose body reads as
/// `parsed`.
pub open spec fn is_jito_outcome(
    query: TokenQuery,
    parsed: Result<JSONRPCRequest, String>,
    outcome: JitoOutcome,
) -> bool {
    if !authorized(query) {
        outcome matches JitoOutcome::Reply(reply) && is_error_reply(
            reply,
            Json::Null,
            UNAUTHORIZED,
            "Unauthorized"@,
            "Invalid or missing token. Please provide ?token=beyond0128"@,
        )
    } else {
        match parsed {
            Err(error) => outcome matches JitoOutcome::Reply(reply) && is_error_reply(
                reply,
                Json::Null,
                PARSE_ERROR,
                "Parse error"@,
                error@,
            ),
            Ok(request) => is_prepared_outcome(
                request.id,
                prepared(request.params@, MALFORMED@),
                outcome,
            ),
        }
    }
}

/// Decides what is to be done with the request `id`, given what its parameters come to.
pub fn send_prepared(id: Json, preparation: Preparation) -> (outcome: JitoOutcome)
    ensures
        is_prepared_outcome(id, preparation@, outcome),
{
    match preparation {
        Preparation::Rejected(data) => JitoOutcome::Reply(
            error_reply(id, INVALID_PARAMS, "Invalid params", data),
        ),
        Preparation::Unsigned => JitoOutcome::Unsigned,
        Preparation::Ready(transaction) => JitoOutcome::Send { id, transaction },
    }
}

/// Decides what is to be done with a request. `parsed` is the request that its body holds, or why
/// it holds none.
pub fn handle_jito_transactions(query: &TokenQuery, parsed: Result<JSONRPCRequest, String>) -> (
    outcome: JitoOutcome)
    ensures
        is_jito_outcome(*query, parsed, outcome),
{
    if !is_authorized(query) {
        return JitoOutcome::Reply(
            error_reply(
                Json::Null,
                UNAUTHORIZED,
                "Unauthorized",
                "Invalid or missing token. Please provide ?token=beyond0128".to_owned(),
            ),
        );
    }
    match parsed {
        Err(error) => JitoOutcome::Reply(
            error_reply(Json::Null, PARSE_ERROR, "Parse error", error),
        ),
        Ok(request) => {
            let preparation = prepare_transaction(&request.params, MALFORMED);
            send_prepared(request.id, preparation)
        },
    }
}

/// The messages that carry a transaction to all the Jito leaders in `table`.
pub fn jito_datagrams(table: &Vec<SocketAddr>, bytes: &Vec<u8>) -> (list: Vec<Datagram>)
    ensures
        carries(list@, bytes@, table@),
{
    datagrams(table, table.len(), bytes)
}

/// What the caller whose request is `id` is answered, where `outcomes` tells of each message
/// whether it went out, and `signature` is the text of the transaction's signature.
pub fn reply_to_sends(id: Json, signature: String, outcomes: &Vec<bool>) -> (reply:
    JSONRPCResponse)
    ensures
        if any_sent(outcomes@) {
            is_text_reply(reply, id, signature@)
        } else {
            is_error_reply(
                reply,
                id,
                INTERNAL_ERROR,
                "Jito TPU not available"@,
                "Jito leader TPU addresses not initialized or unavailable"@,
            )
        },
{
    if is_any_sent(outcomes) {
        text_reply(id, signature)
    } else {
        error_reply(
            id,
            INTERNAL_ERROR,
            "Jito TPU not available",
            "Jito leader TPU addresses not initialized or unavailable".to_owned(),
        )
    }
}

/// What the caller whose request is `id` is answered, where `outcomes` tells of each message
/// whether it went out: the transaction's signature where at least one did.
pub fn jito_reply(id: Json, signature: [u8; 64], outcomes: &Vec<bool>) -> (reply: JSONRPCResponse)
    ensures
        if any_sent(outcomes@) {
            is_text_reply(reply, id, base58_text(signature@))
        } else {
            is_error_reply(
                reply,
                id,
                INTERNAL_ERROR,
                "Jito TPU not available"@,
                "Jito leader TPU addresses not initialized or unavailable"@,
            )
        },
{
    reply_to_sends(id, signature_text(signature), outcomes)
}

/// Nothing is sent without the valid token, and the answer says nothing of the request: it is the
/// same whatever the body holds.
pub proof fn nothing_is_sent_without_the_token(
    query: TokenQuery,
    parsed: Result<JSONRPCRequest, String>,
    outcome: JitoOutcome,
)
    requires
        is_jito_outcome(query, parsed, outcome),
        !authorized(query),
    ensures
        forall|other: Result<JSONRPCRequest, String>|
            #[trigger] is_jito_outcome(query, other, outcome),
        outcome matches JitoOutcome::Reply(reply) && reply.id == Json::Null && reply.result is None
            && (reply.error matches Some(error) && error.code == UNAUTHORIZED),
{
}

/// A request that the body holds is answered under its own identifier.
pub proof fn requests_keep_their_identifier(
    query: TokenQuery,
    request: JSONRPCRequest,
    outcome: JitoOutcome,
)
    requires
        is_jito_outcome(query, Ok(request), outcome),
        authorized(query),
    ensures
        outcome matches JitoOutcome::Reply(reply) ==> reply.id == request.id,
        outcome matches JitoOutcome::Send { id, .. } ==> id == request.id,
{
}

/// With the token `beyond0128`, and with no other, the transaction in a request's parameters is
/// sent as it was decoded, under the request's identifier; all else is answered with an error that
/// tells what is wrong.
pub proof fn signed_transaction_is_sent(
    query: TokenQuery,
    parsed: Result<JSONRPCRequest, String>,
    outcome: JitoOutcome,
)
    requires
        is_jito_outcome(query, parsed, outcome),
    ensures
        !(query.token is Some && query.token->0@ == "beyond0128"@) ==> (
        outcome matches JitoOutcome::Reply(reply) && is_error_reply(
            reply,
            Json::Null,
            UNAUTHORIZED,
            "Unauthorized"@,
            "Invalid or missing token. Please provide ?token=beyond0128"@,
        )),
        query.token is Some && query.token->0@ == "beyond0128"@ ==> match parsed {
            Err(error) => outcome matches JitoOutcome::Reply(reply) && is_error_reply(
                reply,
                Json::Null,
                PARSE_ERROR,
                "Parse error"@,
                error@,
            ),
            Ok(request) => match prepared(
                request.params@,
                "Failed to deserialize transaction: "@,
            ) {
                Prepared::Ready { bytes, format, signature } => {
                    outcome matches JitoOutcome::Send { id, transaction } && {
                        &&& id == request.id
                        &&& transaction.bytes@ == bytes
                        &&& transaction.format == format
                        &&& transaction.signature == signature
                    }
                },
                Prepared::Unsigned => outcome is Unsigned,
                Prepared::Rejected(data) => outcome matches JitoOutcome::Reply(reply)
                    && is_error_reply(reply, request.id, INVALID_PARAMS, "Invalid params"@, data),
            },
        },
{
}

/// What parameters come to decides alone what is done with a request that has the token.
pub proof fn preparation_decides(id: Json, prepared: Prepared, outcome: JitoOutcome)
    requires
        is_prepared_outcome(id, prepared, outcome),
    ensures
        match prepared {
            Prepared::Ready { bytes, format, signature } => {
                outcome matches JitoOutcome::Send { id: caller, transaction } && {
                    &&& caller == id
                    &&& transaction.bytes@ == bytes
                    &&& transaction.format == format
                    &&& transaction.signature == signature
                }
            },
            Prepared::Unsigned => outcome is Unsigned,
            Prepared::Rejected(data) => outcome matches JitoOutcome::Reply(reply) && is_error_reply(
                reply,
                id,
                INVALID_PARAMS,
                "Invalid params"@,
                data,
            ),
        },
{
}

} // verus!
