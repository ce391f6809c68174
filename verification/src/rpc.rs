//! JSON-RPC requests, replies and errors, and the access token.
use vstd::prelude::*;

use crate::json::Json;
use crate::text::same_text;

verus! {

/// The token that a caller has to present.
pub const VALID_TOKEN: &'static str = "beyond0128";

/// Error code: the token is missing or wrong.
pub const UNAUTHORIZED: i32 = -32001;

/// Error code: the body is not a request.
pub const PARSE_ERROR: i32 = -32700;

/// Error code: the method is not one that the proxy lets through.
pub const METHOD_NOT_ALLOWED: i32 = -32601;

/// Error code: the parameters do not hold a transaction.
pub const INVALID_PARAMS: i32 = -32602;

/// Error code: the proxy could not carry out the request.
pub const INTERNAL_ERROR: i32 = -32603;

/// The query part of a request's address.
#[derive(Debug)]
pub struct TokenQuery {
    pub token: Option<String>,
}

/// A request.
#[derive(Debug, PartialEq)]
pub struct JSONRPCRequest {
    pub jsonrpc: String,
    pub id: Json,
    pub method: String,
    pub params: Vec<Json>,
}

/// A reply.
#[derive(Debug, PartialEq)]
pub struct JSONRPCResponse {
    pub jsonrpc: String,
    pub id: Json,
    pub result: Option<Json>,
    pub error: Option<RPCError>,
}

/// What a reply says of a failure.
#[derive(Debug, PartialEq)]
pub struct RPCError {
    pub code: i32,
    pub message: String,
    pub data: Option<String>,
}

/// How certain the state has to be that the validator answers from or tries a transaction against.
#[derive(Debug, Clone, Copy, PartialEq, Eq, Structural)]
pub enum CommitmentLevel {
    Processed,
    Confirmed,
    Finalized,
}

/// Whether `query` carries the valid token.
pub open spec fn authorized(query: TokenQuery) -> bool {
    query.token matches Some(token) && token@ == VALID_TOKEN@
}

/// `reply` answers the request `id` with an error and nothing else.
pub open spec fn is_error_reply(
    reply: JSONRPCResponse,
    id: Json,
    code: i32,
    message: Seq<char>,
    data: Seq<char>,
) -> bool {
    &&& reply.jsonrpc@ == "2.0"@
    &&& reply.id == id
    &&& reply.result is None
    &&& reply.error matches Some(error)
    &&& error.code == code
    &&& error.message@ == message
    &&& error.data matches Some(details)
    &&& details@ == data
}

/// `reply` answers the request `id` with the result `text` and nothing else.
pub open spec fn is_text_reply(reply: JSONRPCResponse, id: Json, text: Seq<char>) -> bool {
    &&& reply.jsonrpc@ == "2.0"@
    &&& reply.id == id
    &&& reply.result matches Some(Json::Text(result))
    &&& result@ == text
    &&& reply.error is None
}

/// Whether `query` carries the valid token.
pub fn is_authorized(query: &TokenQuery) -> (valid: bool)
    ensures
        valid == authorized(*query),
{
    match &query.token {
        Some(token) => same_text(token.as_str(), VALID_TOKEN),
        None => false,
    }
}

/// A reply that answers the request `id` with an error.
pub fn error_reply(id: Json, code: i32, message: &str, data: String) -> (reply: JSONRPCResponse)
    ensures
        is_error_reply(reply, id, code, message@, data@),
{
    JSONRPCResponse {
        jsonrpc: "2.0".to_owned(),
        id,
        result: None,
        error: Some(RPCError { code, message: message.to_owned(), data: Some(data) }),
    }
}

/// A reply that answers the request `id` with a text.
pub fn text_reply(id: Json, text: String) -> (reply: JSONRPCResponse)
    ensures
        is_text_reply(reply, id, text@),
{
    JSONRPCResponse {
        jsonrpc: "2.0".to_owned(),
        id,
        result: Some(Json::Text(text)),
        error: None,
    }
}

/// A reply of the proxy's own has a result or an error, never both and never neither.
pub proof fn own_reply_has_one_side(
    reply: JSONRPCResponse,
    id: Json,
    code: i32,
    message: Seq<char>,
    data: Seq<char>,
    text: Seq<char>,
)
    requires
        is_error_reply(reply, id, code, message, data) || is_text_reply(reply, id, text),
    ensures
        reply.result is Some <==> reply.error is None,
        reply.jsonrpc@ == "2.0"@,
        reply.id == id,
{
}

/// The token `beyond0128` is valid, and no other; without a token there is no access.
pub proof fn one_token_is_valid(query: TokenQuery)
    ensures
        match query.token {
            Some(token) => authorized(query) <==> token@ == "beyond0128"@,
            None => !authorized(query),
        },
{
}

/// A reply with an error says under which request, with which code, in which words and with which
/// details, and has no result.
pub proof fn error_reply_says_what_is_wrong(
    reply: JSONRPCResponse,
    id: Json,
    code: i32,
    message: Seq<char>,
    data: Seq<char>,
)
    requires
        is_error_reply(reply, id, code, message, data),
    ensures
        reply.jsonrpc@ == "2.0"@,
        reply.id == id,
        reply.result is None,
        reply.error matches Some(error) && error.code == code && error.message@ == message && (
        error.data matches Some(details) && details@ == data),
{
}

/// A reply with a text has this text for its result and no error.
pub proof fn text_reply_holds_the_text(reply: JSONRPCResponse, id: Json, text: Seq<char>)
    requires
        is_text_reply(reply, id, text),
    ensures
        reply.jsonrpc@ == "2.0"@,
        reply.id == id,
        reply.error is None,
        reply.result matches Some(Json::Text(result)) && result@ == text,
{
}

/// The codes of the errors, as callers know them.
pub proof fn error_codes()
    ensures
        UNAUTHORIZED == -32001,
        PARSE_ERROR == -32700,
        METHOD_NOT_ALLOWED == -32601,
        INVALID_PARAMS == -32602,
        INTERNAL_ERROR == -32603,
{
}

} // verus!
