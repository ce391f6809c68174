//! The main endpoint: which requests are let through to the validator, how they are handed on,
//! and what the caller is answered.
use vstd::prelude::*;

use crate::json::Json;
use crate::rpc::{
    authorized, error_reply, is_authorized, is_error_reply, JSONRPCRequest, JSONRPCResponse,
    TokenQuery, INTERNAL_ERROR, METHOD_NOT_ALLOWED, PARSE_ERROR, UNAUTHORIZED,
};
use crate::text::same_text;
use crate::transaction::{prepare_transaction, prepared, Preparation, Prepared, SignedTransaction};

verus! {

/// Whether the proxy lets `method` through.
pub open spec fn is_allowed(method: Seq<char>) -> bool {
    method == "sendTransaction"@ || method == "simulateTransaction"@ || method
        == "getLatestBlockhash"@
}

/// What is to be done with a request.
#[derive(Debug, PartialEq)]
pub enum ProxyOutcome {
    /// Answer it at once.
    Reply(JSONRPCResponse),
    /// Hand it on to the validator, and answer it under the identifier `id`. Where it carries a
    /// transaction, broadcast the one that is in the parameters `broadcast` as well.
    Forward { id: Json, broadcast: Option<Vec<Json>> },
}

/// `outcome` is what is to be done with a request that came with `query` and whose body reads as
/// `parsed`.
pub open spec fn is_proxy_outcome(
    query: TokenQuery,
    parsed: Result<JSONRPCRequest, String>,
    outcome: ProxyOutcome,
) -> bool {
    if !authorized(query) {
        outcome matches ProxyOutcome::Reply(reply) && is_error_reply(
            reply,
            Json::Null,
            UNAUTHORIZED,
            "Unauthorized"@,
            "Invalid or missing token."@,
        )
    } else {
        match parsed {
            Err(error) => outcome matches ProxyOutcome::Reply(reply) && is_error_reply(
                reply,
                Json::Null,
                PARSE_ERROR,
                "Parse error"@,
                error@,
            ),
            Ok(request) => if !is_allowed(request.method@) {
                outcome matches ProxyOutcome::Reply(reply) && is_error_reply(
                    reply,
                    request.id,
                    METHOD_NOT_ALLOWED,
                    "Method not allowed"@,
                    "Allowed methods: sendTransaction, simulateTransaction, getLatestBlockhash"@,
                )
            } else {
                outcome == ProxyOutcome::Forward {
                    id: request.id,
                    broadcast: if request.method@ == "sendTransaction"@ {
                        Some(request.params)
                    } else {
                        None
                    },
                }
            },
        }
    }
}

/// Whether the proxy lets `method` through.
pub fn is_allowed_method(method: &str) -> (allowed: bool)
    ensures
        allowed == is_allowed(method@),
{
    same_text(method, "sendTransaction") || same_text(method, "simulateTransaction") || same_text(
        method,
        "getLatestBlockhash",
    )
}

/// Decides what is to be done with a request. `parsed` is the request that its body holds, or why
/// it holds none.
pub fn handle_proxy_request(query: &TokenQuery, parsed: Result<JSONRPCRequest, String>) -> (outcome:
    ProxyOutcome)
    ensures
        is_proxy_outcome(*query, parsed, outcome),
{
    if !is_authorized(query) {
        return ProxyOutcome::Reply(
            error_reply(
                Json::Null,
                UNAUTHORIZED,
                "Unauthorized",
                "Invalid or missing token.".to_owned(),
            ),
        );
    }
    match parsed {
        Err(error) => ProxyOutcome::Reply(
            error_reply(Json::Null, PARSE_ERROR, "Parse error", error),
        ),
        Ok(request) => {
            if !is_allowed_method(request.method.as_str()) {
                ProxyOutcome::Reply(
                    error_reply(
                        request.id,
                        METHOD_NOT_ALLOWED,
                        "Method not allowed",
                        "Allowed methods: sendTransaction, simulateTransaction, getLatestBlockhash".to_owned(),
                    ),
                )
            } else if same_text(request.method.as_str(), "sendTransaction") {
                ProxyOutcome::Forward { id: request.id, broadcast: Some(request.params) }
            } else {
                ProxyOutcome::Forward { id: request.id, broadcast: None }
            }
        },
    }
}

/// The transaction to broadcast, given what the parameters come to.
pub fn broadcast_of(preparation: Preparation) -> (found: Option<SignedTransaction>)
    ensures
        match found {
            Some(transaction) => preparation == Preparation::Ready(transaction),
            None => !(preparation is Ready),
        },
{
    match preparation {
        Preparation::Ready(transaction) => Some(transaction),
        _ => None,
    }
}

/// The transaction in a request's parameters, where they hold one that is signed. Parameters that
/// hold none are passed over: the validator answers for them.
pub fn transaction_to_broadcast(params: &Vec<Json>) -> (found: Option<SignedTransaction>)
    ensures
        match found {
            Some(transaction) => prepared(params@, ""@) == (Prepared::Ready {
                bytes: transaction.bytes@,
                format: transaction.format,
                signature: transaction.signature,
            }),
            None => !(prepared(params@, ""@) is Ready),
        },
{
    broadcast_of(prepare_transaction(params, ""))
}

/// A header of an HTTP request.
#[derive(Debug, PartialEq)]
pub struct Header {
    pub name: String,
    pub value: Vec<u8>,
}

/// A [`Header`], its parts by their views.
pub ghost struct HeaderLine {
    pub name: Seq<char>,
    pub value: Seq<u8>,
}

impl View for Header {
    type V = HeaderLine;

    open spec fn view(&self) -> HeaderLine {
        HeaderLine { name: self.name@, value: self.value@ }
    }
}

/// The lines of a list of headers.
pub open spec fn lines(headers: Seq<Header>) -> Seq<HeaderLine> {
    headers.map_values(|header: Header| header@)
}

/// Whether a byte is visible in a header's value: a tab, or ASCII but for the control characters.
pub open spec fn is_visible(byte: u8) -> bool {
    byte == 9 || 32 <= byte < 127
}

/// Whether all bytes of a header's value are visible.
pub open spec fn all_visible(value: Seq<u8>) -> bool {
    forall|i: int| 0 <= i < value.len() ==> is_visible(#[trigger] value[i])
}

/// Whether a header is handed on: all are but those of the connection itself and those whose
/// value is not visible text.
pub open spec fn is_handed_on(line: HeaderLine) -> bool {
    &&& line.name != "host"@
    &&& line.name != "content-length"@
    &&& all_visible(line.value)
}

/// The header that the proxy puts in front of those that it hands on.
pub open spec fn content_type_line() -> HeaderLine {
    HeaderLine { name: "Content-Type"@, value: vstd::utf8::encode_utf8("application/json"@) }
}

/// A request to the validator.
#[derive(Debug, PartialEq)]
pub struct ProxyCall {
    pub url: String,
    pub headers: Vec<Header>,
    pub body: String,
}

/// Whether all of `value` is visible.
fn is_visible_text(value: &Vec<u8>) -> (visible: bool)
    ensures
        visible == all_visible(value@),
{
    let mut i: usize = 0;
    while i < value.len()
        invariant
            i <= value.len(),
            forall|k: int| 0 <= k < i ==> is_visible(#[trigger] value@[k]),
        decreases value.len() - i,
    {
        let byte: u8 = value[i];
        if !(byte == 9 || (32 <= byte && byte < 127)) {
            assert(!is_visible(value@[i as int]));
            return false;
        }
        i = i + 1;
    }
    true
}

/// The request to the validator that stands for one that came with `headers` and `body`.
pub fn handle_proxy_method(validator_url: &str, headers: &Vec<Header>, body: String) -> (call:
    ProxyCall)
    ensures
        call.url@ == validator_url@,
        call.body == body,
        lines(call.headers@) == seq![content_type_line()] + lines(headers@).filter(
            |line: HeaderLine| is_handed_on(line),
        ),
{
    let mut sent: Vec<Header> = Vec::new();
    let json_type = "application/json";
    sent.push(
        Header { name: "Content-Type".to_owned(), value: vstd::slice::slice_to_vec(json_type.as_bytes()) },
    );
    let ghost wanted = |line: HeaderLine| is_handed_on(line);
    let mut i: usize = 0;
    proof {
        assert(lines(headers@).take(0).filter(wanted) =~= Seq::empty()) by {
            reveal(Seq::filter);
        }
        assert(lines(sent@) =~= seq![content_type_line()]);
    }
    while i < headers.len()
        invariant
            i <= headers.len(),
            wanted == (|line: HeaderLine| is_handed_on(line)),
            lines(sent@) == seq![content_type_line()] + lines(headers@).take(i as int).filter(
                wanted,
            ),
        decreases headers.len() - i,
    {
        let header = &headers[i];
        let ghost sent_before = lines(sent@);
        let ghost part = lines(headers@).take(i + 1);
        proof {
            assert(part.drop_last() =~= lines(headers@).take(i as int));
            assert(part.last() == header@);
            reveal(Seq::filter);
        }
        if !same_text(header.name.as_str(), "host") && !same_text(
            header.name.as_str(),
            "content-length",
        ) && is_visible_text(&header.value) {
            sent.push(Header { name: header.name.clone(), value: header.value.clone() });
            proof {
                assert(lines(sent@) =~= sent_before.push(header@));
                assert(wanted(header@));
            }
        } else {
            assert(!wanted(header@));
        }
        assert(lines(sent@) =~= seq![content_type_line()] + part.filter(wanted));
        i = i + 1;
    }
    proof {
        assert(lines(headers@).take(headers@.len() as int) =~= lines(headers@));
    }
    ProxyCall { url: validator_url.to_owned(), headers: sent, body }
}

/// What came of a request to the validator.
#[derive(Debug, PartialEq)]
pub enum ProxyResult {
    /// The request could not be made or its answer not be received; why.
    Failed(String),
    /// The answer is no reply; why.
    Unreadable(String),
    /// The validator's reply.
    Answered(JSONRPCResponse),
}

/// What the caller whose request is `id` is answered. The validator's reply is handed back under
/// the caller's own identifier.
pub fn proxy_reply(id: Json, result: ProxyResult) -> (reply: JSONRPCResponse)
    ensures
        match result {
            ProxyResult::Failed(error) => is_error_reply(
                reply,
                Json::Null,
                INTERNAL_ERROR,
                "Internal proxy error"@,
                error@,
            ),
            ProxyResult::Unreadable(error) => is_error_reply(
                reply,
                id,
                INTERNAL_ERROR,
                "Invalid response from validator"@,
                error@,
            ),
            ProxyResult::Answered(answer) => reply == (JSONRPCResponse {
                jsonrpc: answer.jsonrpc,
                id,
                result: answer.result,
                error: answer.error,
            }),
        },
{
    match result {
        ProxyResult::Failed(error) => error_reply(
            Json::Null,
            INTERNAL_ERROR,
            "Internal proxy error",
            error,
        ),
        ProxyResult::Unreadable(error) => error_reply(
            id,
            INTERNAL_ERROR,
            "Invalid response from validator",
            error,
        ),
        ProxyResult::Answered(answer) => JSONRPCResponse {
            jsonrpc: answer.jsonrpc,
            id,
            result: answer.result,
            error: answer.error,
        },
    }
}

/// Nothing passes without the valid token, and the answer says nothing of the request: it is the
/// same whatever the body holds.
pub proof fn nothing_passes_without_the_token(
    query: TokenQuery,
    parsed: Result<JSONRPCRequest, String>,
    outcome: ProxyOutcome,
)
    requires
        is_proxy_outcome(query, parsed, outcome),
        !authorized(query),
    ensures
        forall|other: Result<JSONRPCRequest, String>|
            #[trigger] is_proxy_outcome(query, other, outcome),
        outcome matches ProxyOutcome::Reply(reply) && is_error_reply(
            reply,
            Json::Null,
            UNAUTHORIZED,
            "Unauthorized"@,
            "Invalid or missing token."@,
        ),
{
}

/// Only requests with the valid token and for a method that is let through reach the validator,
/// and they keep their identifier; of those, only transactions to send are broadcast.
pub proof fn only_allowed_methods_pass(
    query: TokenQuery,
    parsed: Result<JSONRPCRequest, String>,
    outcome: ProxyOutcome,
)
    requires
        is_proxy_outcome(query, parsed, outcome),
    ensures
        outcome is Forward <==> authorized(query) && (parsed matches Ok(request) && is_allowed(
            request.method@,
        )),
        outcome matches ProxyOutcome::Forward { id, broadcast } ==> {
            &&& id == parsed->Ok_0.id
            &&& broadcast is Some <==> parsed->Ok_0.method@ == "sendTransaction"@
            &&& broadcast matches Some(params) ==> params == parsed->Ok_0.params
        },
{
}

/// A request for any other method is answered with an error under its own identifier.
pub proof fn other_methods_are_blocked(
    query: TokenQuery,
    request: JSONRPCRequest,
    outcome: ProxyOutcome,
)
    requires
        is_proxy_outcome(query, Ok(request), outcome),
        authorized(query),
        !is_allowed(request.method@),
    ensures
        outcome matches ProxyOutcome::Reply(reply) && reply.id == request.id && reply.result is None
            && (reply.error matches Some(error) && error.code == METHOD_NOT_ALLOWED),
{
}

/// Every header of `headers` that is to be handed on is, and none that is not; the headers of the
/// connection itself are never handed on.
pub proof fn handed_on_headers(headers: Seq<HeaderLine>, sent: Seq<HeaderLine>)
    requires
        sent == seq![content_type_line()] + headers.filter(|line: HeaderLine| is_handed_on(line)),
    ensures
        forall|line: HeaderLine|
            #![trigger headers.contains(line)]
            headers.contains(line) && is_handed_on(line) ==> sent.contains(line),
        forall|i: int|
            1 <= i < sent.len() ==> headers.contains(#[trigger] sent[i]) && is_handed_on(sent[i]),
        forall|i: int|
            0 <= i < sent.len() ==> (#[trigger] sent[i]).name != "host"@ && sent[i].name
                != "content-length"@,
{
    broadcast use vstd::seq_lib::group_seq_properties;

    let wanted = |line: HeaderLine| is_handed_on(line);
    let kept = headers.filter(wanted);
    assert forall|line: HeaderLine|
        #![trigger headers.contains(line)]
        headers.contains(line) && is_handed_on(line) implies sent.contains(line) by {
        let k = headers.index_of(line);
        assert(wanted(headers[k]));
        assert(kept.contains(headers[k]));
        let m = kept.index_of(line);
        assert(sent[m + 1] == line);
    }
    assert forall|i: int| 1 <= i < sent.len() implies headers.contains(#[trigger] sent[i])
        && is_handed_on(sent[i]) by {
        assert(sent[i] == kept[i - 1]);
        assert(kept.contains(kept[i - 1]));
        assert(wanted(kept[i - 1]));
        headers.lemma_filter_contains_rev(wanted, kept[i - 1]);
    }
    reveal_strlit("Content-Type");
    reveal_strlit("host");
    reveal_strlit("content-length");
    assert("Content-Type"@.len() == 12);
}

/// What reaches the validator, and what is answered instead: only with the token `beyond0128` and
/// for one of three methods does a request pass, and a transaction to send is broadcast as well,
/// out of the request's own parameters.
pub proof fn three_methods_pass(
    query: TokenQuery,
    parsed: Result<JSONRPCRequest, String>,
    outcome: ProxyOutcome,
)
    requires
        is_proxy_outcome(query, parsed, outcome),
    ensures
        ({
            let known = query.token is Some && query.token->0@ == "beyond0128"@;
            match parsed {
                Ok(request) => {
                    let method = request.method@;
                    &&& outcome is Forward <==> known && (method == "sendTransaction"@ || method
                        == "simulateTransaction"@ || method == "getLatestBlockhash"@)
                    &&& outcome matches ProxyOutcome::Forward { id, broadcast } ==> id == request.id
                        && (method == "sendTransaction"@ ==> broadcast == Some(request.params)) && (
                    method != "sendTransaction"@ ==> broadcast is None)
                    &&& known && !(outcome is Forward) ==> (outcome matches ProxyOutcome::Reply(reply)
                        && is_error_reply(
                        reply,
                        request.id,
                        METHOD_NOT_ALLOWED,
                        "Method not allowed"@,
                        "Allowed methods: sendTransaction, simulateTransaction, getLatestBlockhash"@,
                    ))
                },
                Err(error) => known ==> (outcome matches ProxyOutcome::Reply(reply)
                    && is_error_reply(reply, Json::Null, PARSE_ERROR, "Parse error"@, error@)),
            }
        }),
        !(query.token is Some && query.token->0@ == "beyond0128"@) ==> (
        outcome matches ProxyOutcome::Reply(reply) && is_error_reply(
            reply,
            Json::Null,
            UNAUTHORIZED,
            "Unauthorized"@,
            "Invalid or missing token."@,
        )),
{
}

/// Which headers are handed on, and where: `kept` are their positions, in ascending order. Of all
/// that came, `host` and `content-length` are left out, and those whose value holds a byte that is
/// neither a tab nor one of 32 to 126; every other is sent as it came, in its turn, behind the
/// type of the body.
pub proof fn other_headers_are_handed_on(headers: Seq<Header>, sent: Seq<Header>) -> (kept: Seq<int>)
    requires
        lines(sent) == seq![content_type_line()] + lines(headers).filter(
            |line: HeaderLine| is_handed_on(line),
        ),
    ensures
        sent.len() == kept.len() + 1,
        sent[0].name@ == "Content-Type"@,
        sent[0].value@ == vstd::utf8::encode_utf8("application/json"@),
        forall|k: int, m: int| 0 <= k < m < kept.len() ==> #[trigger] kept[k] < #[trigger] kept[m],
        forall|k: int|
            0 <= k < kept.len() ==> {
                &&& 0 <= #[trigger] kept[k] < headers.len()
                &&& sent[k + 1].name@ == headers[kept[k]].name@
                &&& sent[k + 1].value@ == headers[kept[k]].value@
            },
        forall|i: int|
            0 <= i < headers.len() ==> (kept.contains(i) <==> {
                &&& (#[trigger] headers[i]).name@ != "host"@
                &&& headers[i].name@ != "content-length"@
                &&& forall|b: int|
                    0 <= b < headers[i].value@.len() ==> #[trigger] headers[i].value@[b] == 9 || 32
                        <= headers[i].value@[b] <= 126
            }),
{
    let kept = lemma_kept(lines(headers));
    let all = lines(headers);
    let handed_on = all.filter(|line: HeaderLine| is_handed_on(line));
    assert(lines(sent).len() == sent.len());
    assert(lines(sent)[0] == sent[0]@);
    assert forall|k: int| 0 <= k < kept.len() implies {
        &&& 0 <= #[trigger] kept[k] < headers.len()
        &&& sent[k + 1].name@ == headers[kept[k]].name@
        &&& sent[k + 1].value@ == headers[kept[k]].value@
    } by {
        assert(lines(sent)[k + 1] == handed_on[k]);
        assert(lines(sent)[k + 1] == sent[k + 1]@);
        assert(all[kept[k]] == headers[kept[k]]@);
    }
    assert forall|i: int| 0 <= i < headers.len() implies (kept.contains(i) <==> {
        &&& (#[trigger] headers[i]).name@ != "host"@
        &&& headers[i].name@ != "content-length"@
        &&& forall|b: int|
            0 <= b < headers[i].value@.len() ==> #[trigger] headers[i].value@[b] == 9 || 32
                <= headers[i].value@[b] <= 126
    }) by {
        assert(all[i] == headers[i]@);
        let value = headers[i].value@;
        if all_visible(value) {
            assert forall|b: int| 0 <= b < value.len() implies #[trigger] value[b] == 9 || 32
                <= value[b] <= 126 by {
                assert(is_visible(value[b]));
            }
        }
    }
    kept
}

/// Where the headers stood that are handed on.
proof fn lemma_kept(all: Seq<HeaderLine>) -> (kept: Seq<int>)
    ensures
        kept.len() == all.filter(|line: HeaderLine| is_handed_on(line)).len(),
        forall|k: int, m: int| 0 <= k < m < kept.len() ==> #[trigger] kept[k] < #[trigger] kept[m],
        forall|k: int|
            0 <= k < kept.len() ==> 0 <= #[trigger] kept[k] < all.len() && all[kept[k]]
                == all.filter(|line: HeaderLine| is_handed_on(line))[k],
        forall|i: int|
            0 <= i < all.len() ==> (kept.contains(i) <==> is_handed_on(#[trigger] all[i])),
    decreases all.len(),
{
    reveal(Seq::filter);
    if all.len() == 0 {
        Seq::empty()
    } else {
        let last = all.len() - 1;
        let front = all.drop_last();
        let earlier = lemma_kept(front);
        let kept = if is_handed_on(all.last()) {
            earlier.push(last)
        } else {
            earlier
        };
        assert forall|k: int| 0 <= k < kept.len() implies 0 <= #[trigger] kept[k] < all.len()
            && all[kept[k]] == all.filter(|line: HeaderLine| is_handed_on(line))[k] by {
            if k < earlier.len() {
                assert(kept[k] == earlier[k]);
            }
        }
        assert forall|i: int| 0 <= i < all.len() implies (kept.contains(i) <==> is_handed_on(
            #[trigger] all[i],
        )) by {
            if i < last {
                assert(front[i] == all[i]);
                if earlier.contains(i) {
                    assert(kept[earlier.index_of(i)] == i);
                }
                if kept.contains(i) {
                    assert(earlier[kept.index_of(i)] == i);
                }
            } else {
                if is_handed_on(all.last()) {
                    assert(kept[earlier.len() as int] == i);
                }
                if kept.contains(i) && !is_handed_on(all.last()) {
                    assert(earlier[kept.index_of(i)] == i);
                }
            }
        }
        kept
    }
}

/// The methods that are let through are `sendTransaction`, `simulateTransaction` and
/// `getLatestBlockhash`, spelt like this.
pub proof fn no_other_method_is_let_through(method: Seq<char>)
    ensures
        is_allowed(method) <==> {
            ||| method == "sendTransaction"@
            ||| method == "simulateTransaction"@
            ||| method == "getLatestBlockhash"@
        },
{
}

} // verus!
