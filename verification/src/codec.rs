//! Reading a transaction out of its base64 or base58 text.
use base64::Engine;
use vstd::prelude::*;

use crate::base58::{
    base58_text, different_bytes_have_different_texts, is_base58, is_base58_char,
    written_text_is_base58,
};
use crate::text::{contains_char, join};

verus! {

/// What base64 makes of a text: the bytes, or what is wrong with it.
pub uninterp spec fn base64_decoded(text: Seq<char>) -> Result<Seq<u8>, Seq<char>>;

/// What base58 makes of a text: the bytes, or what is wrong with it.
pub uninterp spec fn base58_decoded(text: Seq<char>) -> Result<Seq<u8>, Seq<char>>;

/// The outcome that `result` stands for, bytes and error text by their views.
pub open spec fn outcome(result: Result<Vec<u8>, String>) -> Result<Seq<u8>, Seq<char>> {
    match result {
        Ok(bytes) => Ok(bytes@),
        Err(error) => Err(error@),
    }
}

/// `base64::engine::general_purpose::STANDARD.decode`: what it returns depends on the text
/// alone. An error is handed on as its displayed text.
#[verifier::external_body]
fn base64_decode(text: &str) -> (result: Result<Vec<u8>, String>)
    ensures
        outcome(result) == base64_decoded(text@),
{
    match base64::engine::general_purpose::STANDARD.decode(text) {
        Ok(bytes) => Ok(bytes),
        Err(error) => Err(error.to_string()),
    }
}

/// `bs58::decode(..).into_vec()` in the default alphabet: what it returns depends on the text
/// alone. It succeeds exactly where all characters of the text are of the alphabet, and then
/// gives the bytes that base58 writes as this text. An error is handed on as its displayed text.
#[verifier::external_body]
fn base58_decode(text: &str) -> (result: Result<Vec<u8>, String>)
    ensures
        outcome(result) == base58_decoded(text@),
        result is Ok <==> is_base58(text@),
        result matches Ok(bytes) ==> base58_text(bytes@) == text@,
{
    match bs58::decode(text).into_vec() {
        Ok(bytes) => Ok(bytes),
        Err(error) => Err(error.to_string()),
    }
}

/// Whether `text` holds a character that base64 has and base58 has not.
pub open spec fn looks_like_base64(text: Seq<char>) -> bool {
    text.contains('/') || text.contains('+') || text.contains('=')
}

/// What comes of a text that looks like base64, or does not, given what the two encodings make
/// of it. The likelier encoding is tried first; the other has its turn where that one fails.
pub open spec fn chosen_decoding(
    like_base64: bool,
    base64: Result<Seq<u8>, Seq<char>>,
    base58: Result<Seq<u8>, Seq<char>>,
) -> Result<Seq<u8>, Seq<char>> {
    if like_base64 {
        match base64 {
            Ok(bytes) => Ok(bytes),
            Err(error64) => match base58 {
                Ok(bytes) => Ok(bytes),
                Err(error58) => Err(
                    "Failed to decode transaction (tried base64 and base58): base64 error: "@
                        + error64 + ", base58 error: "@ + error58,
                ),
            },
        }
    } else {
        match base58 {
            Ok(bytes) => Ok(bytes),
            Err(_) => match base64 {
                Ok(bytes) => Ok(bytes),
                Err(error64) => Err(
                    "Failed to decode transaction (tried base58 and base64): "@ + error64,
                ),
            },
        }
    }
}

/// The bytes that a transaction's text stands for, or the message that refuses it.
pub open spec fn decoded_transaction(text: Seq<char>) -> Result<Seq<u8>, Seq<char>> {
    chosen_decoding(looks_like_base64(text), base64_decoded(text), base58_decoded(text))
}

/// What comes of a text that looks like base64 and that base64 refused with `error64`.
pub fn after_base64_failed(error64: String, base58: Result<Vec<u8>, String>) -> (result: Result<
    Vec<u8>,
    String,
>)
    ensures
        outcome(result) == chosen_decoding(true, Err(error64@), outcome(base58)),
{
    match base58 {
        Ok(bytes) => Ok(bytes),
        Err(error58) => {
            let head = join(
                "Failed to decode transaction (tried base64 and base58): base64 error: ",
                error64.as_str(),
            );
            let middle = join(head.as_str(), ", base58 error: ");
            Err(join(middle.as_str(), error58.as_str()))
        },
    }
}

/// What comes of a text that does not look like base64 and that base58 refused.
pub fn after_base58_failed(base64: Result<Vec<u8>, String>) -> (result: Result<Vec<u8>, String>)
    ensures
        forall|error58: Seq<char>|
            outcome(result) == #[trigger] chosen_decoding(false, outcome(base64), Err(error58)),
{
    match base64 {
        Ok(bytes) => Ok(bytes),
        Err(error64) => Err(
            join("Failed to decode transaction (tried base58 and base64): ", error64.as_str()),
        ),
    }
}

/// A text of base58 does not look like base64.
proof fn lemma_base58_is_not_like_base64(text: Seq<char>)
    requires
        is_base58(text),
    ensures
        !looks_like_base64(text),
{
    assert(!is_base58_char('/') && !is_base58_char('+') && !is_base58_char('='));
}

/// Decodes a transaction from its text, in base64 or base58.
///
/// A text of base58 is always accepted, and read as base58: what base58 wrote is given back. Any
/// other text is never taken for base58: it decodes as base64 or not at all.
pub fn decode_transaction(text: &str) -> (result: Result<Vec<u8>, String>)
    ensures
        outcome(result) == decoded_transaction(text@),
        is_base58(text@) ==> (result matches Ok(bytes) && base58_text(bytes@) == text@),
        forall|written: Seq<u8>|
            text@ == #[trigger] base58_text(written) ==> (result matches Ok(bytes) && bytes@
                == written),
        !is_base58(text@) && result is Ok ==> outcome(result) == base64_decoded(text@),
{
    proof {
        if is_base58(text@) {
            lemma_base58_is_not_like_base64(text@);
        }
        assert forall|written: Seq<u8>, bytes: Seq<u8>|
            text@ == #[trigger] base58_text(written) && #[trigger] base58_text(bytes)
                == text@ implies bytes == written by {
            different_bytes_have_different_texts(bytes, written);
        }
        assert forall|written: Seq<u8>| text@ == #[trigger] base58_text(written) implies is_base58(
            text@,
        ) by {
            written_text_is_base58(written);
        }
    }
    if contains_char(text, '/') || contains_char(text, '+') || contains_char(text, '=') {
        match base64_decode(text) {
            Ok(bytes) => Ok(bytes),
            Err(error64) => after_base64_failed(error64, base58_decode(text)),
        }
    } else {
        match base58_decode(text) {
            Ok(bytes) => Ok(bytes),
            Err(_) => after_base58_failed(base64_decode(text)),
        }
    }
}

/// Either encoding will do: a text is decoded exactly where base64 or base58 accepts it.
pub proof fn either_encoding_will_do(text: Seq<char>)
    ensures
        decoded_transaction(text) is Ok <==> base64_decoded(text) is Ok || base58_decoded(text) is Ok,
{
}

/// What a text is decoded to is what one of the encodings makes of it: the only one that accepts
/// it, or, where both do, base64 if the text looks like base64 and base58 if it does not.
pub proof fn decoding_is_one_of_the_two(text: Seq<char>)
    requires
        decoded_transaction(text) is Ok,
    ensures
        base58_decoded(text) is Err ==> decoded_transaction(text) == base64_decoded(text),
        base64_decoded(text) is Err ==> decoded_transaction(text) == base58_decoded(text),
        base64_decoded(text) is Ok && looks_like_base64(text) ==> decoded_transaction(text)
            == base64_decoded(text),
        base58_decoded(text) is Ok && !looks_like_base64(text) ==> decoded_transaction(text)
            == base58_decoded(text),
{
}

/// What is decoded counts as it is, bytes and words.
pub proof fn outcome_keeps_bytes_and_words(result: Result<Vec<u8>, String>)
    ensures
        match result {
            Ok(bytes) => outcome(result) == Ok::<Seq<u8>, Seq<char>>(bytes@),
            Err(error) => outcome(result) == Err::<Seq<u8>, Seq<char>>(error@),
        },
{
}

/// Bytes are those of the encoding that is tried first, base64 where the text looks like it and
/// base58 where it does not, or of the other where the first is refused. A text that both refuse
/// is refused, in the words of both or of base64.
pub proof fn likelier_encoding_goes_first(
    like_base64: bool,
    base64: Result<Seq<u8>, Seq<char>>,
    base58: Result<Seq<u8>, Seq<char>>,
)
    ensures
        ({
            let first = if like_base64 {
                base64
            } else {
                base58
            };
            let second = if like_base64 {
                base58
            } else {
                base64
            };
            let decoding = chosen_decoding(like_base64, base64, base58);
            &&& first is Ok ==> decoding == first
            &&& first is Err && second is Ok ==> decoding == second
            &&& base64 is Err && base58 is Err && like_base64 ==> decoding == Err::<
                Seq<u8>,
                Seq<char>,
            >(
                "Failed to decode transaction (tried base64 and base58): base64 error: "@
                    + base64->Err_0 + ", base58 error: "@ + base58->Err_0,
            )
            &&& base64 is Err && base58 is Err && !like_base64 ==> decoding == Err::<
                Seq<u8>,
                Seq<char>,
            >("Failed to decode transaction (tried base58 and base64): "@ + base64->Err_0)
        }),
{
}

/// A text looks like base64 where it holds `/`, `+` or `=`; that decides which encoding goes
/// first, and nothing else does.
pub proof fn marks_decide_the_order(text: Seq<char>)
    ensures
        (exists|i: int|
            0 <= i < text.len() && (#[trigger] text[i] == '/' || text[i] == '+' || text[i] == '='))
            ==> decoded_transaction(text) == chosen_decoding(
            true,
            base64_decoded(text),
            base58_decoded(text),
        ),
        (forall|i: int|
            0 <= i < text.len() ==> #[trigger] text[i] != '/' && text[i] != '+' && text[i] != '=')
            ==> decoded_transaction(text) == chosen_decoding(
            false,
            base64_decoded(text),
            base58_decoded(text),
        ),
{
}

} // verus!
