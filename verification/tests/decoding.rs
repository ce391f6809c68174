use base64::Engine;
use solana_proxy::codec::{after_base58_failed, after_base64_failed, decode_transaction};

fn base64_error(text: &str) -> String {
    base64::engine::general_purpose::STANDARD.decode(text).unwrap_err().to_string()
}

fn base58_error(text: &str) -> String {
    bs58::decode(text).into_vec().unwrap_err().to_string()
}

#[test]
fn padded_base64_is_decoded() {
    assert_eq!(decode_transaction("aGVsbG8="), Ok(b"hello".to_vec()));
    assert_eq!(decode_transaction("+/+/"), Ok(vec![0xfb, 0xff, 0xbf]));
}

#[test]
fn base58_is_decoded() {
    assert_eq!(decode_transaction("Cn8eVZg"), Ok(b"hello".to_vec()));
    assert_eq!(decode_transaction("11"), Ok(vec![0, 0]));
    assert_eq!(decode_transaction(""), Ok(Vec::new()));
}

#[test]
fn base58_is_read_back_as_written() {
    assert_eq!(decode_transaction("2NEpo7TZRRrLZSi2U"), Ok(b"Hello World!".to_vec()));
    assert_eq!(decode_transaction("11233QC4"), Ok(vec![0, 0, 0x28, 0x7f, 0xb4, 0xcd]));
    for bytes in [vec![0, 0, 1], vec![57], vec![58], vec![255; 40], vec![0; 7], vec![1, 0, 0]] {
        let text = bs58::encode(&bytes).into_string();
        assert_eq!(decode_transaction(&text), Ok(bytes));
    }
    let alphabet = "123456789ABCDEFGHJKLMNPQRSTUVWXYZabcdefghijkmnopqrstuvwxyz";
    let bytes = decode_transaction(alphabet).unwrap();
    assert_eq!(bytes[0], 0);
    assert_ne!(bytes[1], 0);
    assert_eq!(bs58::encode(&bytes).into_string(), alphabet);
}

#[test]
fn text_outside_base58_is_base64_or_nothing() {
    for text in ["AAA0", "AAAI", "AAAO", "AAAl", "AA+A", "AA/A", "AAA="] {
        assert!(bs58::decode(text).into_vec().is_err());
        let expected = base64::engine::general_purpose::STANDARD.decode(text).unwrap();
        assert_eq!(decode_transaction(text), Ok(expected));
    }
    assert!(decode_transaction("AA0").is_err());
}

#[test]
fn text_of_both_alphabets_is_base58() {
    assert!(base64::engine::general_purpose::STANDARD.decode("abcd").is_ok());
    assert_eq!(decode_transaction("abcd"), Ok(bs58::decode("abcd").into_vec().unwrap()));
}

#[test]
fn unmarked_base64_is_the_second_guess() {
    assert!(bs58::decode("AAA0").into_vec().is_err());
    assert_eq!(decode_transaction("AAA0"), Ok(vec![0, 0, 0x34]));
}

#[test]
fn marked_text_that_is_no_base64_is_refused() {
    let text = "abc=def";
    assert_eq!(
        decode_transaction(text),
        Err(format!(
            "Failed to decode transaction (tried base64 and base58): base64 error: {}, base58 error: {}",
            base64_error(text),
            base58_error(text)
        ))
    );
}

#[test]
fn marked_text_is_refused_in_so_many_words() {
    assert_eq!(
        decode_transaction("="),
        Err("Failed to decode transaction (tried base64 and base58): base64 error: Invalid symbol 61, offset 0., \
             base58 error: provided string contained invalid character '=' at byte 0"
            .to_string())
    );
}

#[test]
fn unmarked_text_that_is_neither_is_refused() {
    let text = "0OIl!";
    assert_eq!(
        decode_transaction(text),
        Err(format!("Failed to decode transaction (tried base58 and base64): {}", base64_error(text)))
    );
}

#[test]
fn text_outside_ascii_is_refused() {
    let text = "\u{e9}t\u{e9}";
    assert_eq!(
        decode_transaction(text),
        Err(format!("Failed to decode transaction (tried base58 and base64): {}", base64_error(text)))
    );
}

#[test]
fn either_encoding_gives_the_bytes_back() {
    let bytes: Vec<u8> = (0..=255).collect();
    let text64 = base64::engine::general_purpose::STANDARD.encode(&bytes);
    let text58 = bs58::encode(&bytes).into_string();
    assert_eq!(decode_transaction(&text64), Ok(bytes.clone()));
    assert_eq!(decode_transaction(&text58), Ok(bytes));
}

#[test]
fn second_guess_after_base64() {
    assert_eq!(after_base64_failed("bad".to_string(), Ok(vec![1, 2])), Ok(vec![1, 2]));
    assert_eq!(
        after_base64_failed("bad".to_string(), Err("worse".to_string())),
        Err("Failed to decode transaction (tried base64 and base58): base64 error: bad, base58 error: worse".to_string())
    );
}

#[test]
fn second_guess_after_base58() {
    assert_eq!(after_base58_failed(Ok(vec![3])), Ok(vec![3]));
    assert_eq!(
        after_base58_failed(Err("bad".to_string())),
        Err("Failed to decode transaction (tried base58 and base64): bad".to_string())
    );
}
