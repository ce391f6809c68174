//! Base58: how keys, signatures and transactions are written as texts.
use vstd::prelude::*;

verus! {

/// The characters of base58: digits and letters but for `0`, `I`, `O` and `l`.
pub open spec fn is_base58_char(c: char) -> bool {
    ||| '1' <= c <= '9'
    ||| 'A' <= c <= 'Z' && c != 'I' && c != 'O'
    ||| 'a' <= c <= 'z' && c != 'l'
}

/// Whether `text` is made of characters of base58 alone.
pub open spec fn is_base58(text: Seq<char>) -> bool {
    forall|i: int| 0 <= i < text.len() ==> is_base58_char(#[trigger] text[i])
}

/// The character that stands for `digit`, which is less than 58.
pub open spec fn base58_char(digit: nat) -> char {
    "123456789ABCDEFGHJKLMNPQRSTUVWXYZabcdefghijkmnopqrstuvwxyz"@[digit as int]
}

/// The number that `bytes` stand for, the most significant byte first.
pub open spec fn big_endian(bytes: Seq<u8>) -> nat
    decreases bytes.len(),
{
    if bytes.len() == 0 {
        0
    } else {
        big_endian(bytes.drop_last()) * 256 + bytes.last() as nat
    }
}

/// The number `n` in base 58, the most significant digit first, without leading zeros.
pub open spec fn base58_digits(n: nat) -> Seq<char>
    decreases n,
{
    if n == 0 {
        Seq::empty()
    } else {
        base58_digits(n / 58).push(base58_char(n % 58))
    }
}

/// With how many of `item` the sequence `items` begins.
pub open spec fn leading<A>(items: Seq<A>, item: A) -> nat
    decreases items.len(),
{
    if items.len() == 0 || items[0] != item {
        0
    } else {
        1 + leading(items.drop_first(), item)
    }
}

/// How base58 writes `bytes`: a `1` for each zero that they begin with, then the number that they
/// stand for.
pub open spec fn base58_text(bytes: Seq<u8>) -> Seq<char> {
    Seq::new(leading(bytes, 0), |i: int| '1') + base58_digits(big_endian(bytes))
}

/// The digit that a character of base58 stands for.
spec fn base58_digit(c: char) -> int {
    if c <= '9' {
        c as int - '1' as int
    } else if c <= 'H' {
        c as int - 'A' as int + 9
    } else if c <= 'N' {
        c as int - 'J' as int + 17
    } else if c <= 'Z' {
        c as int - 'P' as int + 22
    } else if c <= 'k' {
        c as int - 'a' as int + 33
    } else {
        c as int - 'm' as int + 44
    }
}

/// The number that the digits in `text` stand for.
spec fn base58_value(text: Seq<char>) -> int
    decreases text.len(),
{
    if text.len() == 0 {
        0
    } else {
        base58_value(text.drop_last()) * 58 + base58_digit(text.last())
    }
}

/// The number `n` as bytes, the most significant first, without leading zeros.
spec fn number_bytes(n: nat) -> Seq<u8>
    decreases n,
{
    if n == 0 {
        Seq::empty()
    } else {
        number_bytes(n / 256).push((n % 256) as u8)
    }
}

/// Each digit has a character of its own.
proof fn lemma_char(digit: nat)
    requires
        digit < 58,
    ensures
        is_base58_char(base58_char(digit)),
        base58_digit(base58_char(digit)) == digit,
{
    reveal_strlit("123456789ABCDEFGHJKLMNPQRSTUVWXYZabcdefghijkmnopqrstuvwxyz");
}

/// Each character of base58 stands for a digit of its own.
proof fn lemma_digit(c: char)
    requires
        is_base58_char(c),
    ensures
        0 <= base58_digit(c) < 58,
        base58_char(base58_digit(c) as nat) == c,
        base58_digit(c) == 0 <==> c == '1',
{
    reveal_strlit("123456789ABCDEFGHJKLMNPQRSTUVWXYZabcdefghijkmnopqrstuvwxyz");
}

/// A number can be read back from its digits, whatever zeros stand before them.
proof fn lemma_value(zeros: nat, n: nat)
    ensures
        base58_value(Seq::new(zeros, |i: int| '1') + base58_digits(n)) == n,
    decreases n, zeros,
{
    let text = Seq::new(zeros, |i: int| '1') + base58_digits(n);
    if n > 0 {
        lemma_value(zeros, n / 58);
        lemma_char(n % 58);
        assert(text.drop_last() =~= Seq::new(zeros, |i: int| '1') + base58_digits(n / 58));
    } else if zeros > 0 {
        lemma_value((zeros - 1) as nat, 0);
        assert(text.drop_last() =~= Seq::new((zeros - 1) as nat, |i: int| '1') + base58_digits(0));
    }
}

/// What a sequence begins with does not change when something is added at its end, but where it
/// is made of `item` alone and this is one more.
proof fn lemma_leading_push<A>(items: Seq<A>, item: A, added: A)
    ensures
        leading(items, item) <= items.len(),
        leading(items.push(added), item) == if leading(items, item) == items.len() && added == item {
            items.len() + 1
        } else {
            leading(items, item)
        },
    decreases items.len(),
{
    if items.len() > 0 {
        lemma_leading_push(items.drop_first(), item, added);
        assert(items.push(added).drop_first() =~= items.drop_first().push(added));
    } else {
        assert(items.push(added).drop_first() =~= items);
    }
}

/// Bytes are the zeros that they begin with, and the number that they stand for.
proof fn lemma_bytes(bytes: Seq<u8>)
    ensures
        bytes == Seq::new(leading(bytes, 0), |i: int| 0u8) + number_bytes(big_endian(bytes)),
        big_endian(bytes) == 0 <==> leading(bytes, 0) == bytes.len(),
    decreases bytes.len(),
{
    if bytes.len() > 0 {
        let front = bytes.drop_last();
        lemma_bytes(front);
        lemma_leading_push(front, 0, bytes.last());
        assert(front.push(bytes.last()) =~= bytes);
        if big_endian(bytes) > 0 {
            assert(big_endian(bytes) / 256 == big_endian(front));
            assert(big_endian(bytes) % 256 == bytes.last());
        }
    }
}

/// A text of base58 is the ones that it begins with, and the number that it stands for.
proof fn lemma_text(text: Seq<char>)
    requires
        is_base58(text),
    ensures
        base58_value(text) >= 0,
        text == Seq::new(leading(text, '1'), |i: int| '1') + base58_digits(
            base58_value(text) as nat,
        ),
        base58_value(text) == 0 <==> leading(text, '1') == text.len(),
    decreases text.len(),
{
    if text.len() > 0 {
        let front = text.drop_last();
        assert(is_base58_char(text[text.len() - 1]));
        assert(is_base58(front));
        lemma_text(front);
        lemma_leading_push(front, '1', text.last());
        lemma_digit(text.last());
        assert(front.push(text.last()) =~= text);
        if base58_value(text) > 0 {
            assert(base58_value(text) / 58 == base58_value(front));
            assert(base58_value(text) % 58 == base58_digit(text.last()));
        }
    }
}

/// Bytes can be told by the zeros that they begin with and the number that they stand for.
proof fn lemma_number(zeros: nat, n: nat)
    ensures
        big_endian(Seq::new(zeros, |i: int| 0u8) + number_bytes(n)) == n,
        leading(Seq::new(zeros, |i: int| 0u8) + number_bytes(n), 0) == zeros,
        n == 0 <==> number_bytes(n).len() == 0,
    decreases n, zeros,
{
    let bytes = Seq::new(zeros, |i: int| 0u8) + number_bytes(n);
    if n > 0 {
        let front = Seq::new(zeros, |i: int| 0u8) + number_bytes(n / 256);
        lemma_number(zeros, n / 256);
        lemma_leading_push(front, 0, (n % 256) as u8);
        assert(bytes =~= front.push((n % 256) as u8));
        assert(bytes.drop_last() =~= front);
    } else if zeros > 0 {
        let front = Seq::new((zeros - 1) as nat, |i: int| 0u8) + number_bytes(0);
        lemma_number((zeros - 1) as nat, 0);
        lemma_leading_push(front, 0, 0);
        assert(bytes =~= front.push(0));
        assert(bytes.drop_last() =~= front);
    }
}

/// Every digit of a number is a character of base58.
proof fn lemma_digits_are_base58(n: nat)
    ensures
        is_base58(base58_digits(n)),
    decreases n,
{
    if n > 0 {
        lemma_digits_are_base58(n / 58);
        lemma_char(n % 58);
    }
}

/// What base58 writes is made of characters of base58.
pub proof fn written_text_is_base58(bytes: Seq<u8>)
    ensures
        is_base58(base58_text(bytes)),
{
    lemma_digits_are_base58(big_endian(bytes));
}

/// Every text of base58 is what base58 writes for some bytes.
pub proof fn base58_text_stands_for_bytes(text: Seq<char>)
    requires
        is_base58(text),
    ensures
        exists|bytes: Seq<u8>| #[trigger] base58_text(bytes) == text,
{
    let zeros = leading(text, '1');
    let n = base58_value(text) as nat;
    lemma_text(text);
    lemma_number(zeros, n);
    assert(base58_text(Seq::new(zeros, |i: int| 0u8) + number_bytes(n)) == text);
}

/// Different bytes are written differently: no two keys and no two signatures share a text.
pub proof fn different_bytes_have_different_texts(a: Seq<u8>, b: Seq<u8>)
    ensures
        base58_text(a) == base58_text(b) ==> a == b,
{
    if base58_text(a) == base58_text(b) {
        lemma_value(leading(a, 0), big_endian(a));
        lemma_value(leading(b, 0), big_endian(b));
        assert(base58_text(a).len() == leading(a, 0) + base58_digits(big_endian(a)).len());
        assert(base58_text(b).len() == leading(b, 0) + base58_digits(big_endian(b)).len());
        lemma_bytes(a);
        lemma_bytes(b);
    }
}

} // verus!
