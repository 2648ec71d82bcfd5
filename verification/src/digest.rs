//! Fingerprints of bytes, and how bytes are written as text.

use vstd::prelude::*;

verus! {

/// The digest that `sha2::Sha256` computes.
pub uninterp spec fn sha256(bytes: Seq<u8>) -> Seq<u8>;

/// Computes a digest with `sha2::Sha256::digest`. It depends on the bytes alone and always has
/// thirty-two bytes.
#[verifier::external_body]
pub(crate) fn sha256_of(bytes: &Vec<u8>) -> (digest: Vec<u8>)
    ensures
        digest@ == sha256(bytes@),
        digest@.len() == 32,
{
    <sha2::Sha256 as sha2::Digest>::digest(bytes).to_vec()
}

/// The digest that `md5::compute` computes.
pub uninterp spec fn md5_digest(bytes: Seq<u8>) -> Seq<u8>;

/// Computes a digest with `md5::compute` over the UTF-8 form of a text. It depends on those bytes
/// alone and always has sixteen bytes.
#[verifier::external_body]
pub(crate) fn md5_of(text: &str) -> (digest: Vec<u8>)
    ensures
        digest@ == md5_digest(vstd::utf8::encode_utf8(text@)),
        digest@.len() == 16,
{
    md5::compute(text).0.to_vec()
}

/// The lower-case character of a hexadecimal digit.
pub open spec fn hex_digit(n: u8) -> char {
    if n < 10 {
        ('0' as u32 + n) as char
    } else {
        ('a' as u32 + n - 10) as char
    }
}

/// A lower-case hexadecimal digit.
pub open spec fn is_hex_digit(c: char) -> bool {
    '0' <= c <= '9' || 'a' <= c <= 'f'
}

/// Two lower-case hexadecimal digits for each byte, the higher one first.
pub open spec fn hex(bytes: Seq<u8>) -> Seq<char>
    decreases bytes.len(),
{
    if bytes.len() == 0 {
        Seq::empty()
    } else {
        hex(bytes.drop_last()) + seq![hex_digit(bytes.last() / 16), hex_digit(bytes.last() % 16)]
    }
}

/// The lower-case character of a hexadecimal digit.
fn hex_char(n: u8) -> (c: char)
    requires
        n < 16,
    ensures
        c == hex_digit(n),
{
    if n < 10 {
        (48 + n) as char
    } else {
        (87 + n) as char
    }
}

/// Two lower-case hexadecimal digits for each byte.
pub fn to_hex(bytes: &Vec<u8>) -> (text: String)
    ensures
        text@ == hex(bytes@),
{
    let mut text = String::new();
    for i in 0..bytes.len()
        invariant
            text@ == hex(bytes@.take(i as int)),
    {
        let byte = bytes[i];
        let ghost so_far = text@;
        text.push(hex_char(byte / 16));
        text.push(hex_char(byte % 16));
        assert(bytes@.take(i as int + 1).drop_last() =~= bytes@.take(i as int));
        assert(text@ =~= so_far + seq![hex_digit(byte / 16), hex_digit(byte % 16)]);
    }
    assert(bytes@.take(bytes@.len() as int) == bytes@);
    text
}

/// Hexadecimal text has two digits for each byte and nothing else, so it names a file of its own
/// in whatever directory it is put.
pub proof fn law_hex_is_plain(bytes: Seq<u8>)
    ensures
        hex(bytes).len() == 2 * bytes.len(),
        forall|i: int| 0 <= i < hex(bytes).len() ==> is_hex_digit(#[trigger] hex(bytes)[i]),
    decreases bytes.len(),
{
    if bytes.len() > 0 {
        law_hex_is_plain(bytes.drop_last());
    }
}

/// Each byte can be told from its two digits, the higher one first.
pub proof fn law_bytes_are_read_back_from_hex(bytes: Seq<u8>, at: int)
    requires
        0 <= at < bytes.len(),
    ensures
        hex(bytes).len() == 2 * bytes.len(),
        digit_value(hex(bytes)[2 * at]) * 16 + digit_value(hex(bytes)[2 * at + 1]) == bytes[at],
        digit_value(hex(bytes)[2 * at]) < 16 && digit_value(hex(bytes)[2 * at + 1]) < 16,
    decreases bytes.len(),
{
    let front = bytes.drop_last();
    lemma_hex_len(front);
    if at < front.len() {
        law_bytes_are_read_back_from_hex(front, at);
        assert(hex(bytes)[2 * at] == hex(front)[2 * at]);
        assert(hex(bytes)[2 * at + 1] == hex(front)[2 * at + 1]);
    } else {
        assert(hex(bytes)[2 * at] == hex_digit(bytes.last() / 16));
        assert(hex(bytes)[2 * at + 1] == hex_digit(bytes.last() % 16));
    }
    lemma_hex_len(bytes);
}

proof fn lemma_hex_len(bytes: Seq<u8>)
    ensures
        hex(bytes).len() == 2 * bytes.len(),
    decreases bytes.len(),
{
    if bytes.len() > 0 {
        lemma_hex_len(bytes.drop_last());
    }
}

/// What a digit of a hexadecimal number counts: the digits from 0 on, then the small letters from
/// a on.
pub open spec fn digit_value(c: char) -> int {
    if '0' <= c <= '9' {
        c as int - 48
    } else if 'a' <= c <= 'f' {
        c as int - 87
    } else {
        16
    }
}

} // verus!
