//! Hexadecimal text.
//!
//! Decoding is lenient: bytes of the text that are no hex digit are dropped,
//! the remaining digits are read two at a time, and a last digit without a
//! partner is dropped as well.

use vstd::prelude::*;
use vstd::string::StringSliceAdditionalSpecFns;
use vstd::string::StrSliceExecFns;
use vstd::string::StringExecFns;
use vstd::utf8::encode_utf8;
use vstd::utf8::is_ascii_chars;
use vstd::utf8::is_ascii_chars_encode_utf8;

verus! {

/// The value of an ASCII hex digit, of either case; `None` for any other byte.
pub open spec fn hex_value(b: u8) -> Option<u8> {
    if 0x30 <= b <= 0x39 {
        Some((b - 0x30) as u8)
    } else if 0x61 <= b <= 0x66 {
        Some((b - 0x61 + 10) as u8)
    } else if 0x41 <= b <= 0x46 {
        Some((b - 0x41 + 10) as u8)
    } else {
        None
    }
}

/// The values of the hex digits of `text`, in the order of the text.
pub open spec fn nibbles(text: Seq<u8>) -> Seq<u8>
    decreases text.len(),
{
    if text.len() == 0 {
        Seq::empty()
    } else {
        match hex_value(text.last()) {
            Some(v) => nibbles(text.drop_last()).push(v),
            None => nibbles(text.drop_last()),
        }
    }
}

/// The bytes that digit values make two at a time, the first of each pair
/// being the high half. A last value without a partner makes no byte.
pub open spec fn pair_up(digits: Seq<u8>) -> Seq<u8> {
    Seq::new(digits.len() / 2, |i: int| (digits[2 * i] * 16 + digits[2 * i + 1]) as u8)
}

/// The bytes that `text` decodes to.
pub open spec fn decode_hex(text: Seq<u8>) -> Seq<u8> {
    pair_up(nibbles(text))
}

/// Every digit value is below sixteen.
pub proof fn lemma_nibbles_small(text: Seq<u8>)
    ensures
        forall|i: int| 0 <= i < nibbles(text).len() ==> #[trigger] nibbles(text)[i] < 16,
        nibbles(text).len() <= text.len(),
    decreases text.len(),
{
    if text.len() > 0 {
        lemma_nibbles_small(text.drop_last());
    }
}

/// Reading one more byte of text adds its digit value, if it has one.
pub proof fn lemma_nibbles_push(text: Seq<u8>, b: u8)
    ensures
        nibbles(text.push(b)) == match hex_value(b) {
            Some(v) => nibbles(text).push(v),
            None => nibbles(text),
        },
{
    assert(text.push(b).drop_last() =~= text);
}

/// The value of the hex digit `b`, if it is one.
pub fn hex_digit(b: u8) -> (v: Option<u8>)
    ensures
        v == hex_value(b),
{
    if 0x30 <= b && b <= 0x39 {
        Some(b - 0x30)
    } else if 0x61 <= b && b <= 0x66 {
        Some(b - 0x61 + 10)
    } else if 0x41 <= b && b <= 0x46 {
        Some(b - 0x41 + 10)
    } else {
        None
    }
}

/// What a scan of hex text yields: the decoded bytes, and whether a digit was
/// left over without a partner.
pub struct Scan {
    /// The bytes that the text decodes to.
    pub bytes: Vec<u8>,
    /// Whether the text holds an odd number of hex digits.
    pub dangling: bool,
}

/// Decodes `text`, and says whether its number of hex digits is odd.
pub fn scan_hex(text: &[u8]) -> (scan: Scan)
    ensures
        scan.bytes@ == decode_hex(text@),
        scan.dangling == (nibbles(text@).len() % 2 == 1),
{
    let mut bytes: Vec<u8> = Vec::new();
    let mut high: Option<u8> = None;
    let mut i: usize = 0;
    while i < text.len()
        invariant
            i <= text.len(),
            bytes@ == decode_hex(text@.take(i as int)),
            high is Some <==> nibbles(text@.take(i as int)).len() % 2 == 1,
            high matches Some(h) ==> h == nibbles(text@.take(i as int)).last(),
        decreases text.len() - i,
    {
        let ghost before = text@.take(i as int);
        proof {
            assert(text@.take(i + 1) =~= before.push(text@[i as int]));
            lemma_nibbles_push(before, text@[i as int]);
            lemma_nibbles_small(before);
            lemma_nibbles_small(before.push(text@[i as int]));
        }
        match hex_digit(text[i]) {
            Some(v) => {
                match high {
                    Some(h) => {
                        assert(h == nibbles(before)[nibbles(before).len() - 1]);
                        let byte: u8 = h << 4 | v;
                        assert(byte == h * 16 + v) by (bit_vector)
                            requires
                                byte == h << 4 | v,
                                h < 16,
                                v < 16,
                        ;
                        bytes.push(byte);
                        high = None;
                        assert(bytes@ =~= decode_hex(before.push(text@[i as int])));
                    },
                    None => {
                        high = Some(v);
                        assert(bytes@ =~= decode_hex(before.push(text@[i as int])));
                    },
                }
            },
            None => {},
        }
        i += 1;
    }
    assert(text@.take(i as int) =~= text@);
    Scan { bytes, dangling: high.is_some() }
}

/// Decodes hex text: the hex digits of `hex_asm`, read two at a time.
pub fn parse_hex(hex_asm: &str) -> (bytes: Vec<u8>)
    ensures
        bytes@ == decode_hex(hex_asm.spec_bytes()),
{
    scan_hex(hex_asm.as_bytes()).bytes
}

/// The first sixteen places of `bytes`, with zero where `bytes` has ended.
pub open spec fn zero_padded(bytes: Seq<u8>) -> Seq<u8> {
    Seq::new(16, |i: int| if i < bytes.len() { bytes[i] } else { 0u8 })
}

/// Copies at most sixteen bytes into a block, zero behind them.
pub fn to_block(bytes: &[u8]) -> (block: [u8; 16])
    requires
        bytes@.len() <= 16,
    ensures
        block@ == zero_padded(bytes@),
{
    let mut block: [u8; 16] = [0u8; 16];
    let mut i: usize = 0;
    while i < bytes.len()
        invariant
            i <= bytes@.len() <= 16,
            forall|j: int| 0 <= j < i ==> block@[j] == bytes@[j],
            forall|j: int| i <= j < 16 ==> block@[j] == 0,
        decreases bytes.len() - i,
    {
        block[i] = bytes[i];
        i += 1;
    }
    assert(block@ =~= zero_padded(bytes@));
    block
}

/// Decodes hex text of at most sixteen bytes into a block of exactly
/// sixteen: the decoded bytes first, zero behind them.
pub fn parse_16_hex(hex_asm: &str) -> (block: [u8; 16])
    requires
        decode_hex(hex_asm.spec_bytes()).len() <= 16,
    ensures
        block@ == zero_padded(decode_hex(hex_asm.spec_bytes())),
{
    let scan = scan_hex(hex_asm.as_bytes());
    to_block(scan.bytes.as_slice())
}

/// Whether `text` spells a key: exactly thirty-two hex digits, whatever
/// stands between them.
pub open spec fn spells_key(text: Seq<u8>) -> bool {
    nibbles(text).len() == 32
}

/// Decodes a candidate key. Text with any other number of hex digits than
/// thirty-two is no key.
pub fn parse_key(text: &str) -> (key: Option<[u8; 16]>)
    ensures
        key is Some <==> spells_key(text.spec_bytes()),
        key matches Some(k) ==> k@ == decode_hex(text.spec_bytes()),
{
    let scan = scan_hex(text.as_bytes());
    if scan.bytes.len() == 16 && !scan.dangling {
        let key = to_block(scan.bytes.as_slice());
        assert(key@ =~= scan.bytes@);
        Some(key)
    } else {
        None
    }
}

/// The lower-case ASCII hex digit for a value below sixteen.
pub open spec fn digit_of(v: u8) -> u8 {
    if v < 10 {
        (0x30 + v) as u8
    } else {
        (0x57 + v) as u8
    }
}

/// The hex text of `bytes`: two lower-case digits for each byte, the high
/// half first.
pub open spec fn hex_text(bytes: Seq<u8>) -> Seq<u8> {
    Seq::new(
        2 * bytes.len(),
        |i: int|
            digit_of(
                if i % 2 == 0 {
                    bytes[i / 2] / 16
                } else {
                    bytes[i / 2] % 16
                },
            ),
    )
}

/// Whether every byte of `text` is a hex digit.
pub open spec fn all_hex(text: Seq<u8>) -> bool {
    forall|i: int| 0 <= i < text.len() ==> (#[trigger] hex_value(text[i])) is Some
}

/// `b` with an upper-case hex letter turned into lower case.
pub open spec fn lower_digit(b: u8) -> u8 {
    if 0x41 <= b <= 0x46 {
        (b + 0x20) as u8
    } else {
        b
    }
}

/// Text made of hex digits alone has one digit value for each of its bytes.
pub proof fn lemma_nibbles_all_hex(text: Seq<u8>)
    requires
        all_hex(text),
    ensures
        nibbles(text).len() == text.len(),
        forall|i: int| 0 <= i < text.len() ==> hex_value(text[i]) == Some(#[trigger] nibbles(text)[i]),
    decreases text.len(),
{
    if text.len() > 0 {
        let front = text.drop_last();
        assert forall|i: int| 0 <= i < front.len() implies (#[trigger] hex_value(front[i])) is Some by {
            assert(front[i] == text[i]);
        }
        lemma_nibbles_all_hex(front);
        assert forall|i: int| 0 <= i < text.len() implies hex_value(text[i]) == Some(
            #[trigger] nibbles(text)[i],
        ) by {
            if i < front.len() {
                assert(front[i] == text[i]);
            }
        }
    }
}

/// Decoding the hex text of bytes gives the bytes back.
pub proof fn lemma_decode_hex_text(bytes: Seq<u8>)
    ensures
        all_hex(hex_text(bytes)),
        decode_hex(hex_text(bytes)) == bytes,
{
    let text = hex_text(bytes);
    assert forall|i: int| 0 <= i < text.len() implies (#[trigger] hex_value(text[i])) is Some by {
        let b = bytes[i / 2];
        assert(b / 16 < 16 && b % 16 < 16);
    }
    lemma_nibbles_all_hex(text);
    let digits = nibbles(text);
    assert forall|k: int| 0 <= k < bytes.len() implies decode_hex(text)[k] == bytes[k] by {
        let b = bytes[k];
        assert((2 * k) / 2 == k && (2 * k) % 2 == 0);
        assert((2 * k + 1) / 2 == k && (2 * k + 1) % 2 == 1);
        assert(hex_value(text[2 * k]) == Some(digits[2 * k]));
        assert(hex_value(text[2 * k + 1]) == Some(digits[2 * k + 1]));
        assert(digits[2 * k] == b / 16);
        assert(digits[2 * k + 1] == b % 16);
    }
    assert(decode_hex(text) =~= bytes);
}

/// For text that is an even number of hex digits and nothing else, encoding
/// what it decodes to writes the same text in lower case, and so decodes to
/// the same bytes again.
pub proof fn lemma_hex_round_trip(text: Seq<u8>)
    requires
        all_hex(text),
        text.len() % 2 == 0,
    ensures
        hex_text(decode_hex(text)) == text.map_values(|b: u8| lower_digit(b)),
        decode_hex(hex_text(decode_hex(text))) == decode_hex(text),
{
    lemma_nibbles_all_hex(text);
    lemma_decode_hex_text(decode_hex(text));
    let digits = nibbles(text);
    let again = hex_text(decode_hex(text));
    assert forall|i: int| 0 <= i < text.len() implies again[i] == lower_digit(text[i]) by {
        let k = i / 2;
        let hi = digits[2 * k];
        let lo = digits[2 * k + 1];
        assert(hex_value(text[2 * k]) == Some(hi));
        assert(hex_value(text[2 * k + 1]) == Some(lo));
        assert(hi < 16 && lo < 16);
        assert(decode_hex(text)[k] == hi * 16 + lo);
        assert((hi * 16 + lo) / 16 == hi && (hi * 16 + lo) % 16 == lo);
    }
    assert(again =~= text.map_values(|b: u8| lower_digit(b)));
}

/// Writes `bytes` as hex text, two lower-case digits for each byte.
pub fn encode_hex(bytes: &[u8]) -> (text: String)
    ensures
        is_ascii_chars(text@),
        encode_utf8(text@) == hex_text(bytes@),
{
    let digits: &str = "0123456789abcdef";
    proof {
        reveal_strlit("0123456789abcdef");
    }
    let mut text = String::new();
    let mut i: usize = 0;
    while i < bytes.len()
        invariant
            i <= bytes@.len(),
            digits@ == "0123456789abcdef"@,
            text@.len() == 2 * i,
            is_ascii_chars(text@),
            forall|j: int| 0 <= j < 2 * i ==> #[trigger] text@[j] as u8 == hex_text(bytes@)[j],
        decreases bytes.len() - i,
    {
        proof {
            reveal_strlit("0123456789abcdef");
        }
        let hi: usize = (bytes[i] / 16) as usize;
        let lo: usize = (bytes[i] % 16) as usize;
        let ghost before = text@;
        text.append(digits.substring_ascii(hi, hi + 1));
        text.append(digits.substring_ascii(lo, lo + 1));
        proof {
            assert(text@ =~= before.push(digits@[hi as int]).push(digits@[lo as int]));
            assert(digits@[hi as int] as u8 == digit_of(hi as u8));
            assert(digits@[lo as int] as u8 == digit_of(lo as u8));
            assert((2 * i) / 2 == i && (2 * i) % 2 == 0);
            assert((2 * i + 1) / 2 == i && (2 * i + 1) % 2 == 1);
        }
        i += 1;
    }
    proof {
        is_ascii_chars_encode_utf8(text@);
        assert(encode_utf8(text@) =~= hex_text(bytes@));
    }
    text
}

} // verus!
