//! Text helpers over std's UTF-8 handling.

use vstd::prelude::*;

use crate::wire::str_bytes;
use vstd::utf8::{
    encode_scalar, encode_utf8, encode_utf8_decode_utf8, encode_utf8_valid_utf8, has_width_1_encoding,
    has_width_2_encoding, has_width_3_encoding, valid_utf8,
};

verus! {

/// Calls `core::str::from_utf8` and copies the result into a `String`.
/// Trusted: std documents that `from_utf8` succeeds exactly on well-formed
/// UTF-8 and that the string it returns has the input as its bytes.
#[verifier::external_body]
pub fn utf8_to_string(bytes: &[u8]) -> (r: Option<String>)
    ensures
        r is Some <==> valid_utf8(bytes@),
        r matches Some(s) ==> encode_utf8(s@) == bytes@,
{
    match core::str::from_utf8(bytes) {
        Ok(s) => Some(s.to_owned()),
        Err(_) => None,
    }
}

/// The encoding of two strings one after the other is the encoding of
/// the first followed by that of the second.
pub proof fn lemma_encode_utf8_concat(a: Seq<char>, b: Seq<char>)
    ensures
        encode_utf8(a + b) == encode_utf8(a) + encode_utf8(b),
    decreases a.len(),
{
    if a.len() > 0 {
        assert((a + b).drop_first() =~= a.drop_first() + b);
        lemma_encode_utf8_concat(a.drop_first(), b);
        assert(encode_utf8(a + b) =~= encode_utf8(a) + encode_utf8(b));
    } else {
        assert(a + b =~= b);
    }
}

/// Appends the UTF-8 encoding of `c`.
fn push_char(out: &mut Vec<u8>, c: char)
    ensures
        final(out)@ == old(out)@ + encode_scalar(c as u32),
{
    let v = c as u32;
    proof {
        vstd::utf8::char_is_scalar(c);
    }
    if v <= 0x7F {
        out.push((v & 0x7F) as u8);
    } else if v <= 0x7FF {
        out.push(0xC0 | ((v >> 6) & 0x1F) as u8);
        out.push(0x80 | (v & 0x3F) as u8);
    } else if v <= 0xFFFF {
        out.push(0xE0 | ((v >> 12) & 0x0F) as u8);
        out.push(0x80 | ((v >> 6) & 0x3F) as u8);
        out.push(0x80 | (v & 0x3F) as u8);
    } else {
        out.push(0xF0 | ((v >> 18) & 0x7) as u8);
        out.push(0x80 | ((v >> 12) & 0x3F) as u8);
        out.push(0x80 | ((v >> 6) & 0x3F) as u8);
        out.push(0x80 | (v & 0x3F) as u8);
    }
    proof {
        assert(final(out)@ =~= old(out)@ + encode_scalar(v));
    }
}

/// The string made of `chars`.
pub fn string_from_chars(chars: &Vec<char>) -> (s: String)
    ensures
        s@ == chars@,
{
    let mut bytes: Vec<u8> = Vec::new();
    let mut i: usize = 0;
    proof {
        assert(chars@.take(0) =~= Seq::<char>::empty());
    }
    while i < chars.len()
        invariant
            i <= chars@.len(),
            bytes@ == encode_utf8(chars@.take(i as int)),
        decreases chars@.len() - i,
    {
        let c = chars[i];
        push_char(&mut bytes, c);
        proof {
            assert(chars@.take(i + 1) =~= chars@.take(i as int) + seq![c]);
            lemma_encode_utf8_concat(chars@.take(i as int), seq![c]);
            assert(seq![c].drop_first() =~= Seq::<char>::empty());
            assert(seq![c][0] == c);
            assert(encode_utf8(Seq::<char>::empty()) =~= Seq::<u8>::empty());
            assert(encode_utf8(seq![c]) == encode_scalar(c as u32) + encode_utf8(seq![c].drop_first()));
            assert(encode_utf8(seq![c]) =~= encode_scalar(c as u32));
        }
        i = i + 1;
    }
    proof {
        assert(chars@.take(i as int) =~= chars@);
        encode_utf8_valid_utf8(chars@);
    }
    match utf8_to_string(bytes.as_slice()) {
        Some(s) => {
            proof {
                encode_utf8_decode_utf8(s@);
                encode_utf8_decode_utf8(chars@);
            }
            s
        },
        None => {
            proof {
                assert(false);
            }
            String::new()
        },
    }
}

/// Decimal digits of `n`, most significant first, without leading zeros.
pub open spec fn decimal(n: nat) -> Seq<u8>
    decreases n,
{
    if n < 10 {
        seq![(48 + n) as u8]
    } else {
        decimal(n / 10).push((48 + n % 10) as u8)
    }
}

/// Appends `piece`, whose UTF-8 bytes then follow the old text's.
pub fn append(text: &mut String, piece: &str)
    ensures
        str_bytes(*final(text)) == str_bytes(*old(text)) + encode_utf8(piece@),
{
    proof {
        lemma_encode_utf8_concat(text@, piece@);
    }
    text.append(piece);
}

/// The decimal digits of `n`, as ASCII.
pub fn decimal_digits(n: usize) -> (d: Vec<u8>)
    ensures
        d@ == decimal(n as nat),
        forall|i: int| 0 <= i < d@.len() ==> d@[i] < 0x80,
    decreases n,
{
    if n < 10 {
        vec![48 + n as u8]
    } else {
        let mut d = decimal_digits(n / 10);
        d.push(48 + (n % 10) as u8);
        d
    }
}

/// Appends `n` in decimal.
pub fn append_decimal(text: &mut String, n: usize)
    ensures
        str_bytes(*final(text)) == str_bytes(*old(text)) + decimal(n as nat),
{
    let digits = decimal_digits(n);
    proof {
        crate::sim::support::lemma_ascii_is_utf8(digits@);
    }
    match utf8_to_string(digits.as_slice()) {
        Some(s) => append(text, s.as_str()),
        None => {
            proof {
                assert(false);
            }
        },
    }
}

} // verus!
