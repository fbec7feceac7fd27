//! Base64 text.

use base64::Engine;
use vstd::prelude::*;

verus! {

/// The character that stands for the six bits of `v`: of the letters, the digits, `+` and `/`, in
/// this order, the one at place `v`.
pub open spec fn base64_char(v: int) -> char {
    if v < 26 {
        (v + 65) as char
    } else if v < 52 {
        (v + 71) as char
    } else if v < 62 {
        (v - 4) as char
    } else if v == 62 {
        '+'
    } else {
        '/'
    }
}

/// `bytes` in base64, in the standard alphabet and with padding: three bytes are four characters
/// of six bits each, and what is missing at the end is filled up with zero bits and `=`.
pub open spec fn base64_standard(bytes: Seq<u8>) -> Seq<char>
    decreases bytes.len(),
{
    if bytes.len() == 0 {
        seq![]
    } else if bytes.len() == 1 {
        seq![base64_char(bytes[0] as int / 4), base64_char(bytes[0] % 4 * 16), '=', '=']
    } else if bytes.len() == 2 {
        seq![
            base64_char(bytes[0] as int / 4),
            base64_char(bytes[0] % 4 * 16 + bytes[1] / 16),
            base64_char(bytes[1] % 16 * 4),
            '=',
        ]
    } else {
        seq![
            base64_char(bytes[0] as int / 4),
            base64_char(bytes[0] % 4 * 16 + bytes[1] / 16),
            base64_char(bytes[1] % 16 * 4 + bytes[2] / 64),
            base64_char(bytes[2] as int % 64),
        ] + base64_standard(bytes.skip(3))
    }
}

/// Whether the base64 form of `n` bytes can be held in memory.
pub open spec fn encodable(n: nat) -> bool {
    4 * ((n + 2) / 3) <= isize::MAX
}

/// Whether `c` can stand in base64 text: a letter, a digit, `+`, `/`, or `=` as padding.
pub open spec fn is_base64_char(c: char) -> bool {
    'A' <= c <= 'Z' || 'a' <= c <= 'z' || '0' <= c <= '9' || c == '+' || c == '/' || c == '='
}

/// The base64 form of `bytes`, by `Engine::encode` of the engine `STANDARD`: what
/// `base64_standard` says.
#[verifier::external_body]
pub(crate) fn encode_standard(bytes: &[u8]) -> (r: String)
    requires
        encodable(bytes@.len()),
    ensures
        r@ == base64_standard(bytes@),
{
    base64::engine::general_purpose::STANDARD.encode(bytes)
}

/// Whether the base64 form of `text` can be held in memory.
pub fn is_encodable(text: &str) -> (r: bool)
    ensures
        r == encodable(vstd::utf8::encode_utf8(text@).len()),
{
    text.as_bytes().len() <= 3 * (isize::MAX as usize / 4)
}

/// Base64 text holds four characters for every three bytes, begun or whole, and all of them are
/// of the alphabet or padding.
pub proof fn law_base64_alphabet(bytes: Seq<u8>)
    ensures
        base64_standard(bytes).len() == 4 * ((bytes.len() + 2) / 3),
        forall|i: int|
            0 <= i < base64_standard(bytes).len() ==> is_base64_char(
                #[trigger] base64_standard(bytes)[i],
            ),
    decreases bytes.len(),
{
    if bytes.len() > 2 {
        law_base64_alphabet(bytes.skip(3));
        let text = base64_standard(bytes);
        let rest = base64_standard(bytes.skip(3));
        assert forall|i: int| 4 <= i < text.len() implies is_base64_char(#[trigger] text[i]) by {
            assert(text[i] == rest[i - 4]);
        }
    }
}

/// Two groups of six bits with one character are the same, and no group has the padding's.
proof fn lemma_base64_char(v: int, w: int)
    requires
        0 <= v < 64,
        0 <= w < 64,
    ensures
        base64_char(v) != '=',
        base64_char(v) == base64_char(w) ==> v == w,
{
}

/// No two byte strings have the same base64 form.
pub proof fn law_base64_injective(a: Seq<u8>, b: Seq<u8>)
    requires
        base64_standard(a) == base64_standard(b),
    ensures
        a == b,
    decreases a.len(),
{
    law_base64_alphabet(a);
    law_base64_alphabet(b);
    if a.len() > 0 {
        let x = base64_standard(a);
        let y = base64_standard(b);
        assert(x[0] == y[0] && x[1] == y[1] && x[2] == y[2] && x[3] == y[3]);
        let a0 = a[0] as int;
        let b0 = b[0] as int;
        lemma_base64_char(a0 / 4, b0 / 4);
        let a1 = if a.len() > 1 { a[1] as int } else { 0 };
        let b1 = if b.len() > 1 { b[1] as int } else { 0 };
        lemma_base64_char(a0 % 4 * 16 + a1 / 16, b0 % 4 * 16 + b1 / 16);
        let a2 = if a.len() > 2 { a[2] as int } else { 0 };
        let b2 = if b.len() > 2 { b[2] as int } else { 0 };
        lemma_base64_char(a1 % 16 * 4 + a2 / 64, b1 % 16 * 4 + b2 / 64);
        lemma_base64_char(b1 % 16 * 4 + b2 / 64, a1 % 16 * 4 + a2 / 64);
        lemma_base64_char(a2 % 64, b2 % 64);
        lemma_base64_char(b2 % 64, a2 % 64);
        if a.len() > 2 {
            assert(x.skip(4) == base64_standard(a.skip(3)));
            assert(y.skip(4) == base64_standard(b.skip(3)));
            law_base64_injective(a.skip(3), b.skip(3));
            assert forall|i: int| 0 <= i < a.len() implies a[i] == b[i] by {
                if i > 2 {
                    assert(a.skip(3)[i - 3] == b.skip(3)[i - 3]);
                }
            }
        }
        assert(a == b);
    }
}

/// The base64 form of a byte string can be held in memory if it is no longer than memory allows.
pub proof fn law_encodable(bytes: Seq<u8>)
    ensures
        encodable(bytes.len()) <==> base64_standard(bytes).len() <= isize::MAX,
{
    law_base64_alphabet(bytes);
}

/// The six bits of each of the four characters that three bytes become, taken together, are the
/// bits of the bytes, and the alphabet is the standard one.
pub proof fn law_base64_keeps_the_bits(a: u8, b: u8, c: u8, rest: Seq<u8>)
    ensures
        ({
            let table = "ABCDEFGHIJKLMNOPQRSTUVWXYZabcdefghijklmnopqrstuvwxyz0123456789+/"@;
            let text = base64_standard(seq![a, b, c] + rest);
            &&& text.skip(4) == base64_standard(rest)
            &&& exists|w: int, x: int, y: int, z: int|
                {
                    &&& 0 <= w < 64 && 0 <= x < 64 && 0 <= y < 64 && 0 <= z < 64
                    &&& 262144 * w + 4096 * x + 64 * y + z == 65536 * a + 256 * b + c
                    &&& text.take(4) == seq![
                        #[trigger] table[w],
                        #[trigger] table[x],
                        #[trigger] table[y],
                        #[trigger] table[z],
                    ]
                }
        }),
{
    let table = "ABCDEFGHIJKLMNOPQRSTUVWXYZabcdefghijklmnopqrstuvwxyz0123456789+/"@;
    let bytes = seq![a, b, c] + rest;
    let text = base64_standard(bytes);
    assert(bytes.skip(3) == rest);
    assert(text.skip(4) == base64_standard(rest));
    let w = a as int / 4;
    let x = a as int % 4 * 16 + b as int / 16;
    let y = b as int % 16 * 4 + c as int / 64;
    let z = c as int % 64;
    lemma_base64_table(w);
    lemma_base64_table(x);
    lemma_base64_table(y);
    lemma_base64_table(z);
    assert(text.take(4) == seq![table[w], table[x], table[y], table[z]]);
}

/// The character of a group of six bits stands in the alphabet at its place.
proof fn lemma_base64_table(v: int)
    requires
        0 <= v < 64,
    ensures
        base64_char(v)
            == "ABCDEFGHIJKLMNOPQRSTUVWXYZabcdefghijklmnopqrstuvwxyz0123456789+/"@[v],
{
    reveal_strlit("ABCDEFGHIJKLMNOPQRSTUVWXYZabcdefghijklmnopqrstuvwxyz0123456789+/");
}

} // verus!
