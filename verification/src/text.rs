//! Byte-level text helpers.
//!
//! The library states its contracts over sequences of characters and bytes;
//! this module holds the shared specification functions (ASCII views,
//! lowercasing, decimal rendering, percent-encoding) and the verified
//! executable routines that realize them.
#![allow(unused_imports)]
use vstd::prelude::*;
use vstd::string::StrSliceExecFns;
use vstd::string::StringSliceAdditionalSpecFns;
use vstd::utf8::decode_utf8;
use vstd::utf8::encode_utf8;
use vstd::utf8::encode_utf8_decode_utf8;
use vstd::utf8::encode_utf8_valid_utf8;
use vstd::utf8::is_ascii_chars;
use vstd::utf8::is_ascii_chars_encode_utf8;
use vstd::utf8::valid_utf8;

verus! {

/// The characters whose codes are the given ASCII bytes.
pub open spec fn ascii_chars_of(bytes: Seq<u8>) -> Seq<char> {
    Seq::new(bytes.len(), |i: int| bytes[i] as char)
}

/// True when every byte of the sequence is ASCII.
pub open spec fn all_ascii(bytes: Seq<u8>) -> bool {
    forall|i: int| 0 <= i < bytes.len() ==> bytes[i] < 128
}

/// ASCII lowercase of one character; anything outside 'A'..'Z' is unchanged.
pub open spec fn lower_char(c: char) -> char {
    if 'A' <= c && c <= 'Z' {
        ((c as u32) + 32) as char
    } else {
        c
    }
}

/// ASCII lowercase applied to every character of a sequence.
pub open spec fn lower_chars(s: Seq<char>) -> Seq<char> {
    Seq::new(s.len(), |i: int| lower_char(s[i]))
}

/// ASCII lowercase of one byte.
pub open spec fn lower_byte(b: u8) -> u8 {
    if 65 <= b <= 90 {
        (b + 32) as u8
    } else {
        b
    }
}

/// A sequence of ASCII bytes is valid UTF-8 and decodes to the characters
/// with the same codes.
pub proof fn lemma_ascii_decode(bytes: Seq<u8>)
    requires
        all_ascii(bytes),
    ensures
        valid_utf8(bytes),
        decode_utf8(bytes) == ascii_chars_of(bytes),
{
    let chars = ascii_chars_of(bytes);
    assert forall|i: int| 0 <= i < chars.len() implies '\0' <= #[trigger] chars[i] <= '\u{7f}' by {
        assert(bytes[i] < 128);
    }
    assert(is_ascii_chars(chars));
    is_ascii_chars_encode_utf8(chars);
    assert(encode_utf8(chars) =~= bytes);
    encode_utf8_valid_utf8(chars);
    encode_utf8_decode_utf8(chars);
}

/// The decimal digits of `n` as ASCII bytes, most significant first.
pub open spec fn dec_bytes(n: nat) -> Seq<u8>
    decreases n,
{
    if n < 10 {
        seq![(48 + n) as u8]
    } else {
        dec_bytes(n / 10) + seq![(48 + n % 10) as u8]
    }
}

/// The decimal rendering of `n` as characters.
pub open spec fn dec_chars(n: nat) -> Seq<char> {
    ascii_chars_of(dec_bytes(n))
}

/// Every byte of a decimal rendering is an ASCII digit.
pub proof fn lemma_dec_bytes_ascii(n: nat)
    ensures
        forall|i: int| 0 <= i < dec_bytes(n).len() ==> 48 <= #[trigger] dec_bytes(n)[i] <= 57,
    decreases n,
{
    if n < 10 {
        assert(dec_bytes(n) == seq![(48 + n) as u8]);
        assert(dec_bytes(n)[0] == (48 + n) as u8);
    } else {
        lemma_dec_bytes_ascii(n / 10);
        let pre = dec_bytes(n / 10);
        let last = seq![(48 + n % 10) as u8];
        assert(dec_bytes(n) == pre + last);
        assert forall|i: int| 0 <= i < dec_bytes(n).len() implies 48 <= #[trigger] dec_bytes(n)[i]
            <= 57 by {
            if i < pre.len() {
                assert(dec_bytes(n)[i] == pre[i]);
            } else {
                assert(dec_bytes(n)[i] == last[i - pre.len()]);
            }
        }
    }
}

/// The decimal rendering of `n`.
pub fn decimal_string(n: u64) -> (r: String)
    ensures
        r@ == dec_chars(n as nat),
{
    let mut rev: Vec<u8> = Vec::new();
    let mut m: u64 = n;
    if m == 0 {
        rev.push(48);
    }
    while m > 0
        invariant
            m <= n,
            n > 0 ==> (if m > 0 {
                dec_bytes(n as nat) =~= dec_bytes(m as nat) + rev@.reverse()
            } else {
                dec_bytes(n as nat) =~= rev@.reverse()
            }),
            n == 0 ==> m == 0 && rev@ =~= dec_bytes(0),
        decreases m,
    {
        let d: u8 = (m % 10) as u8;
        let ghost old_rev = rev@;
        let ghost old_m = m as nat;
        rev.push(48 + d);
        m = m / 10;
        proof {
            assert(rev@.reverse() =~= seq![(48 + old_m % 10) as u8] + old_rev.reverse());
            if old_m >= 10 {
                assert(dec_bytes(old_m) == dec_bytes(old_m / 10) + seq![(48 + old_m % 10) as u8]);
            } else {
                assert(dec_bytes(old_m) == seq![(48 + old_m) as u8]);
            }
        }
    }
    let mut out: Vec<u8> = Vec::new();
    let len = rev.len();
    let mut i: usize = 0;
    while i < len
        invariant
            i <= len,
            len == rev@.len(),
            out@.len() == i,
            forall|j: int| 0 <= j < i ==> out@[j] == rev@[len - 1 - j],
        decreases len - i,
    {
        out.push(rev[len - 1 - i]);
        i = i + 1;
    }
    proof {
        assert(out@ =~= rev@.reverse());
        assert(rev@.reverse() =~= dec_bytes(n as nat));
        lemma_dec_bytes_ascii(n as nat);
        assert forall|j: int| 0 <= j < out@.len() implies out@[j] < 128 by {
            assert(48 <= dec_bytes(n as nat)[j] <= 57);
        }
    }
    ascii_to_string(out)
}

/// A byte a percent-encoder copies through unchanged.  In the
/// form-urlencoded flavor `*` is kept and `~` escaped; outside forms it is
/// the other way round.
pub open spec fn enc_keeps(b: u8, form: bool) -> bool {
    ||| 48 <= b <= 57
    ||| 65 <= b <= 90
    ||| 97 <= b <= 122
    ||| b == 45
    ||| b == 46
    ||| b == 95
    ||| (if form {
        b == 42
    } else {
        b == 126
    })
}

/// The ASCII code of the hexadecimal digit for `n` (uppercase), for `n < 16`.
pub open spec fn hex_digit(n: u8) -> u8 {
    if n < 10 {
        (48 + n) as u8
    } else {
        (55 + n) as u8
    }
}

/// The percent-encoding of one byte: kept bytes stay, a space becomes `+`
/// in the form flavor, and everything else becomes `%` and two uppercase
/// hexadecimal digits.
pub open spec fn enc_byte(b: u8, form: bool) -> Seq<u8> {
    if form && b == 32 {
        seq![43u8]
    } else if enc_keeps(b, form) {
        seq![b]
    } else {
        seq![37u8, hex_digit(b / 16), hex_digit(b % 16)]
    }
}

/// The percent-encoding of a byte sequence.
pub open spec fn enc_bytes(bytes: Seq<u8>, form: bool) -> Seq<u8>
    decreases bytes.len(),
{
    if bytes.len() == 0 {
        seq![]
    } else {
        enc_byte(bytes[0], form) + enc_bytes(bytes.drop_first(), form)
    }
}

/// Percent-encoding distributes over concatenation.
pub proof fn lemma_enc_bytes_append(a: Seq<u8>, b: Seq<u8>, form: bool)
    ensures
        enc_bytes(a + b, form) == enc_bytes(a, form) + enc_bytes(b, form),
    decreases a.len(),
{
    if a.len() == 0 {
        assert(a + b =~= b);
        assert(enc_bytes(a, form) + enc_bytes(b, form) =~= enc_bytes(b, form));
    } else {
        assert((a + b).drop_first() =~= a.drop_first() + b);
        lemma_enc_bytes_append(a.drop_first(), b, form);
        assert(enc_bytes(a + b, form) =~= enc_bytes(a, form) + enc_bytes(b, form));
    }
}

/// A percent-encoded sequence is all ASCII.
pub proof fn lemma_enc_bytes_ascii(bytes: Seq<u8>, form: bool)
    ensures
        all_ascii(enc_bytes(bytes, form)),
    decreases bytes.len(),
{
    if bytes.len() > 0 {
        lemma_enc_bytes_ascii(bytes.drop_first(), form);
        assert forall|i: int| 0 <= i < enc_bytes(bytes, form).len() implies enc_bytes(bytes, form)[i]
            < 128 by {
            let head = enc_byte(bytes[0], form);
            if i < head.len() {
                assert(enc_bytes(bytes, form)[i] == head[i]);
            } else {
                assert(enc_bytes(bytes, form)[i] == enc_bytes(bytes.drop_first(), form)[i
                    - head.len()]);
            }
        }
    }
}

/// Percent-encodes a byte sequence; `form` selects the form-urlencoded
/// flavor (space as `+`, `*` kept) over the URL-component flavor (`~` kept).
pub fn encode_bytes(data: &Vec<u8>, form: bool) -> (r: Vec<u8>)
    ensures
        r@ == enc_bytes(data@, form),
        all_ascii(r@),
{
    let mut out: Vec<u8> = Vec::new();
    let n = data.len();
    let mut i: usize = 0;
    while i < n
        invariant
            i <= n,
            n == data@.len(),
            out@ == enc_bytes(data@.take(i as int), form),
        decreases n - i,
    {
        let b = data[i];
        let keeps = (48 <= b && b <= 57) || (65 <= b && b <= 90) || (97 <= b && b <= 122) || b
            == 45 || b == 46 || b == 95 || (if form {
            b == 42
        } else {
            b == 126
        });
        if form && b == 32 {
            out.push(43);
        } else if keeps {
            out.push(b);
        } else {
            out.push(37);
            let hi = b / 16;
            let lo = b % 16;
            out.push(if hi < 10 {
                48 + hi
            } else {
                55 + hi
            });
            out.push(if lo < 10 {
                48 + lo
            } else {
                55 + lo
            });
        }
        proof {
            assert(data@.take(i + 1) =~= data@.take(i as int) + seq![data@[i as int]]);
            lemma_enc_bytes_append(data@.take(i as int), seq![data@[i as int]], form);
            assert(seq![data@[i as int]].drop_first() =~= Seq::<u8>::empty());
            assert(enc_bytes(Seq::<u8>::empty(), form) =~= Seq::<u8>::empty());
            assert(enc_bytes(seq![data@[i as int]], form) =~= enc_byte(data@[i as int], form));
            assert(out@ =~= enc_bytes(data@.take(i + 1), form));
        }
        i = i + 1;
    }
    proof {
        assert(data@.take(n as int) =~= data@);
        lemma_enc_bytes_ascii(data@, form);
    }
    out
}

/// Relies on `String::from_utf8`: it succeeds exactly on valid UTF-8 input,
/// and the returned string's characters are the decoding of those bytes.
#[verifier::external_body]
pub(crate) fn utf8_to_string(v: Vec<u8>) -> (r: Option<String>)
    ensures
        r is Some <==> valid_utf8(v@),
        r is Some ==> r->0@ == decode_utf8(v@),
{
    String::from_utf8(v).ok()
}

/// Lowercasing an ASCII byte mirrors lowercasing the character it codes.
pub proof fn lemma_lower_byte_char(c: char)
    requires
        '\0' <= c <= '\u{7f}',
    ensures
        lower_byte(c as u8) as char == lower_char(c),
{
}

/// ASCII lowercase of an ASCII string.
pub fn ascii_lower(s: &str) -> (r: String)
    requires
        is_ascii_chars(s@),
    ensures
        r@ == lower_chars(s@),
{
    let bytes = s.as_bytes_vec();
    proof {
        vstd::string::is_ascii_spec_bytes(s);
        assert(bytes@ =~= Seq::new(s@.len(), |i: int| s@[i] as u8));
        assert forall|j: int| 0 <= j < bytes@.len() implies bytes@[j] < 128 by {
            assert('\0' <= s@[j] <= '\u{7f}');
        }
    }
    let mut out: Vec<u8> = Vec::new();
    let n = bytes.len();
    let mut i: usize = 0;
    while i < n
        invariant
            n == bytes@.len(),
            i <= n,
            out@.len() == i,
            forall|j: int| 0 <= j < i ==> out@[j] == lower_byte(bytes@[j]),
            all_ascii(bytes@),
            bytes@.len() == s@.len(),
            forall|j: int| 0 <= j < bytes@.len() ==> bytes@[j] == s@[j] as u8,
        decreases n - i,
    {
        let b = bytes[i];
        if 65 <= b && b <= 90 {
            out.push(b + 32);
        } else {
            out.push(b);
        }
        i = i + 1;
    }
    proof {
        assert forall|j: int| 0 <= j < out@.len() implies out@[j] < 128 by {
            assert(out@[j] == lower_byte(bytes@[j]));
        }
        assert forall|j: int| 0 <= j < out@.len() implies ascii_chars_of(out@)[j] == lower_chars(
            s@,
        )[j] by {
            assert(bytes@[j] == s@[j] as u8);
            lemma_lower_byte_char(s@[j]);
        }
        assert(ascii_chars_of(out@) =~= lower_chars(s@));
    }
    ascii_to_string(out)
}

/// Builds the string whose characters are the given ASCII bytes.
pub fn ascii_to_string(v: Vec<u8>) -> (r: String)
    requires
        all_ascii(v@),
    ensures
        r@ == ascii_chars_of(v@),
{
    let ghost bs = v@;
    proof {
        lemma_ascii_decode(bs);
    }
    match utf8_to_string(v) {
        Some(s) => s,
        None => {
            proof {
                assert(false);
            }
            String::new()
        },
    }
}

} // verus!
