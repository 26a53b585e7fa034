//! The access token: sixteen random bytes written in base64url without
//! padding.
use vstd::prelude::*;
use crate::text::push_char;

verus! {

/// The base64url digit for the six-bit value `v`: `A`-`Z`, `a`-`z`, `0`-`9`,
/// then `-` and `_`.
pub open spec fn b64_char(v: int) -> char {
    if v < 26 {
        ('A' as int + v) as char
    } else if v < 52 {
        ('a' as int + (v - 26)) as char
    } else if v < 62 {
        ('0' as int + (v - 52)) as char
    } else if v == 62 {
        '-'
    } else {
        '_'
    }
}

/// Whether `c` is one of the 64 base64url digits.
pub open spec fn is_b64_char(c: char) -> bool {
    let n = c as u32;
    ||| 65 <= n <= 90
    ||| 97 <= n <= 122
    ||| 48 <= n <= 57
    ||| c == '-'
    ||| c == '_'
}

/// The digits for one group of one to three bytes: three bytes give four
/// digits, two give three, one gives two (the missing bits are zeros).
pub open spec fn b64_group(b: Seq<u8>) -> Seq<char> {
    let b0 = b[0] as int;
    let b1 = if b.len() > 1 { b[1] as int } else { 0 };
    let b2 = if b.len() > 2 { b[2] as int } else { 0 };
    let c0 = b64_char(b0 / 4);
    let c1 = b64_char((b0 % 4) * 16 + b1 / 16);
    let c2 = b64_char((b1 % 16) * 4 + b2 / 64);
    let c3 = b64_char(b2 % 64);
    if b.len() == 1 {
        seq![c0, c1]
    } else if b.len() == 2 {
        seq![c0, c1, c2]
    } else {
        seq![c0, c1, c2, c3]
    }
}

/// `b` in base64url, without padding.
pub open spec fn base64url(b: Seq<u8>) -> Seq<char>
    decreases b.len(),
{
    if b.len() == 0 {
        seq![]
    } else if b.len() <= 3 {
        b64_group(b)
    } else {
        b64_group(b.take(3)) + base64url(b.skip(3))
    }
}

fn digit_for(v: u8) -> (c: char)
    requires
        v < 64,
    ensures
        c == b64_char(v as int),
{
    if v < 26 {
        (65u8 + v) as char
    } else if v < 52 {
        (97u8 + (v - 26)) as char
    } else if v < 62 {
        (48u8 + (v - 52)) as char
    } else if v == 62 {
        '-'
    } else {
        '_'
    }
}

proof fn lemma_base64url_split(b: Seq<u8>, i: int)
    requires
        0 <= i <= b.len(),
        i % 3 == 0,
    ensures
        base64url(b) == base64url(b.take(i)) + base64url(b.skip(i)),
    decreases i,
{
    if i == 0 {
        assert(b.take(0) =~= seq![]);
        assert(b.skip(0) =~= b);
        assert(base64url(b) =~= base64url(b.take(i)) + base64url(b.skip(i)));
    } else {
        lemma_base64url_split(b, i - 3);
        let rest = b.skip(i - 3);
        assert(rest.take(3) =~= b.subrange(i - 3, i));
        assert(rest.skip(3) =~= b.skip(i));
        let front = b.take(i);
        lemma_base64url_split(front, i - 3);
        assert(front.take(i - 3) =~= b.take(i - 3));
        assert(front.skip(i - 3) =~= b.subrange(i - 3, i));
        assert(b.subrange(i - 3, i).len() == 3);
        if rest.len() > 3 {
            assert(base64url(rest) == b64_group(rest.take(3)) + base64url(rest.skip(3)));
        } else {
            assert(rest =~= b.subrange(i - 3, i));
            assert(b.skip(i).len() == 0);
            assert(base64url(b.skip(i)) =~= seq![]);
        }
        assert(base64url(b) =~= base64url(b.take(i)) + base64url(b.skip(i)));
    }
}

/// Writes `bytes` in base64url without padding.
pub fn encode_base64url(bytes: &[u8]) -> (out: String)
    ensures
        out@ == base64url(bytes@),
{
    let n = bytes.len();
    let mut out = String::new();
    let mut i: usize = 0;
    while i < n
        invariant
            n == bytes@.len(),
            i <= n,
            i < n ==> i % 3 == 0,
            out@ == base64url(bytes@.take(i as int)),
        decreases n - i,
    {
        let b0 = bytes[i];
        let b1: u8 = if n - i > 1 { bytes[i + 1] } else { 0 };
        let b2: u8 = if n - i > 2 { bytes[i + 2] } else { 0 };
        let ghost before = out@;
        push_char(&mut out, digit_for(b0 / 4));
        push_char(&mut out, digit_for((b0 % 4) * 16 + b1 / 16));
        if n - i > 1 {
            push_char(&mut out, digit_for((b1 % 16) * 4 + b2 / 64));
        }
        if n - i > 2 {
            push_char(&mut out, digit_for(b2 % 64));
        }
        let next: usize = if n - i > 3 { i + 3 } else { n };
        proof {
            let g = bytes@.subrange(i as int, next as int);
            assert(out@ =~= before + b64_group(g));
            let t = bytes@.take(next as int);
            lemma_base64url_split(t, i as int);
            assert(t.take(i as int) =~= bytes@.take(i as int));
            assert(t.skip(i as int) =~= g);
            assert(base64url(g) == b64_group(g));
        }
        i = next;
    }
    assert(bytes@.take(n as int) =~= bytes@);
    out
}

proof fn lemma_b64_char_is_digit(v: int)
    requires
        0 <= v < 64,
    ensures
        is_b64_char(b64_char(v)),
{
}

/// base64url without padding turns `n` bytes into `(4n + 2) / 3` digits, each
/// one of the 64 URL-safe digits (never `=`).
pub proof fn base64url_shape(b: Seq<u8>)
    ensures
        base64url(b).len() == (4 * b.len() + 2) / 3,
        forall|i: int| 0 <= i < base64url(b).len() ==> is_b64_char(#[trigger] base64url(b)[i]),
    decreases b.len(),
{
    if b.len() > 0 {
        let g = if b.len() <= 3 { b } else { b.take(3) };
        let b0 = g[0] as int;
        let b1 = if g.len() > 1 { g[1] as int } else { 0 };
        let b2 = if g.len() > 2 { g[2] as int } else { 0 };
        lemma_b64_char_is_digit(b0 / 4);
        lemma_b64_char_is_digit((b0 % 4) * 16 + b1 / 16);
        lemma_b64_char_is_digit((b1 % 16) * 4 + b2 / 64);
        lemma_b64_char_is_digit(b2 % 64);
        if b.len() > 3 {
            base64url_shape(b.skip(3));
            let r = base64url(b);
            assert forall|i: int| 0 <= i < r.len() implies is_b64_char(#[trigger] r[i]) by {
                if i >= 4 {
                    assert(r[i] == base64url(b.skip(3))[i - 4]);
                }
            }
        }
    }
}

/// Fills `buf` with random bytes from the operating system; calls
/// `getrandom::getrandom`. Returns whether it succeeded; nothing is known of
/// the bytes.
#[verifier::external_body]
fn fill_random(buf: &mut [u8; 16]) -> (ok: bool) {
    getrandom::getrandom(buf).is_ok()
}

/// How many bytes of randomness a token carries.
pub const TOKEN_BYTES: usize = 16;

/// A fresh access token: 16 random bytes (128 bits) in base64url without
/// padding, 22 URL-safe characters. `None` where the operating system gives
/// no randomness.
pub fn generate_token() -> (t: Option<String>)
    ensures
        t matches Some(s) ==> exists|b: Seq<u8>| b.len() == 16 && s@ == #[trigger] base64url(b),
        t matches Some(s) ==> s@.len() == 22 && forall|i: int|
            0 <= i < s@.len() ==> is_b64_char(#[trigger] s@[i]),
{
    let mut buf = [0u8; 16];
    if !fill_random(&mut buf) {
        return None;
    }
    let s = encode_base64url(buf.as_slice());
    proof {
        base64url_shape(buf@);
    }
    Some(s)
}

} // verus!
