//! The `Authorization` header value of HTTP Basic authentication.

use vstd::prelude::*;
use vstd::string::{StringExecFns, StringSliceAdditionalSpecFns};
use vstd::utf8::{encode_scalar, encode_utf8};

verus! {

/// The digit that stands for the six-bit value `v` in the standard base64
/// alphabet: `A`-`Z`, `a`-`z`, `0`-`9`, `+`, `/`.
pub open spec fn b64_digit(v: int) -> char {
    if v < 26 {
        (v + 65) as char
    } else if v < 52 {
        (v - 26 + 97) as char
    } else if v < 62 {
        (v - 52 + 48) as char
    } else if v == 62 {
        '+'
    } else {
        '/'
    }
}

/// The base64 encoding of `b` with the standard alphabet and `=` padding:
/// each group of three bytes becomes four digits, and a last group of one or
/// two bytes becomes two or three digits followed by `=` up to four.
pub open spec fn b64_encode(b: Seq<u8>) -> Seq<char>
    decreases b.len(),
{
    if b.len() == 0 {
        seq![]
    } else {
        let b0 = b[0] as int;
        let b1 = if b.len() > 1 { b[1] as int } else { 0 };
        let b2 = if b.len() > 2 { b[2] as int } else { 0 };
        let d0 = b64_digit(b0 / 4);
        let d1 = b64_digit((b0 % 4) * 16 + b1 / 16);
        let d2 = b64_digit((b1 % 16) * 4 + b2 / 64);
        let d3 = b64_digit(b2 % 64);
        if b.len() == 1 {
            seq![d0, d1, '=', '=']
        } else if b.len() == 2 {
            seq![d0, d1, d2, '=']
        } else {
            seq![d0, d1, d2, d3] + b64_encode(b.skip(3))
        }
    }
}

/// The six-bit value of a digit of the standard base64 alphabet, and `-1`
/// for any other character.
pub open spec fn b64_value(c: char) -> int {
    let n = c as int;
    if 65 <= n <= 90 {
        n - 65
    } else if 97 <= n <= 122 {
        n - 71
    } else if 48 <= n <= 57 {
        n + 4
    } else if c == '+' {
        62
    } else if c == '/' {
        63
    } else {
        -1
    }
}

/// The bytes whose padded standard base64 encoding is `s`, if there are any.
/// Bits that the last digit carries beyond the encoded bytes must be zero.
pub open spec fn b64_decode(s: Seq<char>) -> Option<Seq<u8>>
    decreases s.len(),
{
    if s.len() == 0 {
        Some(seq![])
    } else if s.len() < 4 {
        None
    } else {
        let v0 = b64_value(s[0]);
        let v1 = b64_value(s[1]);
        let v2 = b64_value(s[2]);
        let v3 = b64_value(s[3]);
        let x0 = (v0 * 4 + v1 / 16) as u8;
        let x1 = ((v1 % 16) * 16 + v2 / 4) as u8;
        let x2 = ((v2 % 4) * 64 + v3) as u8;
        if v0 < 0 || v1 < 0 {
            None
        } else if s.len() == 4 && s[2] == '=' && s[3] == '=' {
            if v1 % 16 == 0 {
                Some(seq![x0])
            } else {
                None
            }
        } else if v2 < 0 {
            None
        } else if s.len() == 4 && s[3] == '=' {
            if v2 % 4 == 0 {
                Some(seq![x0, x1])
            } else {
                None
            }
        } else if v3 < 0 {
            None
        } else {
            match b64_decode(s.skip(4)) {
                Some(rest) => Some(seq![x0, x1, x2] + rest),
                None => None,
            }
        }
    }
}

proof fn lemma_digit_value(v: int)
    requires
        0 <= v < 64,
    ensures
        b64_value(b64_digit(v)) == v,
        b64_digit(v) != '=',
{
}

/// Decoding undoes base64 encoding: `b64_decode(b64_encode(b)) == Some(b)`.
pub proof fn lemma_b64_round_trip(b: Seq<u8>)
    ensures
        b64_decode(b64_encode(b)) == Some(b),
    decreases b.len(),
{
    if b.len() > 0 {
        let b0 = b[0] as int;
        let b1 = if b.len() > 1 { b[1] as int } else { 0 };
        let b2 = if b.len() > 2 { b[2] as int } else { 0 };
        let v0 = b0 / 4;
        let v1 = (b0 % 4) * 16 + b1 / 16;
        let v2 = (b1 % 16) * 4 + b2 / 64;
        let v3 = b2 % 64;
        lemma_digit_value(v0);
        lemma_digit_value(v1);
        lemma_digit_value(v2);
        lemma_digit_value(v3);
        assert(v0 * 4 + v1 / 16 == b0);
        assert((v1 % 16) * 16 + v2 / 4 == b1);
        assert((v2 % 4) * 64 + v3 == b2);
        let e = b64_encode(b);
        if b.len() == 1 {
            assert(b =~= seq![b[0]]);
        } else if b.len() == 2 {
            assert(b =~= seq![b[0], b[1]]);
        } else {
            lemma_b64_round_trip(b.skip(3));
            assert(e.skip(4) =~= b64_encode(b.skip(3)));
            assert(b =~= seq![b[0], b[1], b[2]] + b.skip(3));
        }
    }
}

/// The bytes that Basic authentication encodes: the UTF-8 of `user`, a colon,
/// and the UTF-8 of `pass`.
pub open spec fn credential_bytes(user: Seq<char>, pass: Seq<char>) -> Seq<u8> {
    encode_utf8(user) + seq![58u8] + encode_utf8(pass)
}

/// `Basic ` followed by the base64 of the credential bytes.
pub open spec fn basic_value(user: Seq<char>, pass: Seq<char>) -> Seq<char> {
    "Basic "@ + b64_encode(credential_bytes(user, pass))
}

proof fn lemma_utf8_concat(a: Seq<char>, b: Seq<char>)
    ensures
        encode_utf8(a + b) == encode_utf8(a) + encode_utf8(b),
    decreases a.len(),
{
    if a.len() > 0 {
        lemma_utf8_concat(a.drop_first(), b);
        assert((a + b).drop_first() =~= a.drop_first() + b);
        assert(encode_utf8(a + b) =~= encode_utf8(a) + encode_utf8(b));
    } else {
        assert(a + b =~= b);
    }
}

/// Every Basic value starts with `Basic `, and the rest is the base64 of
/// exactly the UTF-8 of `user`, a colon and `pass`, for all strings,
/// including empty ones and ones that hold colons.
pub proof fn lemma_basic_value_round_trip(user: Seq<char>, pass: Seq<char>)
    ensures
        basic_value(user, pass).take(6) == "Basic "@,
        b64_decode(basic_value(user, pass).skip(6)) == Some(
            encode_utf8(user + seq![':'] + pass),
        ),
{
    reveal_strlit("Basic ");
    let v = basic_value(user, pass);
    assert(v.take(6) =~= "Basic "@);
    assert(v.skip(6) =~= b64_encode(credential_bytes(user, pass)));
    lemma_b64_round_trip(credential_bytes(user, pass));
    lemma_utf8_concat(user + seq![':'], pass);
    lemma_utf8_concat(user, seq![':']);
    let colon: Seq<char> = seq![':'];
    assert(colon.drop_first() =~= Seq::<char>::empty());
    assert(((58u32 & 0x7Fu32) as u8) == 58u8) by (bit_vector);
    assert(encode_scalar(':' as u32) =~= seq![58u8]);
    assert(encode_utf8(colon.drop_first()) =~= Seq::<u8>::empty());
    assert(encode_utf8(colon) =~= encode_scalar(colon[0] as u32) + encode_utf8(colon.drop_first()));
    assert(encode_utf8(colon) =~= seq![58u8]);
}

/// The Basic value is a function of the two strings alone: two encodings of
/// the same credentials are the same string.
pub proof fn lemma_basic_value_deterministic(
    user: Seq<char>,
    pass: Seq<char>,
    first: Seq<char>,
    second: Seq<char>,
)
    requires
        first == basic_value(user, pass),
        second == basic_value(user, pass),
    ensures
        first == second,
{
}

/// Relies on base64::encode (standard alphabet, with padding). It panics only
/// where the output would not fit in one allocation (over `isize::MAX`
/// bytes): a quarter of `usize::MAX` input bytes stays well below that.
#[verifier::external_body]
fn base64_standard(b: &Vec<u8>) -> (r: String)
    requires
        b@.len() <= usize::MAX / 4,
    ensures
        r@ == b64_encode(b@),
{
    base64::encode(b)
}

/// Appends the bytes of `s` to `out`.
fn push_bytes(out: &mut Vec<u8>, s: &str)
    requires
        old(out)@.len() + s.spec_bytes().len() <= usize::MAX,
    ensures
        final(out)@ == old(out)@ + s.spec_bytes(),
{
    let b = s.as_bytes();
    let ghost start = out@;
    let mut i: usize = 0;
    while i < b.len()
        invariant
            b@ == s.spec_bytes(),
            i <= b@.len(),
            out@ == start + b@.take(i as int),
        decreases b@.len() - i,
    {
        out.push(b[i]);
        i = i + 1;
        assert(out@ =~= start + b@.take(i as int));
    }
    assert(b@.take(b@.len() as int) =~= b@);
}

/// The value of an `Authorization` header that authenticates `user` with
/// `pass` by HTTP Basic authentication.
pub fn http_basic(user: &str, pass: &str) -> (r: String)
    requires
        user.spec_bytes().len() + pass.spec_bytes().len() < usize::MAX / 4,
    ensures
        r@ == basic_value(user@, pass@),
{
    let mut bytes: Vec<u8> = Vec::new();
    push_bytes(&mut bytes, user);
    bytes.push(58u8);
    push_bytes(&mut bytes, pass);
    assert(bytes@ =~= credential_bytes(user@, pass@));
    let digits = base64_standard(&bytes);
    let mut r = String::from_str("Basic ");
    r.append(digits.as_str());
    r
}

} // verus!
