//! Percent-encoding of path segments and query values.

use vstd::prelude::*;
use vstd::utf8::*;
use crate::text::{hex_upper, hex_upper_digit};

verus! {

/// The characters that RFC 3986 calls unreserved, as octets: letters, digits,
/// `-`, `.`, `_` and `~`.
pub open spec fn is_unreserved(b: u8) -> bool {
    ||| 0x30 <= b <= 0x39
    ||| 0x41 <= b <= 0x5a
    ||| 0x61 <= b <= 0x7a
    ||| b == 0x2d
    ||| b == 0x2e
    ||| b == 0x5f
    ||| b == 0x7e
}

/// One octet, written: itself if it is unreserved, else `%` and two upper case
/// hexadecimal digits.
pub open spec fn encoded_octet(b: u8) -> Seq<char> {
    if is_unreserved(b) {
        seq![b as char]
    } else {
        seq!['%', hex_upper(b as nat / 16), hex_upper(b as nat % 16)]
    }
}

/// The octets of `bytes`, written one after the other.
pub open spec fn encoded_octets(bytes: Seq<u8>) -> Seq<char>
    decreases bytes.len(),
{
    if bytes.len() == 0 {
        Seq::empty()
    } else {
        encoded_octets(bytes.drop_last()) + encoded_octet(bytes.last())
    }
}

/// The percent-encoding of a text: that of its UTF-8 octets.
pub open spec fn percent_encoded(s: Seq<char>) -> Seq<char> {
    encoded_octets(encode_utf8(s))
}

fn unreserved(b: u8) -> (r: bool)
    ensures
        r == is_unreserved(b),
{
    (0x30 <= b && b <= 0x39) || (0x41 <= b && b <= 0x5a) || (0x61 <= b && b <= 0x7a) || b == 0x2d
        || b == 0x2e || b == 0x5f || b == 0x7e
}

/// RFC 3986 percent-encoding for a single path segment or query value. Everything
/// outside the unreserved set is escaped, `&`, `=`, `?`, `#` and `/` among it, so
/// that no input can add path segments or query parameters.
pub fn urlencode(s: &str) -> (out: String)
    ensures
        out@ == percent_encoded(s@),
{
    let bytes = s.as_bytes();
    let n: usize = bytes.len();
    let mut out = String::new();
    for i in 0..n
        invariant
            n == bytes@.len(),
            out@ == encoded_octets(bytes@.take(i as int)),
    {
        let b: u8 = bytes[i];
        proof {
            let upto = bytes@.take(i + 1);
            assert(upto.drop_last() =~= bytes@.take(i as int));
            assert(upto.last() == b);
        }
        if unreserved(b) {
            out.push(b as char);
        } else {
            out.push('%');
            out.push(hex_upper_digit(b / 16));
            out.push(hex_upper_digit(b % 16));
        }
        assert(out@ =~= encoded_octets(bytes@.take(i as int)) + encoded_octet(b));
    }
    assert(bytes@.take(n as int) =~= bytes@);
    out
}

// ── Laws ────────────────────────────────────────────────────────────────────
/// The value of a hexadecimal digit in upper case.
pub open spec fn hex_value(c: char) -> int {
    if c <= '9' {
        c as int - '0' as int
    } else {
        c as int - 'A' as int + 10
    }
}

/// The octets that a percent-encoded text stands for.
pub open spec fn percent_decoded(t: Seq<char>) -> Seq<u8>
    decreases t.len(),
{
    if t.len() == 0 {
        Seq::empty()
    } else if t[0] == '%' && t.len() >= 3 {
        seq![(16 * hex_value(t[1]) + hex_value(t[2])) as u8] + percent_decoded(t.skip(3))
    } else {
        seq![t[0] as u8] + percent_decoded(t.skip(1))
    }
}

proof fn lemma_decode_octet(b: u8, rest: Seq<char>)
    ensures
        percent_decoded(encoded_octet(b) + rest) == seq![b] + percent_decoded(rest),
{
    let t = encoded_octet(b) + rest;
    if is_unreserved(b) {
        assert(t.skip(1) =~= rest);
        assert(t[0] as u8 == b);
    } else {
        assert(t.skip(3) =~= rest);
        assert(hex_value(hex_upper(b as nat / 16)) == b as nat / 16);
        assert(hex_value(hex_upper(b as nat % 16)) == b as nat % 16);
    }
}

proof fn lemma_decode_octets(bytes: Seq<u8>, rest: Seq<char>)
    ensures
        percent_decoded(encoded_octets(bytes) + rest) == bytes + percent_decoded(rest),
    decreases bytes.len(),
{
    if bytes.len() == 0 {
        assert(encoded_octets(bytes) + rest =~= rest);
        assert(bytes + percent_decoded(rest) =~= percent_decoded(rest));
    } else {
        let last = encoded_octet(bytes.last());
        assert(encoded_octets(bytes) + rest =~= encoded_octets(bytes.drop_last()) + (last + rest));
        lemma_decode_octets(bytes.drop_last(), last + rest);
        lemma_decode_octet(bytes.last(), rest);
        assert(bytes + percent_decoded(rest) =~= bytes.drop_last() + (seq![bytes.last()]
            + percent_decoded(rest)));
    }
}

/// Decoding gives back the octets of the text that was encoded.
pub proof fn law_decode_encode(s: Seq<char>)
    ensures
        percent_decoded(percent_encoded(s)) == encode_utf8(s),
{
    lemma_decode_octets(encode_utf8(s), Seq::empty());
    assert(percent_encoded(s) + Seq::<char>::empty() =~= percent_encoded(s));
    assert(encode_utf8(s) + Seq::<u8>::empty() =~= encode_utf8(s));
}

/// Two texts with the same encoding are the same text.
pub proof fn law_injective(a: Seq<char>, b: Seq<char>)
    requires
        percent_encoded(a) == percent_encoded(b),
    ensures
        a == b,
{
    law_decode_encode(a);
    law_decode_encode(b);
    encode_utf8_decode_utf8(a);
    encode_utf8_decode_utf8(b);
}

/// The characters that an encoded text is made of: the unreserved ones and `%`.
pub open spec fn in_alphabet(c: char) -> bool {
    c == '%' || (c as u32 <= 0x7f && is_unreserved(c as u8))
}

proof fn lemma_alphabet(bytes: Seq<u8>)
    ensures
        forall|i: int|
            0 <= i < encoded_octets(bytes).len() ==> in_alphabet(
                #[trigger] encoded_octets(bytes)[i],
            ),
    decreases bytes.len(),
{
    if bytes.len() > 0 {
        let before = encoded_octets(bytes.drop_last());
        let last = encoded_octet(bytes.last());
        lemma_alphabet(bytes.drop_last());
        assert forall|i: int| 0 <= i < last.len() implies in_alphabet(#[trigger] last[i]) by {
            let b = bytes.last();
            if is_unreserved(b) {
                assert(last[i] as u8 == b);
            } else {
                assert(hex_upper(b as nat / 16) as u32 <= 0x46);
                assert(hex_upper(b as nat % 16) as u32 <= 0x46);
            }
        }
        assert forall|i: int| 0 <= i < encoded_octets(bytes).len() implies in_alphabet(
            #[trigger] encoded_octets(bytes)[i],
        ) by {
            if i < before.len() {
                assert(encoded_octets(bytes)[i] == before[i]);
            } else {
                assert(encoded_octets(bytes)[i] == last[i - before.len()]);
            }
        }
    }
}

/// An encoded text holds nothing but unreserved characters and `%`. So none of
/// the characters that part a URL, such as `/`, `?`, `&`, `=` and `#`, is in it.
pub proof fn law_alphabet(s: Seq<char>)
    ensures
        forall|i: int|
            0 <= i < percent_encoded(s).len() ==> in_alphabet(#[trigger] percent_encoded(s)[i]),
        !percent_encoded(s).contains('/'),
        !percent_encoded(s).contains('?'),
        !percent_encoded(s).contains('&'),
        !percent_encoded(s).contains('='),
        !percent_encoded(s).contains('#'),
{
    lemma_alphabet(encode_utf8(s));
}

/// A path that is put together of a segment and a query value, both encoded, can be
/// taken apart in one way only: no input adds segments or parameters.
pub proof fn law_path_is_unambiguous(
    prefix: Seq<char>,
    middle: Seq<char>,
    a: Seq<char>,
    x: Seq<char>,
    b: Seq<char>,
    y: Seq<char>,
)
    requires
        middle.len() > 0,
        middle[0] == '/',
        prefix + percent_encoded(a) + middle + percent_encoded(x) == prefix + percent_encoded(b)
            + middle + percent_encoded(y),
    ensures
        a == b,
        x == y,
{
    let ea = percent_encoded(a);
    let eb = percent_encoded(b);
    let ex = percent_encoded(x);
    let ey = percent_encoded(y);
    let left = prefix + ea + middle + ex;
    let right = prefix + eb + middle + ey;
    let p = prefix.len() as int;
    law_alphabet(a);
    law_alphabet(b);
    if ea.len() < eb.len() {
        assert(left[p + ea.len()] == '/');
        assert(right[p + ea.len()] == eb[ea.len() as int]);
        assert(eb.contains(eb[ea.len() as int]));
    }
    if eb.len() < ea.len() {
        assert(right[p + eb.len()] == '/');
        assert(left[p + eb.len()] == ea[eb.len() as int]);
        assert(ea.contains(ea[eb.len() as int]));
    }
    assert(ea.len() == eb.len());
    let q = p + ea.len() + middle.len();
    assert(left.subrange(p, p + ea.len()) =~= ea);
    assert(right.subrange(p, p + ea.len()) =~= eb);
    assert(left.skip(q) =~= ex);
    assert(right.skip(q) =~= ey);
    law_injective(a, b);
    law_injective(x, y);
}

/// An octet that stands for a letter, a digit or one of `-._~` is written as that character,
/// and any other as a percent sign and two upper case hexadecimal digits that write it.
pub proof fn law_encoded_octet(b: u8)
    ensures
        ({
            let out = encoded_octet(b);
            let c = b as char;
            let kept = '0' <= c <= '9' || 'A' <= c <= 'Z' || 'a' <= c <= 'z' || c == '-' || c == '.'
                || c == '_' || c == '~';
            &&& kept ==> out == seq![c]
            &&& !kept ==> {
                &&& out.len() == 3
                &&& out[0] == '%'
                &&& '0' <= out[1] <= '9' || 'A' <= out[1] <= 'F'
                &&& '0' <= out[2] <= '9' || 'A' <= out[2] <= 'F'
                &&& b == 16 * (out[1] as int - if out[1] <= '9' {
                    48int
                } else {
                    55
                }) + (out[2] as int - if out[2] <= '9' {
                    48int
                } else {
                    55
                })
            }
        }),
{
}

/// A text is encoded octet by octet of its UTF-8, in order.
pub proof fn law_encoded_in_order(s: Seq<char>, a: Seq<u8>, b: Seq<u8>, o: u8)
    requires
        encode_utf8(s) == a.push(o) + b,
    ensures
        percent_encoded(s) == encoded_octets(a) + encoded_octet(o) + encoded_octets(b),
        encoded_octets(Seq::empty()) == Seq::<char>::empty(),
{
    lemma_encoded_concat(a.push(o), b);
    assert(a.push(o).drop_last() =~= a);
}

proof fn lemma_encoded_concat(a: Seq<u8>, b: Seq<u8>)
    ensures
        encoded_octets(a + b) == encoded_octets(a) + encoded_octets(b),
    decreases b.len(),
{
    if b.len() == 0 {
        assert(a + b =~= a);
        assert(encoded_octets(a) + encoded_octets(b) =~= encoded_octets(a));
    } else {
        lemma_encoded_concat(a, b.drop_last());
        assert((a + b).drop_last() =~= a + b.drop_last());
        assert(encoded_octets(a + b) =~= encoded_octets(a) + encoded_octets(b));
    }
}

/// A text of letters, digits and `-._~` is its own encoding.
pub proof fn law_plain_text_is_kept(s: Seq<char>)
    requires
        forall|i: int|
            0 <= i < s.len() ==> {
                ||| '0' <= #[trigger] s[i] <= '9' || 'A' <= s[i] <= 'Z' || 'a' <= s[i] <= 'z'
                ||| s[i] == '-' || s[i] == '.' || s[i] == '_' || s[i] == '~'
            },
    ensures
        percent_encoded(s) == s,
{
    assert forall|i: int| 0 <= i < s.len() implies s[i] <= '\u{7f}' by {}
    is_ascii_chars_encode_utf8(s);
    let bytes = encode_utf8(s);
    assert forall|n: int| 0 <= n <= s.len() implies #[trigger] encoded_octets(bytes.take(n))
        == s.take(n) by {
        lemma_plain_prefix(s, bytes, n);
    }
    assert(bytes.take(s.len() as int) =~= bytes);
    assert(s.take(s.len() as int) =~= s);
    assert(encoded_octets(bytes.take(s.len() as int)) == s.take(s.len() as int));
}

proof fn lemma_plain_prefix(s: Seq<char>, bytes: Seq<u8>, n: int)
    requires
        0 <= n <= s.len(),
        bytes.len() == s.len(),
        forall|i: int| 0 <= i < s.len() ==> #[trigger] s[i] as u8 == bytes[i],
        forall|i: int|
            0 <= i < s.len() ==> {
                ||| '0' <= #[trigger] s[i] <= '9' || 'A' <= s[i] <= 'Z' || 'a' <= s[i] <= 'z'
                ||| s[i] == '-' || s[i] == '.' || s[i] == '_' || s[i] == '~'
            },
    ensures
        encoded_octets(bytes.take(n)) == s.take(n),
    decreases n,
{
    if n == 0 {
        assert(encoded_octets(bytes.take(n)) =~= s.take(n));
    } else {
        lemma_plain_prefix(s, bytes, n - 1);
        assert(bytes.take(n).drop_last() =~= bytes.take(n - 1));
        assert(bytes.take(n).last() == s[n - 1] as u8);
        assert(encoded_octet(bytes[n - 1]) =~= seq![s[n - 1]]);
        assert(s.take(n) =~= s.take(n - 1) + seq![s[n - 1]]);
    }
}

} // verus!
