//! Bytes as text and text as bytes: base64 in the standard alphabet with padding,
//! and UTF-8.

use base64::engine::general_purpose::STANDARD;
use base64::Engine;
use vstd::prelude::*;
use vstd::utf8::*;

verus! {

// ── Base64 ──────────────────────────────────────────────────────────────────
/// The character that writes the 6-bit value `v`.
pub open spec fn base64_char(v: int) -> char {
    if v < 26 {
        ('A' as int + v) as char
    } else if v < 52 {
        ('a' as int + (v - 26)) as char
    } else if v < 62 {
        ('0' as int + (v - 52)) as char
    } else if v == 62 {
        '+'
    } else {
        '/'
    }
}

/// The first four characters of the encoding of `b`: three bytes in four 6-bit
/// values, where `=` stands for the values that hold no byte.
pub open spec fn base64_group(b: Seq<u8>) -> Seq<char> {
    let b0 = b[0] as int;
    if b.len() == 1 {
        seq![base64_char(b0 / 4), base64_char((b0 % 4) * 16), '=', '=']
    } else {
        let b1 = b[1] as int;
        let second = base64_char((b0 % 4) * 16 + b1 / 16);
        if b.len() == 2 {
            seq![base64_char(b0 / 4), second, base64_char((b1 % 16) * 4), '=']
        } else {
            let b2 = b[2] as int;
            seq![
                base64_char(b0 / 4),
                second,
                base64_char((b1 % 16) * 4 + b2 / 64),
                base64_char(b2 % 64),
            ]
        }
    }
}

/// The base64 text of `b`, group by group.
pub open spec fn base64_text(b: Seq<u8>) -> Seq<char>
    decreases b.len(),
{
    if b.len() == 0 {
        Seq::empty()
    } else if b.len() <= 3 {
        base64_group(b)
    } else {
        base64_group(b.take(3)) + base64_text(b.skip(3))
    }
}

/// The bytes that `text` is the base64 of, if there are any.
#[verifier::opaque]
pub open spec fn base64_bytes(text: Seq<char>) -> Option<Seq<u8>> {
    if exists|b: Seq<u8>| #[trigger] base64_text(b) == text {
        Some(choose|b: Seq<u8>| #[trigger] base64_text(b) == text)
    } else {
        None
    }
}

/// The value of a base64 character; 64 for the padding.
spec fn base64_value(c: char) -> int {
    if c == '=' {
        64
    } else if c == '+' {
        62
    } else if c == '/' {
        63
    } else if c <= '9' {
        c as int - '0' as int + 52
    } else if c <= 'Z' {
        c as int - 'A' as int
    } else {
        c as int - 'a' as int + 26
    }
}

proof fn lemma_char_value(v: int)
    requires
        0 <= v < 64,
    ensures
        base64_value(base64_char(v)) == v,
{
}

proof fn lemma_group_injective(a: Seq<u8>, b: Seq<u8>)
    requires
        1 <= a.len() <= 3,
        1 <= b.len() <= 3,
        base64_group(a) == base64_group(b),
    ensures
        a == b,
{
    let g = base64_group(a);
    let h = base64_group(b);
    let a0 = a[0] as int;
    let b0 = b[0] as int;
    lemma_char_value(a0 / 4);
    lemma_char_value(b0 / 4);
    assert(g[0] == h[0] && g[1] == h[1] && g[2] == h[2] && g[3] == h[3]);
    assert(a0 / 4 == b0 / 4);
    let a1 = if a.len() > 1 { a[1] as int } else { 0 };
    let b1 = if b.len() > 1 { b[1] as int } else { 0 };
    let a2 = if a.len() > 2 { a[2] as int } else { 0 };
    let b2 = if b.len() > 2 { b[2] as int } else { 0 };
    lemma_char_value((a0 % 4) * 16 + a1 / 16);
    lemma_char_value((b0 % 4) * 16 + b1 / 16);
    assert((a0 % 4) * 16 + a1 / 16 == (b0 % 4) * 16 + b1 / 16);
    lemma_char_value((a1 % 16) * 4 + a2 / 64);
    lemma_char_value((b1 % 16) * 4 + b2 / 64);
    lemma_char_value(a2 % 64);
    lemma_char_value(b2 % 64);
    assert(base64_value('=') == 64);
    assert(a.len() == b.len());
    assert(a0 == b0);
    if a.len() > 1 {
        assert((a1 % 16) * 4 + a2 / 64 == (b1 % 16) * 4 + b2 / 64);
        assert(a1 == b1);
    }
    if a.len() > 2 {
        assert(a2 == b2);
    }
    assert(a =~= b);
}

/// The bytes of the first group.
spec fn first_group(b: Seq<u8>) -> Seq<u8> {
    if b.len() <= 3 {
        b
    } else {
        b.take(3)
    }
}

/// The bytes behind the first group.
spec fn other_groups(b: Seq<u8>) -> Seq<u8> {
    if b.len() <= 3 {
        Seq::empty()
    } else {
        b.skip(3)
    }
}

proof fn lemma_groups(b: Seq<u8>)
    requires
        b.len() > 0,
    ensures
        b == first_group(b) + other_groups(b),
        base64_text(b).take(4) == base64_group(first_group(b)),
        base64_text(b).skip(4) == base64_text(other_groups(b)),
        base64_text(b).len() >= 4,
{
    assert(b =~= first_group(b) + other_groups(b));
    let group = base64_group(first_group(b));
    let rest = base64_text(other_groups(b));
    assert(group.len() == 4);
    assert(base64_text(b) =~= group + rest);
    assert((group + rest).take(4) =~= group);
    assert((group + rest).skip(4) =~= rest);
}

/// Different bytes have different base64 texts.
pub proof fn law_base64_injective(a: Seq<u8>, b: Seq<u8>)
    requires
        base64_text(a) == base64_text(b),
    ensures
        a == b,
    decreases a.len(),
{
    if a.len() > 0 {
        lemma_groups(a);
    }
    if b.len() > 0 {
        lemma_groups(b);
    }
    if a.len() == 0 || b.len() == 0 {
        assert(a =~= b);
    } else {
        lemma_group_injective(first_group(a), first_group(b));
        law_base64_injective(other_groups(a), other_groups(b));
    }
}

/// Decoding gives back the bytes that were encoded.
pub proof fn law_base64_decode_encode(b: Seq<u8>)
    ensures
        base64_bytes(base64_text(b)) == Some(b),
{
    reveal(base64_bytes);
    let text = base64_text(b);
    let c = choose|c: Seq<u8>| #[trigger] base64_text(c) == text;
    law_base64_injective(b, c);
}

/// A text that can be decoded is the one that its bytes are encoded to.
pub proof fn law_base64_encode_decode(text: Seq<char>)
    ensures
        base64_bytes(text) matches Some(b) ==> base64_text(b) == text,
{
    reveal(base64_bytes);
}

/// Whether `c` is a letter, a digit, or one of `+/=`.
pub open spec fn is_base64_char(c: char) -> bool {
    'A' <= c <= 'Z' || 'a' <= c <= 'z' || '0' <= c <= '9' || c == '+' || c == '/' || c == '='
}

proof fn lemma_group_alphabet(b: Seq<u8>)
    requires
        1 <= b.len() <= 3,
    ensures
        forall|i: int| 0 <= i < 4 ==> is_base64_char(#[trigger] base64_group(b)[i]),
{
    let b0 = b[0] as int;
    let b1 = if b.len() > 1 { b[1] as int } else { 0 };
    let b2 = if b.len() > 2 { b[2] as int } else { 0 };
    assert(is_base64_char(base64_char(b0 / 4)));
    assert(is_base64_char(base64_char((b0 % 4) * 16 + b1 / 16)));
    assert(is_base64_char(base64_char((b1 % 16) * 4 + b2 / 64)));
    assert(is_base64_char(base64_char(b2 % 64)));
}

/// A base64 text is made of letters, digits and `+/=`.
pub proof fn law_base64_alphabet(b: Seq<u8>)
    ensures
        forall|i: int|
            0 <= i < base64_text(b).len() ==> is_base64_char(#[trigger] base64_text(b)[i]),
    decreases b.len(),
{
    if b.len() > 0 {
        let text = base64_text(b);
        lemma_groups(b);
        lemma_group_alphabet(first_group(b));
        law_base64_alphabet(other_groups(b));
        assert forall|i: int| 0 <= i < text.len() implies is_base64_char(#[trigger] text[i]) by {
            if i < 4 {
                assert(text[i] == text.take(4)[i]);
            } else {
                assert(text[i] == text.skip(4)[i - 4]);
            }
        }
    }
}

/// What is wrong with a text that is not base64. Positions are counted in the bytes of its
/// UTF-8.
#[derive(Debug, Clone, Copy, PartialEq, Eq, Structural)]
pub enum Base64Error {
    /// At this position stands this byte, which cannot stand there.
    InvalidByte(usize, u8),
    /// A text cannot end after this many symbols.
    InvalidLength(usize),
    /// At this position stands this symbol, which has bits that no byte uses.
    InvalidLastSymbol(usize, u8),
    /// The padding is not what it must be.
    InvalidPadding,
}

/// What the decoder of `base64` finds wrong with a text that is not base64.
pub uninterp spec fn base64_error(text: Seq<char>) -> Base64Error;

/// Whether a fault that points at a byte of `text` points at that which it names.
pub open spec fn points_into(e: Base64Error, text: Seq<char>) -> bool {
    match e {
        Base64Error::InvalidByte(i, b) | Base64Error::InvalidLastSymbol(i, b) => {
            &&& i < encode_utf8(text).len()
            &&& encode_utf8(text)[i as int] == b
        },
        _ => true,
    }
}

/// `Engine::encode` of the engine `STANDARD`: the base64 of the bytes, with the
/// padding.
#[verifier::external_body]
pub(crate) fn base64_encode(bytes: &[u8]) -> (out: String)
    ensures
        out@ == base64_text(bytes@),
{
    STANDARD.encode(bytes)
}

/// `Engine::decode` of the engine `STANDARD`. It wants the padding and refuses
/// bits that no byte uses, so it accepts the texts that `encode` writes and no
/// others, and gives back the bytes that each of them was written from. Its error
/// depends on the text alone; where it names a byte, it says where that stands.
#[verifier::external_body]
pub(crate) fn base64_decode_raw(text: &str) -> (out: Result<Vec<u8>, Base64Error>)
    ensures
        match out {
            Ok(b) => base64_text(b@) == text@,
            Err(e) => {
                &&& e == base64_error(text@)
                &&& points_into(e, text@)
                &&& forall|b: Seq<u8>| #[trigger] base64_text(b) != text@
            },
        },
{
    match STANDARD.decode(text) {
        Ok(b) => Ok(b),
        Err(base64::DecodeError::InvalidByte(i, b)) => Err(Base64Error::InvalidByte(i, b)),
        Err(base64::DecodeError::InvalidLength(n)) => Err(Base64Error::InvalidLength(n)),
        Err(base64::DecodeError::InvalidLastSymbol(i, b)) => Err(Base64Error::InvalidLastSymbol(i, b)),
        Err(base64::DecodeError::InvalidPadding) => Err(Base64Error::InvalidPadding),
    }
}

/// The bytes that `text` is the base64 of.
pub fn base64_decode(text: &str) -> (out: Result<Vec<u8>, Base64Error>)
    ensures
        match out {
            Ok(b) => base64_bytes(text@) == Some(b@),
            Err(e) => {
                &&& base64_bytes(text@) is None
                &&& e == base64_error(text@)
                &&& points_into(e, text@)
            },
        },
{
    match base64_decode_raw(text) {
        Ok(b) => {
            proof {
                law_base64_decode_encode(b@);
            }
            Ok(b)
        },
        Err(e) => {
            proof {
                reveal(base64_bytes);
            }
            Err(e)
        },
    }
}

// ── UTF-8 ───────────────────────────────────────────────────────────────────
/// What is wrong with bytes that are not UTF-8.
#[derive(Debug, Clone, Copy, PartialEq, Eq, Structural)]
pub enum Utf8Error {
    /// From the first number on, as many bytes as the second number says are wrong.
    Invalid(usize, usize),
    /// The bytes from this position on begin a character and do not end it.
    Incomplete(usize),
}

/// What `String::from_utf8` finds wrong with bytes that are not UTF-8.
pub uninterp spec fn utf8_error(bytes: Seq<u8>) -> Utf8Error;

/// Whether the bytes before `at` are UTF-8, and no longer row from the start is.
pub open spec fn valid_up_to(bytes: Seq<u8>, at: int) -> bool {
    &&& 0 <= at <= bytes.len()
    &&& valid_utf8(bytes.take(at))
    &&& forall|j: int| at < j <= bytes.len() ==> !valid_utf8(#[trigger] bytes.take(j))
}

/// Whether a fault lies in `bytes`, behind the longest row from the start that is UTF-8.
pub open spec fn lies_in(e: Utf8Error, bytes: Seq<u8>) -> bool {
    match e {
        Utf8Error::Invalid(at, len) => valid_up_to(bytes, at as int) && at + len <= bytes.len(),
        Utf8Error::Incomplete(at) => valid_up_to(bytes, at as int) && 1 <= bytes.len() - at <= 3,
    }
}

/// `String::from_utf8`: the text that the bytes are the UTF-8 of; an error if they
/// are not UTF-8. The error depends on the bytes alone, and tells how far they are UTF-8
/// and how many bytes behind that are wrong, unless the bytes end too soon.
#[verifier::external_body]
pub(crate) fn text_of_utf8(bytes: Vec<u8>) -> (out: Result<String, Utf8Error>)
    ensures
        match out {
            Ok(s) => valid_utf8(bytes@) && s@ == decode_utf8(bytes@),
            Err(e) => !valid_utf8(bytes@) && e == utf8_error(bytes@) && lies_in(e, bytes@),
        },
{
    match String::from_utf8(bytes) {
        Ok(s) => Ok(s),
        Err(e) => {
            let at: usize = e.utf8_error().valid_up_to();
            match e.utf8_error().error_len() {
                Some(len) => Err(Utf8Error::Invalid(at, len)),
                None => Err(Utf8Error::Incomplete(at)),
            }
        },
    }
}

/// The text that `String::from_utf8_lossy` makes of `bytes`: it replaces what is
/// not UTF-8 by U+FFFD.
pub uninterp spec fn utf8_lossy(bytes: Seq<u8>) -> Seq<char>;

/// `String::from_utf8_lossy`. Bytes that are UTF-8 come out as the text that they
/// encode. What is not UTF-8 is replaced and never dropped, so some bytes give some
/// text; and U+0000 comes of a zero byte only.
#[verifier::external_body]
pub(crate) fn text_lossy(bytes: &[u8]) -> (out: String)
    ensures
        out@ == utf8_lossy(bytes@),
        valid_utf8(bytes@) ==> out@ == decode_utf8(bytes@),
        bytes@.len() > 0 ==> out@.len() > 0,
        !bytes@.contains(0) ==> !out@.contains('\0'),
{
    String::from_utf8_lossy(bytes).into_owned()
}

/// The text that the bytes are the UTF-8 of.
pub fn text_strict(bytes: Vec<u8>) -> (out: Result<String, Utf8Error>)
    ensures
        match out {
            Ok(s) => valid_utf8(bytes@) && s@ == decode_utf8(bytes@),
            Err(e) => !valid_utf8(bytes@) && e == utf8_error(bytes@) && lies_in(e, bytes@),
        },
{
    text_of_utf8(bytes)
}

/// The base64 of bytes is four characters for every three of them, begun or whole, and that of
/// bytes in a row is that of its parts, if all but the last are three bytes or a multiple.
pub proof fn law_base64_shape(a: Seq<u8>, b: Seq<u8>)
    requires
        a.len() % 3 == 0,
    ensures
        base64_text(b).len() == 4 * ((b.len() + 2) / 3),
        base64_text(a + b) == base64_text(a) + base64_text(b),
    decreases a.len() + b.len(),
{
    lemma_base64_len(b);
    lemma_base64_concat(a, b);
}

proof fn lemma_base64_len(b: Seq<u8>)
    ensures
        base64_text(b).len() == 4 * ((b.len() + 2) / 3),
    decreases b.len(),
{
    if b.len() > 3 {
        lemma_base64_len(b.skip(3));
    }
}

proof fn lemma_base64_concat(a: Seq<u8>, b: Seq<u8>)
    requires
        a.len() % 3 == 0,
    ensures
        base64_text(a + b) == base64_text(a) + base64_text(b),
    decreases a.len(),
{
    if a.len() == 0 {
        assert(a + b =~= b);
        assert(base64_text(a) + base64_text(b) =~= base64_text(b));
    } else if b.len() == 0 {
        assert(a + b =~= a);
        assert(base64_text(a) + base64_text(b) =~= base64_text(a));
    } else {
        let rest = a.skip(3);
        lemma_base64_concat(rest, b);
        assert((a + b).take(3) =~= a.take(3));
        assert((a + b).skip(3) =~= rest + b);
        if a.len() == 3 {
            assert(a.take(3) =~= a);
            assert(rest =~= Seq::empty());
            assert(base64_text(rest) + base64_text(b) =~= base64_text(b));
        }
        assert(base64_text(a + b) =~= base64_text(a) + base64_text(b));
    }
}

} // verus!
