//! Text as a sequence of characters: the handful of string operations that the
//! client needs, each stated over `Seq<char>`.

use vstd::arithmetic::power::pow;
use vstd::prelude::*;

verus! {

/// `String::push` appends one character to the end of the string.
pub assume_specification[ String::push ](s: &mut String, c: char)
    ensures
        final(s)@ == old(s)@.push(c),
;

/// The characters of `s`, in order.
pub fn chars_of(s: &str) -> (out: Vec<char>)
    ensures
        out@ == s@,
{
    let mut out: Vec<char> = Vec::new();
    for c in iter: s.chars()
        invariant
            iter.seq() == s@,
            out@ == s@.take(iter.index() as int),
    {
        out.push(c);
    }
    out
}

/// The text made of `chars`.
pub fn text_of(chars: &[char]) -> (out: String)
    ensures
        out@ == chars@,
{
    let mut out = String::new();
    let n: usize = chars.len();
    for i in 0..n
        invariant
            n == chars@.len(),
            out@ == chars@.take(i as int),
    {
        out.push(chars[i]);
    }
    assert(chars@.take(n as int) =~= chars@);
    out
}

/// Whether two texts hold the same characters.
pub fn same_text(a: &str, b: &str) -> (r: bool)
    ensures
        r == (a@ == b@),
{
    a.to_owned() == b.to_owned()
}

/// `a` followed by `b`.
pub fn join2(a: &str, b: &str) -> (out: String)
    ensures
        out@ == a@ + b@,
{
    let mut out = a.to_owned();
    out.append(b);
    out
}

// ── Whitespace ──────────────────────────────────────────────────────────────
/// The characters with Unicode's White_Space property.
pub open spec fn is_white_space(c: char) -> bool {
    let n = c as u32;
    ||| 0x09 <= n <= 0x0d
    ||| n == 0x20
    ||| n == 0x85
    ||| n == 0xa0
    ||| n == 0x1680
    ||| 0x2000 <= n <= 0x200a
    ||| n == 0x2028
    ||| n == 0x2029
    ||| n == 0x202f
    ||| n == 0x205f
    ||| n == 0x3000
}

fn white_space(c: char) -> (r: bool)
    ensures
        r == is_white_space(c),
{
    let n: u32 = c as u32;
    (0x09 <= n && n <= 0x0d) || n == 0x20 || n == 0x85 || n == 0xa0 || n == 0x1680 || (0x2000 <= n
        && n <= 0x200a) || n == 0x2028 || n == 0x2029 || n == 0x202f || n == 0x205f || n == 0x3000
}

/// `s` without its leading whitespace.
pub open spec fn trim_start(s: Seq<char>) -> Seq<char>
    decreases s.len(),
{
    if s.len() > 0 && is_white_space(s.first()) {
        trim_start(s.drop_first())
    } else {
        s
    }
}

/// `s` without its trailing whitespace.
pub open spec fn trim_end(s: Seq<char>) -> Seq<char>
    decreases s.len(),
{
    if s.len() > 0 && is_white_space(s.last()) {
        trim_end(s.drop_last())
    } else {
        s
    }
}

/// `s` without leading and trailing whitespace.
pub open spec fn trimmed(s: Seq<char>) -> Seq<char> {
    trim_end(trim_start(s))
}

/// The text without leading and trailing whitespace.
pub fn trim(s: &str) -> (out: String)
    ensures
        out@ == trimmed(s@),
{
    let chars = chars_of(s);
    let n: usize = chars.len();
    let mut from: usize = 0;
    assert(chars@.skip(0) =~= chars@);
    while from < n && white_space(chars[from])
        invariant
            n == chars@.len(),
            from <= n,
            trim_start(chars@) == trim_start(chars@.skip(from as int)),
        decreases n - from,
    {
        proof {
            assert(chars@.skip(from as int).drop_first() =~= chars@.skip(from + 1));
        }
        from += 1;
    }
    let ghost body = chars@.skip(from as int);
    assert(trim_start(chars@) == body);
    let mut to: usize = n;
    assert(body.take((to - from) as int) =~= body);
    while from < to && white_space(chars[to - 1])
        invariant
            n == chars@.len(),
            from <= to <= n,
            body == chars@.skip(from as int),
            trim_end(body) == trim_end(body.take((to - from) as int)),
        decreases to,
    {
        proof {
            assert(body.take((to - from) as int).drop_last() =~= body.take((to - 1 - from) as int));
        }
        to -= 1;
    }
    let out = text_of(&chars[from..to]);
    assert(out@ =~= body.take((to - from) as int));
    out
}

// ── Splitting ───────────────────────────────────────────────────────────────
/// The pieces of `s` between the occurrences of `sep`; one more piece than there
/// are separators.
pub open spec fn split_on(s: Seq<char>, sep: char) -> Seq<Seq<char>>
    decreases s.len(),
{
    if s.len() == 0 {
        seq![Seq::empty()]
    } else {
        let before = split_on(s.drop_last(), sep);
        if s.last() == sep {
            before.push(Seq::empty())
        } else {
            before.drop_last().push(before.last().push(s.last()))
        }
    }
}

/// What the texts of a list hold.
pub open spec fn views(list: Seq<String>) -> Seq<Seq<char>> {
    list.map_values(|t: String| t@)
}

proof fn lemma_views_push(list: Seq<String>, t: String)
    ensures
        views(list.push(t)) == views(list).push(t@),
{
    assert(views(list.push(t)) =~= views(list).push(t@));
}

/// The pieces of `s` between the occurrences of `sep`.
pub fn split(s: &str, sep: char) -> (out: Vec<String>)
    ensures
        views(out@) == split_on(s@, sep),
        out@.len() > 0,
{
    let chars = chars_of(s);
    let n: usize = chars.len();
    let mut out: Vec<String> = Vec::new();
    let mut piece = String::new();
    assert(split_on(chars@.take(0), sep) =~= views(out@).push(piece@));
    for i in 0..n
        invariant
            n == chars@.len(),
            split_on(chars@.take(i as int), sep) == views(out@).push(piece@),
    {
        let c = chars[i];
        proof {
            let upto = chars@.take(i + 1);
            assert(upto.drop_last() =~= chars@.take(i as int));
            assert(upto.last() == c);
            assert(views(out@).push(piece@).drop_last() =~= views(out@));
        }
        if c == sep {
            proof {
                lemma_views_push(out@, piece);
            }
            out.push(piece);
            piece = String::new();
        } else {
            piece.push(c);
        }
    }
    proof {
        assert(chars@.take(n as int) =~= chars@);
        lemma_views_push(out@, piece);
    }
    out.push(piece);
    out
}

/// A line without the carriage return that ends it, if one does.
pub open spec fn without_cr(s: Seq<char>) -> Seq<char> {
    if s.len() > 0 && s.last() == '\r' {
        s.drop_last()
    } else {
        s
    }
}

/// The lines of `s`. A line ends at a line feed, or at a carriage return followed
/// by one; the ending of the last line is optional.
pub open spec fn lines_of(s: Seq<char>) -> Seq<Seq<char>> {
    let pieces = split_on(s, '\n');
    let ended = pieces.drop_last().map_values(|p: Seq<char>| without_cr(p));
    if pieces.last().len() == 0 {
        ended
    } else {
        ended.push(pieces.last())
    }
}

fn drop_cr(s: &str) -> (out: String)
    ensures
        out@ == without_cr(s@),
{
    let chars = chars_of(s);
    let n: usize = chars.len();
    if n > 0 && chars[n - 1] == '\r' {
        text_of(&chars[0..n - 1])
    } else {
        s.to_owned()
    }
}

/// The lines of `s`.
pub fn lines(s: &str) -> (out: Vec<String>)
    ensures
        views(out@) == lines_of(s@),
{
    let pieces = split(s, '\n');
    let last: usize = pieces.len() - 1;
    let mut out: Vec<String> = Vec::new();
    let ghost want = split_on(s@, '\n');
    let ghost ended = want.drop_last().map_values(|p: Seq<char>| without_cr(p));
    assert(want.len() == pieces@.len());
    for i in 0..last
        invariant
            last == pieces@.len() - 1,
            want == views(pieces@),
            want.len() == pieces@.len(),
            ended == want.drop_last().map_values(|p: Seq<char>| without_cr(p)),
            views(out@) == ended.take(i as int),
    {
        let line = drop_cr(&pieces[i]);
        proof {
            lemma_views_push(out@, line);
            assert(want[i as int] == pieces@[i as int]@);
            assert(ended.take(i + 1) =~= ended.take(i as int).push(line@));
        }
        out.push(line);
    }
    assert(ended.take(last as int) =~= ended);
    assert(want.last() == pieces@[last as int]@);
    if !pieces[last].as_str().is_empty() {
        let line = pieces[last].clone();
        proof {
            lemma_views_push(out@, line);
        }
        out.push(line);
    }
    out
}

// ── Searching ───────────────────────────────────────────────────────────────
/// Whether `part` stands in `s` at position `i`.
pub open spec fn occurs_at(s: Seq<char>, part: Seq<char>, i: int) -> bool {
    0 <= i && i + part.len() <= s.len() && s.subrange(i, i + part.len()) == part
}

/// Whether `part` stands anywhere in `s`.
pub open spec fn occurs(s: Seq<char>, part: Seq<char>) -> bool {
    exists|i: int| occurs_at(s, part, i)
}

/// Whether the first occurrence of `part` in `s` is at `i`.
pub open spec fn occurs_first(s: Seq<char>, part: Seq<char>, i: int) -> bool {
    occurs_at(s, part, i) && forall|j: int| j < i ==> !occurs_at(s, part, j)
}

fn matches_at(s: &Vec<char>, part: &Vec<char>, i: usize) -> (r: bool)
    requires
        i + part@.len() <= s@.len(),
    ensures
        r == occurs_at(s@, part@, i as int),
{
    let n: usize = part.len();
    let total: usize = s.len();
    for k in 0..n
        invariant
            n == part@.len(),
            total == s@.len(),
            i + n <= total,
            forall|j: int| 0 <= j < k ==> s@[i + j] == part@[j],
    {
        if s[i + k] != part[k] {
            assert(s@.subrange(i as int, i + part@.len())[k as int] != part@[k as int]);
            return false;
        }
    }
    assert(s@.subrange(i as int, i + part@.len()) =~= part@);
    true
}

/// The position of the first occurrence of `part`.
pub fn find(s: &Vec<char>, part: &Vec<char>) -> (r: Option<usize>)
    ensures
        match r {
            Some(i) => occurs_first(s@, part@, i as int),
            None => !occurs(s@, part@),
        },
{
    if part.len() > s.len() {
        return None;
    }
    let last: usize = s.len() - part.len();
    let mut i: usize = 0;
    loop
        invariant
            last == s@.len() - part@.len(),
            i <= last,
            forall|j: int| j < i ==> !occurs_at(s@, part@, j),
        decreases last - i,
    {
        if matches_at(s, part, i) {
            return Some(i);
        }
        if i == last {
            return None;
        }
        i += 1;
    }
}

/// Whether `part` stands anywhere in `s`.
pub fn contains(s: &str, part: &str) -> (r: bool)
    ensures
        r == occurs(s@, part@),
{
    find(&chars_of(s), &chars_of(part)).is_some()
}

/// Whether `s` begins with `prefix`.
pub fn starts_with(s: &str, prefix: &str) -> (r: bool)
    ensures
        r == prefix@.is_prefix_of(s@),
{
    let chars = chars_of(s);
    let part = chars_of(prefix);
    if part.len() > chars.len() {
        return false;
    }
    let r = matches_at(&chars, &part, 0);
    r
}

/// What follows `prefix` in `s`, if `s` begins with it.
pub fn strip_prefix(s: &str, prefix: &str) -> (r: Option<String>)
    ensures
        match r {
            Some(rest) => prefix@.is_prefix_of(s@) && rest@ == s@.skip(prefix@.len() as int),
            None => !prefix@.is_prefix_of(s@),
        },
{
    if starts_with(s, prefix) {
        let chars = chars_of(s);
        let from: usize = chars_of(prefix).len();
        let n: usize = chars.len();
        let rest = text_of(&chars[from..n]);
        assert(rest@ =~= s@.skip(prefix@.len() as int));
        Some(rest)
    } else {
        None
    }
}

/// What stands before the last character of `s`, if that is `c`.
pub fn strip_suffix_char(s: &str, c: char) -> (r: Option<String>)
    ensures
        match r {
            Some(rest) => s@.len() > 0 && s@.last() == c && rest@ == s@.drop_last(),
            None => s@.len() == 0 || s@.last() != c,
        },
{
    let chars = chars_of(s);
    let n: usize = chars.len();
    if n > 0 && chars[n - 1] == c {
        Some(text_of(&chars[0..n - 1]))
    } else {
        None
    }
}

// ── Numbers ─────────────────────────────────────────────────────────────────
pub open spec fn is_digit(c: char) -> bool {
    '0' <= c <= '9'
}

/// Whether `s` is one decimal digit or more, and nothing else.
pub open spec fn all_digits(s: Seq<char>) -> bool {
    s.len() > 0 && forall|i: int| 0 <= i < s.len() ==> is_digit(#[trigger] s[i])
}

/// The number that a row of decimal digits writes.
pub open spec fn digits_value(s: Seq<char>) -> nat
    decreases s.len(),
{
    if s.len() == 0 {
        0
    } else {
        10 * digits_value(s.drop_last()) + (s.last() as nat - '0' as nat) as nat
    }
}

proof fn lemma_prefix_value(s: Seq<char>, n: int)
    requires
        0 <= n <= s.len(),
    ensures
        digits_value(s.take(n)) <= digits_value(s),
    decreases s.len() - n,
{
    if n < s.len() {
        lemma_prefix_value(s, n + 1);
        assert(s.take(n + 1).drop_last() =~= s.take(n));
    } else {
        assert(s.take(n) =~= s);
    }
}

/// What is wrong with a text that is no number.
#[derive(Debug, Clone, Copy, PartialEq, Eq, Structural)]
pub enum IntError {
    /// There is nothing to read.
    Empty,
    /// Something stands where a digit should.
    InvalidDigit,
    /// The number is over the greatest that fits.
    TooLarge,
    /// The number is under the least that fits.
    TooSmall,
}

/// Whether the row ends without a digit, or comes upon something that is none while the
/// digits before it are worth at most `max`.
pub open spec fn lacks_digit(s: Seq<char>, max: nat) -> bool {
    s.len() == 0 || exists|i: int|
        {
            &&& 0 <= i < s.len()
            &&& !is_digit(#[trigger] s[i])
            &&& forall|j: int| 0 <= j < i ==> is_digit(#[trigger] s[j])
            &&& digits_value(s.take(i)) <= max
        }
}

/// Why `s` is no row of decimal digits that is worth at most `max`: whichever comes
/// first from the left, a missing digit or one too many.
pub open spec fn digits_error(s: Seq<char>, max: nat) -> IntError {
    if lacks_digit(s, max) {
        IntError::InvalidDigit
    } else {
        IntError::TooLarge
    }
}

proof fn lemma_no_digit(s: Seq<char>, i: int, max: nat)
    requires
        0 <= i < s.len(),
        !is_digit(s[i]),
        forall|j: int| 0 <= j < i ==> is_digit(#[trigger] s[j]),
        digits_value(s.take(i)) <= max,
    ensures
        digits_error(s, max) == IntError::InvalidDigit,
        !all_digits(s),
{
}

proof fn lemma_too_large(s: Seq<char>, i: int, max: nat)
    requires
        0 <= i < s.len(),
        forall|j: int| 0 <= j <= i ==> is_digit(#[trigger] s[j]),
        digits_value(s.take(i + 1)) > max,
    ensures
        digits_error(s, max) == IntError::TooLarge,
        !(all_digits(s) && digits_value(s) <= max),
{
    lemma_prefix_value(s, i + 1);
    assert forall|k: int|
        0 <= k < s.len() && !is_digit(#[trigger] s[k]) implies digits_value(s.take(k)) > max by {
        assert(k > i);
        lemma_prefix_value(s.take(k), i + 1);
        assert(s.take(k).take(i + 1) =~= s.take(i + 1));
    }
}

/// Reads digits up to the first that is none, or that takes the value over `max`: the
/// value, or the position of that one.
fn scan_digits(s: &Vec<char>, from: usize, max: u64) -> (r: Result<u64, usize>)
    requires
        from < s@.len(),
    ensures
        ({
            let body = s@.skip(from as int);
            match r {
                Ok(v) => all_digits(body) && v == digits_value(body) && v <= max,
                Err(at) => {
                    &&& 0 <= at < body.len()
                    &&& forall|j: int| 0 <= j < at ==> is_digit(#[trigger] body[j])
                    &&& digits_value(body.take(at as int)) <= max
                    &&& is_digit(body[at as int]) ==> digits_value(body.take(at + 1)) > max
                },
            }
        }),
{
    let n: usize = s.len();
    let ghost body = s@.skip(from as int);
    let mut value: u64 = 0;
    for i in from..n
        invariant
            n == s@.len(),
            from < n,
            body == s@.skip(from as int),
            forall|j: int| 0 <= j < i - from ==> is_digit(#[trigger] body[j]),
            value == digits_value(body.take(i - from)),
            value <= max,
    {
        let c = s[i];
        assert(c == body[i - from]);
        if !('0' <= c && c <= '9') {
            return Err(i - from);
        }
        let d: u64 = c as u64 - '0' as u64;
        proof {
            let upto = body.take(i + 1 - from);
            assert(upto.drop_last() =~= body.take(i - from));
            assert(upto.last() == c);
        }
        if value > max / 10 || d > max - 10 * value {
            return Err(i - from);
        }
        value = 10 * value + d;
    }
    assert(body.take(n - from) =~= body);
    Ok(value)
}

/// The value of `s` as a row of decimal digits, if it is one and the value is at
/// most `max`.
pub fn parse_digits(s: &Vec<char>, from: usize, max: u64) -> (r: Result<u64, IntError>)
    requires
        from <= s@.len(),
    ensures
        match r {
            Ok(v) => all_digits(s@.skip(from as int)) && v == digits_value(s@.skip(from as int))
                && v <= max,
            Err(e) => {
                &&& !(all_digits(s@.skip(from as int)) && digits_value(s@.skip(from as int)) <= max)
                &&& e == digits_error(s@.skip(from as int), max as nat)
            },
        },
{
    if from == s.len() {
        return Err(IntError::InvalidDigit);
    }
    let ghost body = s@.skip(from as int);
    match scan_digits(s, from, max) {
        Ok(v) => Ok(v),
        Err(at) => {
            let c = s[from + at];
            assert(c == body[at as int]);
            if '0' <= c && c <= '9' {
                proof {
                    lemma_too_large(body, at as int, max as nat);
                }
                Err(IntError::TooLarge)
            } else {
                proof {
                    lemma_no_digit(body, at as int, max as nat);
                }
                Err(IntError::InvalidDigit)
            }
        },
    }
}

/// The number that `s` writes as an optional `+` and decimal digits, if it is at
/// most `max`.
pub open spec fn unsigned_of(s: Seq<char>, max: nat) -> Option<nat> {
    let digits = if s.len() > 0 && s.first() == '+' {
        s.drop_first()
    } else {
        s
    };
    if all_digits(digits) && digits_value(digits) <= max {
        Some(digits_value(digits))
    } else {
        None
    }
}

/// Reads an optional `+` and decimal digits.
pub fn parse_unsigned(s: &str, max: u64) -> (r: Option<u64>)
    ensures
        match r {
            Some(v) => unsigned_of(s@, max as nat) == Some(v as nat),
            None => unsigned_of(s@, max as nat) is None,
        },
{
    let chars = chars_of(s);
    let from: usize = if chars.len() > 0 && chars[0] == '+' {
        1
    } else {
        0
    };
    proof {
        assert(s@.skip(0) =~= s@);
        assert(s@.len() > 0 ==> s@.skip(1) =~= s@.drop_first());
    }
    match parse_digits(&chars, from, max) {
        Ok(v) => Some(v),
        Err(_) => None,
    }
}

/// The number that `s` writes as an optional sign and decimal digits, if it fits
/// in an `i64`.
pub open spec fn signed_of(s: Seq<char>) -> Option<int> {
    if s.len() > 0 && s.first() == '-' {
        let digits = s.drop_first();
        if all_digits(digits) && -digits_value(digits) >= i64::MIN {
            Some(-digits_value(digits))
        } else {
            None
        }
    } else {
        match unsigned_of(s, i64::MAX as nat) {
            Some(v) => Some(v as int),
            None => None,
        }
    }
}

/// Why `s` is no number that [`signed_of`] reads.
pub open spec fn signed_error(s: Seq<char>) -> IntError {
    if s.len() == 0 {
        IntError::Empty
    } else if s.first() == '-' {
        match digits_error(s.drop_first(), 0x8000_0000_0000_0000) {
            IntError::TooLarge => IntError::TooSmall,
            e => e,
        }
    } else if s.first() == '+' {
        digits_error(s.drop_first(), i64::MAX as nat)
    } else {
        digits_error(s, i64::MAX as nat)
    }
}

/// Reads an optional sign and decimal digits.
pub fn parse_signed(s: &str) -> (r: Result<i64, IntError>)
    ensures
        match r {
            Ok(v) => signed_of(s@) == Some(v as int),
            Err(e) => signed_of(s@) is None && e == signed_error(s@),
        },
{
    let chars = chars_of(s);
    if chars.len() == 0 {
        return Err(IntError::Empty);
    }
    proof {
        assert(s@.skip(0) =~= s@);
        assert(s@.skip(1) =~= s@.drop_first());
    }
    if chars[0] == '-' {
        return match parse_digits(&chars, 1, 0x8000_0000_0000_0000) {
            Ok(v) => if v == 0x8000_0000_0000_0000 {
                Ok(i64::MIN)
            } else {
                Ok(-(v as i64))
            },
            Err(IntError::TooLarge) => Err(IntError::TooSmall),
            Err(e) => Err(e),
        };
    }
    let from: usize = if chars[0] == '+' {
        1
    } else {
        0
    };
    match parse_digits(&chars, from, i64::MAX as u64) {
        Ok(v) => Ok(v as i64),
        Err(e) => Err(e),
    }
}

/// The decimal digit for `d`.
pub open spec fn digit_char(d: nat) -> char {
    (('0' as nat) + d) as char
}

/// `n` in decimal.
pub open spec fn decimal(n: nat) -> Seq<char>
    decreases n,
{
    if n < 10 {
        seq![digit_char(n)]
    } else {
        decimal(n / 10).push(digit_char(n % 10))
    }
}

/// Writes `n` in decimal.
pub fn decimal_text(n: u64) -> (out: String)
    ensures
        out@ == decimal(n as nat),
    decreases n,
{
    let mut out = if n < 10 {
        String::new()
    } else {
        decimal_text(n / 10)
    };
    let d: u8 = (n % 10) as u8;
    out.push((48 + d) as char);
    assert(out@ =~= decimal(n as nat));
    out
}

/// The upper case hexadecimal digit for `d`.
pub open spec fn hex_upper(d: nat) -> char {
    if d < 10 {
        digit_char(d)
    } else {
        (('A' as nat) + (d - 10)) as char
    }
}

/// The lower case hexadecimal digit for `d`.
pub open spec fn hex_lower(d: nat) -> char {
    if d < 10 {
        digit_char(d)
    } else {
        (('a' as nat) + (d - 10)) as char
    }
}

/// The upper case hexadecimal digit for `d`.
pub fn hex_upper_digit(d: u8) -> (c: char)
    requires
        d < 16,
    ensures
        c == hex_upper(d as nat),
{
    if d < 10 {
        (48 + d) as char
    } else {
        (55 + d) as char
    }
}

/// The lower case hexadecimal digit for `d`.
pub fn hex_lower_digit(d: u8) -> (c: char)
    requires
        d < 16,
    ensures
        c == hex_lower(d as nat),
{
    if d < 10 {
        (48 + d) as char
    } else {
        (87 + d) as char
    }
}

/// `n` in upper case hexadecimal.
pub open spec fn hexadecimal(n: nat) -> Seq<char>
    decreases n,
{
    if n < 16 {
        seq![hex_upper(n)]
    } else {
        hexadecimal(n / 16).push(hex_upper(n % 16))
    }
}

/// Writes `n` in upper case hexadecimal.
pub fn hexadecimal_text(n: u32) -> (out: String)
    ensures
        out@ == hexadecimal(n as nat),
    decreases n,
{
    let mut out = if n < 16 {
        String::new()
    } else {
        hexadecimal_text(n / 16)
    };
    out.push(hex_upper_digit((n % 16) as u8));
    assert(out@ =~= hexadecimal(n as nat));
    out
}

// ── Layout ──────────────────────────────────────────────────────────────────
/// `s` followed by as many spaces as it takes to make `width` characters.
pub open spec fn padded(s: Seq<char>, width: nat) -> Seq<char> {
    if s.len() < width {
        s + Seq::new((width - s.len()) as nat, |i: int| ' ')
    } else {
        s
    }
}

/// `s` filled up with spaces to `width` characters.
pub fn pad_right(s: &str, width: usize) -> (out: String)
    ensures
        out@ == padded(s@, width as nat),
{
    let have: usize = s.unicode_len();
    let mut out = s.to_owned();
    if have < width {
        let fill: usize = width - have;
        assert(out@ =~= s@ + Seq::new(0, |i: int| ' '));
        for i in 0..fill
            invariant
                out@ == s@ + Seq::new(i as nat, |i: int| ' '),
        {
            out.push(' ');
            assert(out@ =~= s@ + Seq::new((i + 1) as nat, |i: int| ' '));
        }
    }
    out
}

// ── Laws ────────────────────────────────────────────────────────────────────
/// Whether `s` is whitespace and nothing else.
pub open spec fn is_blank(s: Seq<char>) -> bool {
    forall|i: int| 0 <= i < s.len() ==> is_white_space(#[trigger] s[i])
}

/// Of the ASCII characters, whitespace is the space and what lies from the tab to the
/// carriage return; of the others it is the characters that Unicode lists, no more than
/// nineteen, none of which is a letter or a sign that is seen.
pub proof fn law_white_space(c: char)
    ensures
        c <= '\u{7f}' ==> (is_white_space(c) <==> c == ' ' || '\t' <= c <= '\r'),
        c > '\u{7f}' ==> (is_white_space(c) <==> {
            ||| c == '\u{85}' || c == '\u{a0}' || c == '\u{1680}'
            ||| '\u{2000}' <= c <= '\u{200a}'
            ||| c == '\u{2028}' || c == '\u{2029}' || c == '\u{202f}' || c == '\u{205f}'
            ||| c == '\u{3000}'
        }),
{
}

proof fn lemma_trim_start(s: Seq<char>)
    ensures
        trim_start(s).len() <= s.len(),
        s.skip(s.len() - trim_start(s).len()) == trim_start(s),
        is_blank(s.take(s.len() - trim_start(s).len())),
        trim_start(s).len() > 0 ==> !is_white_space(trim_start(s).first()),
    decreases s.len(),
{
    if s.len() > 0 && is_white_space(s.first()) {
        let rest = s.drop_first();
        lemma_trim_start(rest);
        let n = rest.len() - trim_start(rest).len();
        assert(s.skip(n + 1) =~= rest.skip(n));
        assert forall|i: int| 0 <= i < n + 1 implies is_white_space(#[trigger] s.take(n + 1)[i]) by {
            if i > 0 {
                assert(is_white_space(rest.take(n)[i - 1]));
            }
        }
    } else {
        assert(s.skip(0) =~= s);
    }
}

proof fn lemma_trim_end(s: Seq<char>)
    ensures
        trim_end(s).len() <= s.len(),
        s.take(trim_end(s).len() as int) == trim_end(s),
        is_blank(s.skip(trim_end(s).len() as int)),
        trim_end(s).len() > 0 ==> !is_white_space(trim_end(s).last()),
    decreases s.len(),
{
    if s.len() > 0 && is_white_space(s.last()) {
        let rest = s.drop_last();
        lemma_trim_end(rest);
        let n = trim_end(rest).len() as int;
        assert(s.take(n) =~= rest.take(n));
        assert forall|i: int| 0 <= i < s.len() - n implies is_white_space(#[trigger] s.skip(n)[i]) by {
            if i < rest.len() - n {
                assert(is_white_space(rest.skip(n)[i]));
            }
        }
    } else {
        assert(s.take(s.len() as int) =~= s);
    }
}

/// Trimming takes whitespace off both ends and nothing else: the text is whitespace, what
/// is left, and whitespace again, and what is left neither begins nor ends with any.
pub proof fn law_trim(s: Seq<char>)
    ensures
        exists|before: Seq<char>, after: Seq<char>|
            {
                &&& #[trigger] is_blank(before) && #[trigger] is_blank(after)
                &&& s == before + trimmed(s) + after
            },
        trimmed(s).len() > 0 ==> !is_white_space(trimmed(s).first()) && !is_white_space(
            trimmed(s).last(),
        ),
{
    let body = trim_start(s);
    lemma_trim_start(s);
    lemma_trim_end(body);
    let before = s.take(s.len() - body.len());
    let after = body.skip(trimmed(s).len() as int);
    assert(is_blank(before) && is_blank(after));
    assert(s =~= before + trimmed(s) + after);
    if trimmed(s).len() > 0 {
        assert(trimmed(s).first() == body.first());
    }
}

/// There is one way to trim: a text that neither begins nor ends with whitespace is what is
/// left of it, whatever whitespace is put around it.
pub proof fn law_trim_of_padded(before: Seq<char>, body: Seq<char>, after: Seq<char>)
    requires
        is_blank(before),
        is_blank(after),
        body.len() > 0 ==> !is_white_space(body.first()) && !is_white_space(body.last()),
    ensures
        trimmed(before + body + after) == body,
    decreases before.len() + after.len(),
{
    let s = before + body + after;
    if body.len() == 0 {
        assert forall|i: int| 0 <= i < s.len() implies is_white_space(#[trigger] s[i]) by {
            if i < before.len() {
                assert(s[i] == before[i]);
            } else {
                assert(s[i] == after[i - before.len()]);
            }
        }
        lemma_trim_start(s);
        if trim_start(s).len() > 0 {
            assert(trim_start(s)[0] == s[s.len() - trim_start(s).len()]);
        }
        assert(trim_start(s) =~= Seq::empty());
        assert(trimmed(s) =~= body);
    } else {
        lemma_trim_start(s);
        let rest = trim_start(s);
        let cut = s.len() - rest.len();
        if cut > before.len() {
            assert(is_white_space(s.take(cut)[before.len() as int]));
            assert(s[before.len() as int] == body[0]);
        }
        if cut < before.len() {
            assert(rest[0] == s[cut]);
            assert(s[cut] == before[cut]);
        }
        assert(rest =~= body + after);
        lemma_trim_end(rest);
        let n = trim_end(rest).len() as int;
        if n < body.len() {
            assert(is_white_space(rest.skip(n)[body.len() - 1 - n]));
            assert(rest[body.len() - 1] == body.last());
        }
        if n > body.len() {
            assert(trim_end(rest).last() == rest[n - 1]);
            assert(rest[n - 1] == after[n - 1 - body.len()]);
        }
        assert(trimmed(s) =~= body);
    }
}

/// The pieces with the separator between each two.
pub open spec fn joined_with(pieces: Seq<Seq<char>>, sep: char) -> Seq<char>
    decreases pieces.len(),
{
    if pieces.len() == 0 {
        Seq::empty()
    } else if pieces.len() == 1 {
        pieces[0]
    } else {
        joined_with(pieces.drop_last(), sep).push(sep) + pieces.last()
    }
}

/// Splitting loses nothing: no piece holds the separator, and the pieces with the separator
/// between them are the text.
pub proof fn law_split(s: Seq<char>, sep: char)
    ensures
        split_on(s, sep).len() > 0,
        joined_with(split_on(s, sep), sep) == s,
        forall|i: int|
            0 <= i < split_on(s, sep).len() ==> !(#[trigger] split_on(s, sep)[i]).contains(sep),
    decreases s.len(),
{
    let pieces = split_on(s, sep);
    if s.len() == 0 {
        assert(joined_with(pieces, sep) =~= s);
    } else {
        let before = split_on(s.drop_last(), sep);
        law_split(s.drop_last(), sep);
        if s.last() == sep {
            assert(pieces.drop_last() =~= before);
            assert(joined_with(pieces, sep) =~= s);
            assert forall|i: int| 0 <= i < pieces.len() implies !(#[trigger] pieces[i]).contains(
                sep,
            ) by {
                if i < before.len() {
                    assert(pieces[i] == before[i]);
                }
            }
        } else {
            let last = before.last().push(s.last());
            assert(pieces.drop_last() =~= before.drop_last());
            if before.len() == 1 {
                assert(joined_with(pieces, sep) =~= s);
            } else {
                assert(joined_with(pieces, sep) =~= joined_with(before, sep).push(s.last()));
            }
            assert forall|i: int| 0 <= i < pieces.len() implies !(#[trigger] pieces[i]).contains(
                sep,
            ) by {
                if i < before.len() - 1 {
                    assert(pieces[i] == before[i]);
                } else {
                    assert(!before[before.len() - 1].contains(sep));
                    assert forall|k: int| 0 <= k < last.len() implies last[k] != sep by {
                        if k < before.last().len() {
                            assert(before.last().contains(before.last()[k]));
                        }
                    }
                }
            }
        }
    }
}

proof fn lemma_split_of_piece(s: Seq<char>, piece: Seq<char>, sep: char)
    requires
        !piece.contains(sep),
        split_on(s, sep).len() > 0,
    ensures
        split_on(s + piece, sep) == split_on(s, sep).drop_last().push(
            split_on(s, sep).last() + piece,
        ),
    decreases piece.len(),
{
    let have = split_on(s, sep);
    if piece.len() == 0 {
        assert(s + piece =~= s);
        assert(have.last() + piece =~= have.last());
        assert(have =~= have.drop_last().push(have.last()));
    } else {
        let less = piece.drop_last();
        assert forall|k: int| 0 <= k < less.len() implies less[k] != sep by {
            assert(piece.contains(piece[k]));
        }
        assert(piece.contains(piece.last()));
        lemma_split_of_piece(s, less, sep);
        assert((s + piece).drop_last() =~= s + less);
        let before = split_on(s + less, sep);
        assert(before.drop_last() =~= have.drop_last());
        assert(before.last().push(piece.last()) =~= have.last() + piece);
    }
}

/// What was joined is split into what it was joined of.
pub proof fn law_split_of_joined(pieces: Seq<Seq<char>>, sep: char)
    requires
        pieces.len() > 0,
        forall|i: int| 0 <= i < pieces.len() ==> !(#[trigger] pieces[i]).contains(sep),
    ensures
        split_on(joined_with(pieces, sep), sep) == pieces,
    decreases pieces.len(),
{
    let none = Seq::<char>::empty();
    if pieces.len() == 1 {
        assert(split_on(none, sep) =~= seq![none]);
        lemma_split_of_piece(none, pieces[0], sep);
        assert(none + pieces[0] =~= pieces[0]);
        assert(split_on(pieces[0], sep) =~= pieces);
    } else {
        let before = pieces.drop_last();
        assert forall|i: int| 0 <= i < before.len() implies !(#[trigger] before[i]).contains(
            sep,
        ) by {
            assert(before[i] == pieces[i]);
        }
        law_split_of_joined(before, sep);
        let head = joined_with(before, sep).push(sep);
        assert(head.drop_last() =~= joined_with(before, sep));
        assert(split_on(head, sep) =~= before.push(none));
        assert(!pieces[pieces.len() - 1].contains(sep));
        lemma_split_of_piece(head, pieces.last(), sep);
        assert(before.push(none).drop_last() =~= before);
        assert(none + pieces.last() =~= pieces.last());
        assert(before.push(pieces.last()) =~= pieces);
    }
}

/// Lines with an ending behind each, be it a line feed or a carriage return and a line feed,
/// and a last line without one, are read as these lines.
pub proof fn law_lines(lines: Seq<Seq<char>>, crlf: Seq<bool>, last: Seq<char>)
    requires
        crlf.len() == lines.len(),
        forall|i: int|
            0 <= i < lines.len() ==> !(#[trigger] lines[i]).contains('\n') && !lines[i].contains(
                '\r',
            ),
        !last.contains('\n'),
    ensures
        ({
            let text = joined_with(
                Seq::new(
                    lines.len(),
                    |i: int|
                        if crlf[i] {
                            lines[i].push('\r')
                        } else {
                            lines[i]
                        },
                ).push(last),
                '\n',
            );
            lines_of(text) == if last.len() == 0 {
                lines
            } else {
                lines.push(last)
            }
        }),
{
    let ended = Seq::new(
        lines.len(),
        |i: int|
            if crlf[i] {
                lines[i].push('\r')
            } else {
                lines[i]
            },
    );
    let pieces = ended.push(last);
    assert forall|i: int| 0 <= i < pieces.len() implies !(#[trigger] pieces[i]).contains('\n') by {
        if i < lines.len() {
            assert(!lines[i].contains('\n'));
            assert forall|k: int| 0 <= k < pieces[i].len() implies pieces[i][k] != '\n' by {
                if k < lines[i].len() {
                    assert(lines[i].contains(lines[i][k]));
                }
            }
        }
    }
    law_split_of_joined(pieces, '\n');
    assert(pieces.drop_last() =~= ended);
    let bare = ended.map_values(|p: Seq<char>| without_cr(p));
    assert forall|i: int| 0 <= i < lines.len() implies #[trigger] bare[i] == lines[i] by {
        assert(!lines[i].contains('\r'));
        if crlf[i] {
            assert(lines[i].push('\r').drop_last() =~= lines[i]);
        } else if lines[i].len() > 0 {
            assert(lines[i].contains(lines[i].last()));
        }
    }
    assert(bare =~= lines);
}

/// A part occurs in a text exactly if the text is the part with something before it and
/// something behind it, and where it first occurs is the least that can stand before it.
pub proof fn law_occurs(s: Seq<char>, part: Seq<char>, before: Seq<char>, after: Seq<char>)
    requires
        s == before + part + after,
    ensures
        occurs(s, part),
        occurs_at(s, part, before.len() as int),
        forall|i: int| #[trigger] occurs_first(s, part, i) ==> 0 <= i <= before.len(),
{
    assert(s.subrange(before.len() as int, (before.len() + part.len()) as int) =~= part);
    assert(occurs_at(s, part, before.len() as int));
    assert forall|i: int| #[trigger] occurs_first(s, part, i) implies 0 <= i <= before.len() by {
        assert(occurs_at(s, part, i));
    }
}

/// A text in which a part occurs is the part with something before it and something behind.
pub proof fn law_occurrence_parts_the_text(s: Seq<char>, part: Seq<char>, i: int)
    requires
        occurs_at(s, part, i),
    ensures
        0 <= i <= s.len() - part.len(),
        s == s.take(i) + part + s.skip(i + part.len()),
{
    assert(s =~= s.take(i) + s.subrange(i, i + part.len()) + s.skip(i + part.len()));
}

/// Digits count by their places: a row of digits is worth what its first part is worth,
/// times ten for every digit behind it, and what the rest is worth; and a digit alone is
/// worth as much as it lies behind the zero.
pub proof fn law_places(a: Seq<char>, b: Seq<char>, c: char)
    requires
        is_digit(c),
    ensures
        digits_value(a + b) == digits_value(a) * pow(10, b.len()) + digits_value(b),
        digits_value(seq![c]) == c as int - '0' as int,
        '0' <= c <= '9',
    decreases b.len(),
{
    reveal_with_fuel(digits_value, 2);
    reveal(pow);
    assert(seq![c].drop_last() =~= Seq::empty());
    if b.len() == 0 {
        assert(a + b =~= a);
        assert(digits_value(a) * 1 == digits_value(a)) by (nonlinear_arith);
    } else {
        law_places(a, b.drop_last(), c);
        assert((a + b).drop_last() =~= a + b.drop_last());
        let x = digits_value(a) as int;
        let t = pow(10, (b.len() - 1) as nat);
        assert(10 * (x * t) == x * (10 * t)) by (nonlinear_arith);
        assert(pow(10, b.len()) == 10 * t);
        assert(digits_value(a + b) == 10 * (x * t + digits_value(b.drop_last())) + (b.last() as nat
            - '0' as nat) as nat);
    }
}

/// A number is written in decimal digits without a zero before them, and read back as the
/// number it is.
pub proof fn law_decimal(n: nat)
    ensures
        all_digits(decimal(n)),
        digits_value(decimal(n)) == n,
        n > 0 ==> decimal(n)[0] != '0',
        n == 0 ==> decimal(n) == seq!['0'],
    decreases n,
{
    reveal_with_fuel(digits_value, 2);
    if n < 10 {
        assert(decimal(n).drop_last() =~= Seq::empty());
        assert(is_digit(digit_char(n)));
        assert(decimal(0) =~= seq!['0']);
    } else {
        law_decimal(n / 10);
        assert(decimal(n).drop_last() =~= decimal(n / 10));
        assert(is_digit(digit_char(n % 10)));
        assert(decimal(n).last() == digit_char(n % 10));
    }
}

/// A number in decimal is read as that number, with a sign or without, if it fits into an
/// `i64`; if it does not, it is too large, or too small behind a minus.
pub proof fn law_signed(n: nat)
    ensures
        signed_of(decimal(n)) == if n <= 0x7fff_ffff_ffff_ffff {
            Some(n as int)
        } else {
            None::<int>
        },
        signed_of(seq!['+'] + decimal(n)) == signed_of(decimal(n)),
        signed_of(seq!['-'] + decimal(n)) == if n <= 0x8000_0000_0000_0000 {
            Some(-n)
        } else {
            None::<int>
        },
        n > 0x7fff_ffff_ffff_ffff ==> signed_error(decimal(n)) == IntError::TooLarge
            && signed_error(seq!['+'] + decimal(n)) == IntError::TooLarge,
        n > 0x8000_0000_0000_0000 ==> signed_error(seq!['-'] + decimal(n)) == IntError::TooSmall,
{
    law_decimal(n);
    let d = decimal(n);
    assert(is_digit(d[0]));
    assert((seq!['+'] + d).drop_first() =~= d);
    assert((seq!['-'] + d).drop_first() =~= d);
    assert(forall|i: int| 0 <= i < d.len() ==> is_digit(#[trigger] d[i]));
}

/// What is read as a number is digits with at most a sign before them, and worth what the
/// digits are worth; nothing else is, and of what is not, an empty text is called so, and one
/// that stops being digits while it still fits has an invalid digit.
pub proof fn law_signed_text(s: Seq<char>)
    ensures
        signed_of(s) matches Some(v) ==> {
            let signed = s[0] == '-' || s[0] == '+';
            let digits = if signed {
                s.skip(1)
            } else {
                s
            };
            &&& s.len() > 0
            &&& digits.len() > 0
            &&& forall|i: int| 0 <= i < digits.len() ==> '0' <= #[trigger] digits[i] <= '9'
            &&& v == if s[0] == '-' {
                -digits_value(digits)
            } else {
                digits_value(digits) as int
            }
            &&& -0x8000_0000_0000_0000 <= v <= 0x7fff_ffff_ffff_ffff
        },
        s.len() == 0 ==> signed_of(s) is None && signed_error(s) == IntError::Empty,
        s.len() > 0 ==> signed_error(s) != IntError::Empty,
        s == seq!['+'] || s == seq!['-'] ==> signed_error(s) == IntError::InvalidDigit,
        s.len() > 0 && !('0' <= s[0] <= '9') && s[0] != '+' && s[0] != '-' ==> signed_of(s) is None
            && signed_error(s) == IntError::InvalidDigit,
        s.len() > 1 && (s[0] == '+' || s[0] == '-') && !('0' <= s[1] <= '9') ==> signed_of(
            s,
        ) is None && signed_error(s) == IntError::InvalidDigit,
{
    if s.len() > 0 {
        assert(s.skip(1) =~= s.drop_first());
        let rest = s.drop_first();
        assert(s.take(0) =~= Seq::empty());
        assert(rest.take(0) =~= Seq::empty());
        if !('0' <= s[0] <= '9') {
            assert(!is_digit(s[0]));
        }
        if s.len() > 1 {
            assert(rest[0] == s[1]);
            if !('0' <= s[1] <= '9') {
                assert(!is_digit(rest[0]));
            }
        }
        if signed_of(s) is Some {
            let signed = s[0] == '-' || s[0] == '+';
            let digits = if signed {
                s.skip(1)
            } else {
                s
            };
            assert(all_digits(digits));
            assert forall|i: int| 0 <= i < digits.len() implies '0' <= #[trigger] digits[i]
                <= '9' by {
                assert(is_digit(digits[i]));
            }
        }
    }
}

/// Digits with something behind them that is none: the invalid digit is what is wrong if the
/// digits before it fit, and their worth if they do not.
pub proof fn law_first_fault_counts(n: nat, c: char, rest: Seq<char>)
    requires
        !('0' <= c <= '9'),
    ensures
        signed_of(decimal(n).push(c) + rest) is None,
        signed_error(decimal(n).push(c) + rest) == if n <= 0x7fff_ffff_ffff_ffff {
            IntError::InvalidDigit
        } else {
            IntError::TooLarge
        },
{
    law_decimal(n);
    let d = decimal(n);
    let s = d.push(c) + rest;
    let k = d.len() as int;
    assert(is_digit(d[0]) && s[0] == d[0]);
    assert(s[k] == c && !is_digit(s[k]));
    assert forall|j: int| 0 <= j < k implies is_digit(#[trigger] s[j]) by {
        assert(s[j] == d[j]);
        assert(is_digit(d[j]));
    }
    assert(s.take(k) =~= d);
    if n > 0x7fff_ffff_ffff_ffff {
        assert(s.take(k - 1 + 1) =~= d);
        lemma_too_large(s, k - 1, i64::MAX as nat);
    }
}

/// The number that a row of upper case hexadecimal digits writes.
pub open spec fn hexadecimal_value(s: Seq<char>) -> nat
    decreases s.len(),
{
    if s.len() == 0 {
        0
    } else {
        16 * hexadecimal_value(s.drop_last()) + (if s.last() <= '9' {
            s.last() as int - '0' as int
        } else {
            s.last() as int - 'A' as int + 10
        }) as nat
    }
}

/// Hexadecimal digits count by their places: each is worth sixteen times as much as the same
/// digit to the right of it.
pub proof fn law_hexadecimal_places(a: Seq<char>, c: char)
    requires
        '0' <= c <= '9' || 'A' <= c <= 'F',
    ensures
        hexadecimal_value(a.push(c)) == 16 * hexadecimal_value(a) + (if c <= '9' {
            c as int - 48
        } else {
            c as int - 55
        }),
        hexadecimal_value(Seq::empty()) == 0,
{
    assert(a.push(c).drop_last() =~= a);
}

/// A number is written in the digits `0` to `9` and `A` to `F`, without a zero before them,
/// and read back as the number it is.
pub proof fn law_hexadecimal(n: nat)
    ensures
        hexadecimal_value(hexadecimal(n)) == n,
        hexadecimal(n).len() > 0,
        forall|i: int|
            0 <= i < hexadecimal(n).len() ==> {
                ||| '0' <= #[trigger] hexadecimal(n)[i] <= '9'
                ||| 'A' <= hexadecimal(n)[i] <= 'F'
            },
        n > 0 ==> hexadecimal(n)[0] != '0',
    decreases n,
{
    reveal_with_fuel(hexadecimal_value, 2);
    if n < 16 {
        assert(hexadecimal(n).drop_last() =~= Seq::empty());
    } else {
        law_hexadecimal(n / 16);
        assert(hexadecimal(n).drop_last() =~= hexadecimal(n / 16));
        assert(hexadecimal(n).last() == hex_upper(n % 16));
    }
}

/// The digits of the two cases write the same number: up to nine they are the decimal digits,
/// and above that the letters from `A` and from `a` on.
pub proof fn law_hex_digits(d: nat)
    requires
        d < 16,
    ensures
        d < 10 ==> hex_upper(d) as int == '0' as int + d && hex_lower(d) == hex_upper(d),
        d >= 10 ==> 'A' <= hex_upper(d) <= 'F' && hex_upper(d) as int == 'A' as int + d - 10
            && hex_lower(d) as int == hex_upper(d) as int + 32,
{
}

/// Filling up keeps the whole text, however long it is, and adds spaces behind it up to the
/// width and no further.
pub proof fn law_padded(s: Seq<char>, width: nat)
    ensures
        s.is_prefix_of(padded(s, width)),
        padded(s, width).len() == if s.len() < width {
            width
        } else {
            s.len()
        },
        forall|i: int| s.len() <= i < padded(s, width).len() ==> #[trigger] padded(s, width)[i]
            == ' ',
{
    assert(padded(s, width).take(s.len() as int) =~= s);
}

/// A number in decimal, with a plus before it or without, is read as that number if it is no
/// more than the greatest that is asked for, and not read otherwise. A text that has anything
/// but digits behind an optional plus, or nothing, is not read at all.
pub proof fn law_unsigned(n: nat, max: nat, s: Seq<char>)
    ensures
        unsigned_of(decimal(n), max) == if n <= max {
            Some(n)
        } else {
            None::<nat>
        },
        unsigned_of(seq!['+'] + decimal(n), max) == unsigned_of(decimal(n), max),
        unsigned_of(s, max) matches Some(v) ==> {
            let digits = if s[0] == '+' {
                s.skip(1)
            } else {
                s
            };
            &&& s.len() > 0
            &&& digits.len() > 0
            &&& forall|i: int| 0 <= i < digits.len() ==> '0' <= #[trigger] digits[i] <= '9'
            &&& v == digits_value(digits)
            &&& v <= max
        },
{
    law_decimal(n);
    let d = decimal(n);
    assert(is_digit(d[0]));
    assert((seq!['+'] + d).drop_first() =~= d);
    if unsigned_of(s, max) is Some {
        assert(s.len() > 0);
        assert(s.skip(1) =~= s.drop_first());
        let digits = if s[0] == '+' {
            s.skip(1)
        } else {
            s
        };
        assert(all_digits(digits));
        assert forall|i: int| 0 <= i < digits.len() implies '0' <= #[trigger] digits[i] <= '9' by {
            assert(is_digit(digits[i]));
        }
    }
}

} // verus!
