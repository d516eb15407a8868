//! When a secret may be printed, and in what form.
//!
//! A raw secret reaches the screen only at a terminal where somebody confirms it.
//! Nothing else opens that gate: no flag, no variable of the environment.

use vstd::prelude::*;
use vstd::utf8::*;
use crate::cipher::{md5, md5_digest};
use crate::text::{
    chars_of, contains, hex_lower, hex_lower_digit, join2, occurs, occurs_at, same_text, text_of,
    trim, trimmed,
};

verus! {

/// Which fingerprint of a secret stands in for it. With neither, the raw value is
/// asked for.
#[derive(Debug, Clone, Copy)]
pub struct SecretDisplay {
    pub md5: bool,
    pub last3: bool,
}

impl Default for SecretDisplay {
    fn default() -> (out: Self)
        ensures
            !out.md5,
            !out.last3,
    {
        SecretDisplay { md5: false, last3: false }
    }
}

/// The bytes in lower case hexadecimal, two digits each.
pub open spec fn hex_text(b: Seq<u8>) -> Seq<char>
    decreases b.len(),
{
    if b.len() == 0 {
        Seq::empty()
    } else {
        hex_text(b.drop_last()).push(hex_lower((b.last() / 16) as nat)).push(
            hex_lower((b.last() % 16) as nat),
        )
    }
}

/// Writes the bytes in lower case hexadecimal, two digits each.
pub fn to_hex(b: &Vec<u8>) -> (out: String)
    ensures
        out@ == hex_text(b@),
{
    let mut out = String::new();
    let n: usize = b.len();
    assert(b@.take(0) =~= Seq::empty());
    for i in 0..n
        invariant
            n == b@.len(),
            out@ == hex_text(b@.take(i as int)),
    {
        assert(b@.take(i + 1).drop_last() =~= b@.take(i as int));
        out.push(hex_lower_digit(b[i] / 16));
        out.push(hex_lower_digit(b[i] % 16));
    }
    assert(b@.take(n as int) =~= b@);
    out
}

/// The fingerprint that is always allowed: the MD5 digest in hexadecimal.
pub open spec fn md5_fingerprint(value: Seq<char>) -> Seq<char> {
    hex_text(md5_digest(encode_utf8(value)))
}

/// Whether a text on the screen holds the secret whole.
pub open spec fn gives_away(text: Seq<char>, value: Seq<char>) -> bool {
    value.len() > 0 && occurs(text, value)
}

/// The line that shows the last three characters of a secret.
pub open spec fn tail_line(value: Seq<char>) -> Seq<char> {
    ("..."@ + value.skip(value.len() - 3)).push('\n')
}

/// The fingerprint that shows the last three characters. Where that would show the
/// whole secret, as it would one of three characters or fewer, no character of it is
/// shown; and the dots that stand for it give way to stars if they spell the secret.
pub open spec fn last3_fingerprint(value: Seq<char>) -> Seq<char> {
    if value.len() > 3 && !gives_away(tail_line(value), value) {
        tail_line(value)
    } else if !gives_away("...\n"@, value) {
        "...\n"@
    } else {
        "***"@
    }
}

fn hides(text: &str, value: &str) -> (r: bool)
    ensures
        r == !gives_away(text@, value@),
{
    value.is_empty() || !contains(text, value)
}

fn last3_text(value: &str) -> (out: String)
    ensures
        out@ == last3_fingerprint(value@),
{
    let chars = chars_of(value);
    let n: usize = chars.len();
    if n > 3 {
        let mut line = join2("...", &text_of(&chars[n - 3..n]));
        line.push('\n');
        assert(line@ =~= tail_line(value@));
        if hides(&line, value) {
            return line;
        }
    }
    if hides("...\n", value) {
        "...\n".to_owned()
    } else {
        "***".to_owned()
    }
}

/// How a secret is asked for: with which fingerprint, if any, and whether standard
/// input and standard output are terminals.
#[derive(Debug, Clone, Copy)]
pub struct Gate {
    pub mode: SecretDisplay,
    pub stdin_is_terminal: bool,
    pub stdout_is_terminal: bool,
}

impl Gate {
    /// Whether a fingerprint is asked for in place of the secret.
    pub open spec fn wants_fingerprint(self) -> bool {
        self.mode.md5 || self.mode.last3
    }

    /// Whether somebody at a terminal can confirm the reveal.
    pub open spec fn is_interactive(self) -> bool {
        self.stdin_is_terminal && self.stdout_is_terminal
    }
}

/// The text that is printed for the flags in place of the secret.
pub open spec fn fingerprint_of(value: Seq<char>, mode: SecretDisplay) -> Seq<char> {
    if mode.md5 {
        md5_fingerprint(value).push('\n')
    } else {
        last3_fingerprint(value)
    }
}

/// The text that the flags ask for in place of the secret; `None` if they ask for none.
pub fn fingerprint(value: &str, mode: SecretDisplay) -> (out: Option<String>)
    ensures
        match out {
            Some(text) => (mode.md5 || mode.last3) && text@ == fingerprint_of(value@, mode),
            None => !mode.md5 && !mode.last3,
        },
{
    if mode.md5 {
        let mut text = to_hex(&md5(value.as_bytes()));
        text.push('\n');
        return Some(text);
    }
    if mode.last3 {
        return Some(last3_text(value));
    }
    None
}

/// What becomes of a request to print a secret.
pub enum Reveal {
    /// Print this text in place of the secret.
    Fingerprint(String),
    /// Ask the operator to confirm; [`confirm`] says what follows.
    Ask,
    /// Standard input or output is no terminal: print nothing.
    Refuse,
}

/// Whether the operator must be asked before the secret is printed.
pub fn must_ask(gate: Gate) -> (r: bool)
    ensures
        r == (!gate.wants_fingerprint() && gate.is_interactive()),
{
    !gate.mode.md5 && !gate.mode.last3 && gate.stdin_is_terminal && gate.stdout_is_terminal
}

/// Decides how the secret `value` is printed. A fingerprint goes anywhere; for the
/// raw value both ends must be a terminal, and then the operator is asked.
pub fn emit_secret(value: &str, gate: Gate) -> (out: Reveal)
    ensures
        match out {
            Reveal::Fingerprint(text) => gate.wants_fingerprint() && text@ == fingerprint_of(
                value@,
                gate.mode,
            ),
            Reveal::Ask => !gate.wants_fingerprint() && gate.is_interactive(),
            Reveal::Refuse => !gate.wants_fingerprint() && !gate.is_interactive(),
        },
{
    if let Some(text) = fingerprint(value, gate.mode) {
        return Reveal::Fingerprint(text);
    }
    if must_ask(gate) {
        Reveal::Ask
    } else {
        Reveal::Refuse
    }
}

/// Whether the operator's answer confirms the reveal: the word `yes`, with any
/// whitespace around it.
pub open spec fn confirms(answer: Seq<char>) -> bool {
    trimmed(answer) == "yes"@
}

/// Whether the operator's answer confirms the reveal.
pub fn confirm(answer: &str) -> (r: bool)
    ensures
        r == confirms(answer@),
{
    same_text(&trim(answer), "yes")
}

/// Why a secret was not printed.
#[derive(Debug, Clone, Copy, PartialEq, Eq, Structural)]
pub enum RevealError {
    /// Standard input or output is no terminal.
    Refused,
    /// The operator did not confirm.
    Aborted,
}

/// What is printed of a secret, given what the operator types if asked; or why nothing
/// is.
pub open spec fn shown(value: Seq<char>, gate: Gate, answer: Seq<char>) -> Result<
    Seq<char>,
    RevealError,
> {
    if gate.wants_fingerprint() {
        Ok(fingerprint_of(value, gate.mode))
    } else if !gate.is_interactive() {
        Err(RevealError::Refused)
    } else if !confirms(answer) {
        Err(RevealError::Aborted)
    } else {
        Ok(value)
    }
}

/// Whether `out` is what is printed of a secret, or why nothing is.
pub open spec fn is_shown(
    out: Result<String, RevealError>,
    value: Seq<char>,
    gate: Gate,
    answer: Seq<char>,
) -> bool {
    match out {
        Ok(text) => {
            &&& shown(value, gate, answer) == Ok::<Seq<char>, RevealError>(text@)
            &&& text@ == printed(value, gate, answer)
        },
        Err(e) => {
            &&& shown(value, gate, answer) == Err::<Seq<char>, RevealError>(e)
            &&& printed(value, gate, answer).len() == 0
        },
    }
}

/// Everything that a request to print a secret writes to standard output.
pub open spec fn printed(value: Seq<char>, gate: Gate, answer: Seq<char>) -> Seq<char> {
    match shown(value, gate, answer) {
        Ok(text) => text,
        Err(_) => Seq::empty(),
    }
}

/// What is printed of a secret, given what the operator typed where [`emit_secret`] had
/// to ask; or why nothing is.
pub fn show_secret(value: &str, gate: Gate, answer: &str) -> (out: Result<String, RevealError>)
    ensures
        is_shown(out, value@, gate, answer@),
{
    match emit_secret(value, gate) {
        Reveal::Fingerprint(text) => Ok(text),
        Reveal::Refuse => Err(RevealError::Refused),
        Reveal::Ask => if confirm(answer) {
            Ok(value.to_owned())
        } else {
            Err(RevealError::Aborted)
        },
    }
}

/// Without a terminal at both ends, or without the typed confirmation, what is printed
/// of a secret depends on its two fingerprints alone: two secrets that agree on these
/// are printed alike, whatever the flags.
pub proof fn law_no_raw_secret_without_confirmation(
    value: Seq<char>,
    other: Seq<char>,
    gate: Gate,
    answer: Seq<char>,
)
    requires
        !(gate.is_interactive() && confirms(answer)),
        md5_fingerprint(value) == md5_fingerprint(other),
        last3_fingerprint(value) == last3_fingerprint(other),
    ensures
        printed(value, gate, answer) == printed(other, gate, answer),
{
}

/// No flag forces the raw value out: without a terminal at both ends, a request without
/// a fingerprint is refused and prints nothing, and a request with one prints the
/// fingerprint and nothing more.
pub proof fn law_no_override(value: Seq<char>, gate: Gate, answer: Seq<char>)
    requires
        !gate.is_interactive(),
    ensures
        if gate.wants_fingerprint() {
            printed(value, gate, answer) == fingerprint_of(value, gate.mode)
        } else {
            &&& shown(value, gate, answer) == Err::<Seq<char>, RevealError>(RevealError::Refused)
            &&& printed(value, gate, answer) == Seq::<char>::empty()
        },
{
}

/// The flag for the last three characters never prints the secret itself, be it ever so
/// short.
pub proof fn law_last3_never_prints_the_secret(value: Seq<char>, gate: Gate, answer: Seq<char>)
    requires
        gate.mode.last3,
        !gate.mode.md5,
        value.len() > 0,
    ensures
        !occurs(printed(value, gate, answer), value),
{
    let dots = "...\n"@;
    let stars = "***"@;
    reveal_strlit("...\n");
    reveal_strlit("***");
    if occurs(dots, value) && occurs(stars, value) {
        let i = choose|i: int| occurs_at(dots, value, i);
        let j = choose|j: int| occurs_at(stars, value, j);
        assert(value[0] == dots[i]) by {
            assert(dots.subrange(i, i + value.len())[0] == dots[i]);
        }
        assert(value[0] == stars[j]) by {
            assert(stars.subrange(j, j + value.len())[0] == stars[j]);
        }
    }
}

/// Of a secret of more than three characters the flag shows the last three and no more: three
/// dots, these characters and a line feed, unless that line would hold the whole secret. Then,
/// and for a shorter secret, the line says nothing of it: it is the dots alone, or three stars
/// where the dots would hold the secret.
pub proof fn law_last3_shows_three_characters(value: Seq<char>)
    ensures
        ({
            let out = last3_fingerprint(value);
            let tail = value.skip(value.len() - 3);
            let line = seq!['.', '.', '.'] + tail + seq!['\n'];
            let dots = seq!['.', '.', '.', '\n'];
            &&& value.len() > 3 && !occurs(line, value) ==> {
                &&& out.len() == 7
                &&& out.take(3) == seq!['.', '.', '.']
                &&& out.subrange(3, 6) == tail
                &&& out[6] == '\n'
            }
            &&& value.len() <= 3 || occurs(line, value) ==> out == if value.len() == 0 || !occurs(
                dots,
                value,
            ) {
                dots
            } else {
                seq!['*', '*', '*']
            }
            &&& out.len() <= 7
        }),
{
    reveal_strlit("...");
    reveal_strlit("...\n");
    reveal_strlit("***");
    let tail = value.skip(value.len() - 3);
    assert("..."@ =~= seq!['.', '.', '.']);
    assert("...\n"@ =~= seq!['.', '.', '.', '\n']);
    assert("***"@ =~= seq!['*', '*', '*']);
    if value.len() > 3 {
        let line = tail_line(value);
        assert(line =~= seq!['.', '.', '.'] + tail + seq!['\n']);
        assert(line.take(3) =~= seq!['.', '.', '.']);
        assert(line.subrange(3, 6) =~= tail);
    }
}

/// Secrets that agree in their last three characters look alike, however else they differ and
/// however long they are.
pub proof fn law_last3_depends_on_the_tail(value: Seq<char>, other: Seq<char>)
    requires
        value.len() > 3,
        other.len() > 3,
        value[value.len() - 1] == other[other.len() - 1],
        value[value.len() - 2] == other[other.len() - 2],
        value[value.len() - 3] == other[other.len() - 3],
        !occurs(seq!['.', '.', '.'] + value.skip(value.len() - 3) + seq!['\n'], value),
        !occurs(seq!['.', '.', '.'] + other.skip(other.len() - 3) + seq!['\n'], other),
    ensures
        last3_fingerprint(value) == last3_fingerprint(other),
{
    let tail = value.skip(value.len() - 3);
    assert(other.skip(other.len() - 3) =~= tail);
    lemma_last3_line(value, tail);
    lemma_last3_line(other, tail);
}

proof fn lemma_last3_line(value: Seq<char>, tail: Seq<char>)
    requires
        value.len() > 3,
        tail == value.skip(value.len() - 3),
        !occurs(seq!['.', '.', '.'] + tail + seq!['\n'], value),
    ensures
        last3_fingerprint(value) == seq!['.', '.', '.'] + tail + seq!['\n'],
{
    reveal_strlit("...");
    assert("..."@ =~= seq!['.', '.', '.']);
    assert(tail_line(value) =~= seq!['.', '.', '.'] + tail + seq!['\n']);
}

/// Whether two characters are the lower case hexadecimal digits of a byte.
pub open spec fn are_digits_of(high: char, low: char, b: u8) -> bool {
    &&& '0' <= high <= '9' || 'a' <= high <= 'f'
    &&& '0' <= low <= '9' || 'a' <= low <= 'f'
    &&& b == 16 * (high as int - if high <= '9' {
        48int
    } else {
        87
    }) + (low as int - if low <= '9' {
        48int
    } else {
        87
    })
}

/// Bytes are written as two lower case hexadecimal digits each, in order, which write the byte.
pub proof fn law_hex_text(b: Seq<u8>)
    ensures
        hex_text(b).len() == 2 * b.len(),
        forall|i: int|
            0 <= i < b.len() ==> are_digits_of(
                hex_text(b)[2 * i],
                hex_text(b)[2 * i + 1],
                #[trigger] b[i],
            ),
    decreases b.len(),
{
    if b.len() > 0 {
        let less = b.drop_last();
        law_hex_text(less);
        let n = less.len() as int;
        assert forall|i: int| 0 <= i < b.len() implies are_digits_of(
            hex_text(b)[2 * i],
            hex_text(b)[2 * i + 1],
            #[trigger] b[i],
        ) by {
            if i < n {
                assert(hex_text(b)[2 * i] == hex_text(less)[2 * i]);
                assert(hex_text(b)[2 * i + 1] == hex_text(less)[2 * i + 1]);
                assert(b[i] == less[i]);
            } else {
                assert(hex_text(b)[2 * i] == hex_lower((b.last() / 16) as nat));
                assert(hex_text(b)[2 * i + 1] == hex_lower((b.last() % 16) as nat));
            }
        }
    }
}

/// What a request to print a secret writes, by its flags and the two ends. A flag stands in
/// for the secret anywhere and without a question, the digest before the last three
/// characters: the digest is the MD5 of the bytes of the whole secret, on a line. Without a
/// flag the secret itself is written, to the character, if both ends are terminals and the
/// answer is `yes` but for whitespace around it; if an end is no terminal the request is
/// refused whatever the answer is, and else it is aborted.
pub proof fn law_what_is_printed(value: Seq<char>, gate: Gate, answer: Seq<char>)
    ensures
        gate.mode.md5 ==> shown(value, gate, answer) == Ok::<Seq<char>, RevealError>(
            hex_text(md5_digest(encode_utf8(value))) + seq!['\n'],
        ),
        !gate.mode.md5 && gate.mode.last3 ==> shown(value, gate, answer) == Ok::<
            Seq<char>,
            RevealError,
        >(last3_fingerprint(value)),
        !gate.mode.md5 && !gate.mode.last3 && !(gate.stdin_is_terminal && gate.stdout_is_terminal)
            ==> shown(value, gate, answer) == Err::<Seq<char>, RevealError>(RevealError::Refused),
        !gate.mode.md5 && !gate.mode.last3 && gate.stdin_is_terminal && gate.stdout_is_terminal
            ==> shown(value, gate, answer) == if trimmed(answer) == seq!['y', 'e', 's'] {
            Ok::<Seq<char>, RevealError>(value)
        } else {
            Err::<Seq<char>, RevealError>(RevealError::Aborted)
        },
        match shown(value, gate, answer) {
            Ok(text) => printed(value, gate, answer) == text,
            Err(_) => printed(value, gate, answer).len() == 0,
        },
{
    reveal_strlit("yes");
    assert("yes"@ =~= seq!['y', 'e', 's']);
    let digest = hex_text(md5_digest(encode_utf8(value)));
    assert(digest.push('\n') =~= digest + seq!['\n']);
}

/// What is handed to the screen is what the request writes: a text if there is one, to the
/// character, and else the reason why there is none.
pub proof fn law_is_shown(
    out: Result<String, RevealError>,
    value: Seq<char>,
    gate: Gate,
    answer: Seq<char>,
)
    requires
        is_shown(out, value, gate, answer),
    ensures
        out matches Ok(text) ==> shown(value, gate, answer) == Ok::<Seq<char>, RevealError>(text@),
        out matches Err(e) ==> shown(value, gate, answer) == Err::<Seq<char>, RevealError>(e),
        out matches Ok(text) ==> (!gate.mode.md5 && !gate.mode.last3 ==> text@ == value
            && gate.stdin_is_terminal && gate.stdout_is_terminal && trimmed(answer) == seq![
            'y',
            'e',
            's',
        ]),
        gate.mode.md5 || gate.mode.last3 ==> out is Ok,
{
    law_what_is_printed(value, gate, answer);
}

} // verus!
