//! Guessing whether the program was started by the shell tool of a coding agent, for
//! its own sake and not as a part of a larger command.
//!
//! This is a hint and no security boundary: the environment and the command line of
//! the parent process are easily changed. What guards a secret is
//! [`crate::secret_display`].

use vstd::prelude::*;
use vstd::utf8::*;
use crate::encoding::{text_lossy, utf8_lossy};
use crate::text::{
    chars_of, contains, decimal, find, is_blank, is_digit, joined_with, law_decimal,
    law_trim_of_padded, law_unsigned, lines, lines_of, occurs, occurs_at, occurs_first,
    parse_unsigned, same_text, strip_prefix, text_of, trim, trimmed, unsigned_of, views,
};

verus! {

// ── The environment ─────────────────────────────────────────────────────────
/// The variables that the harnesses of coding agents are reported to set.
pub open spec fn is_agent_marker(name: Seq<char>) -> bool {
    ||| name == "CLAUDE_CODE_CHILD_SESSION"@
    ||| name == "CLAUDECODE"@
    ||| name == "OPENCODE_CLIENT"@
    ||| name == "CURSOR_AGENT"@
    ||| name == "CLINE_ACTIVE"@
    ||| name == "GEMINI_CLI"@
    ||| name == "CODEX_SANDBOX"@
    ||| name == "AGENT"@
}

fn agent_marker(name: &str) -> (r: bool)
    ensures
        r == is_agent_marker(name@),
{
    same_text(name, "CLAUDE_CODE_CHILD_SESSION") || same_text(name, "CLAUDECODE") || same_text(
        name,
        "OPENCODE_CLIENT",
    ) || same_text(name, "CURSOR_AGENT") || same_text(name, "CLINE_ACTIVE") || same_text(
        name,
        "GEMINI_CLI",
    ) || same_text(name, "CODEX_SANDBOX") || same_text(name, "AGENT")
}

/// Whether one of the variables is a marker of an agent.
pub open spec fn has_agent_marker(names: Seq<String>) -> bool {
    exists|i: int| 0 <= i < names.len() && is_agent_marker((#[trigger] names[i])@)
}

/// Whether one of the variables that are set is a marker of an agent.
pub fn is_agent_environment(names: &Vec<String>) -> (r: bool)
    ensures
        r == has_agent_marker(names@),
{
    let n: usize = names.len();
    for i in 0..n
        invariant
            n == names@.len(),
            forall|j: int| 0 <= j < i ==> !is_agent_marker((#[trigger] names@[j])@),
    {
        if agent_marker(&names[i]) {
            return true;
        }
    }
    false
}

// ── The parent process ──────────────────────────────────────────────────────
/// Whether the first line of `lines` with the label of the parent process is the one
/// at position `i`.
pub open spec fn first_parent_line(lines: Seq<Seq<char>>, i: int) -> bool {
    &&& 0 <= i < lines.len()
    &&& "PPid:"@.is_prefix_of(lines[i])
    &&& forall|j: int| 0 <= j < i ==> !"PPid:"@.is_prefix_of(#[trigger] lines[j])
}

/// Whether `pid` is the parent that the text of a process status names, or `None`
/// where it names none.
pub open spec fn is_parent_pid(status: Seq<char>, pid: Option<u32>) -> bool {
    let lines = lines_of(status);
    if exists|i: int| first_parent_line(lines, i) {
        exists|i: int| #[trigger]
            first_parent_line(lines, i) && unsigned_of(
                trimmed(lines[i].skip("PPid:"@.len() as int)),
                u32::MAX as nat,
            ) == match pid {
                Some(p) => Some(p as nat),
                None => None,
            }
    } else {
        pid is None
    }
}

/// The parent that the text of a process status names.
pub fn parent_pid(status: &str) -> (out: Option<u32>)
    ensures
        is_parent_pid(status@, out),
{
    let all = lines(status);
    let n: usize = all.len();
    let ghost want = lines_of(status@);
    assert(want.len() == all@.len());
    for i in 0..n
        invariant
            n == all@.len(),
            want == views(all@),
            want.len() == all@.len(),
            want == lines_of(status@),
            forall|j: int| 0 <= j < i ==> !"PPid:"@.is_prefix_of(#[trigger] want[j]),
    {
        assert(want[i as int] == all@[i as int]@);
        if let Some(rest) = strip_prefix(&all[i], "PPid:") {
            assert(first_parent_line(want, i as int));
            return match parse_unsigned(&trim(&rest), u32::MAX as u64) {
                Some(p) => Some(p as u32),
                None => None,
            };
        }
    }
    None
}

/// The pieces of `b` between its zero bytes.
pub open spec fn split_at_nul(b: Seq<u8>) -> Seq<Seq<u8>>
    decreases b.len(),
{
    if b.len() == 0 {
        seq![Seq::empty()]
    } else {
        let before = split_at_nul(b.drop_last());
        if b.last() == 0 {
            before.push(Seq::empty())
        } else {
            before.drop_last().push(before.last().push(b.last()))
        }
    }
}

/// The pieces that hold anything, as texts.
pub open spec fn words_of(pieces: Seq<Seq<u8>>) -> Seq<Seq<char>>
    decreases pieces.len(),
{
    if pieces.len() == 0 {
        Seq::empty()
    } else {
        let before = words_of(pieces.drop_last());
        if pieces.last().len() == 0 {
            before
        } else {
            before.push(utf8_lossy(pieces.last()))
        }
    }
}

/// The pieces that hold anything, each as the text that it is the UTF-8 of.
pub open spec fn decoded_words_of(pieces: Seq<Seq<u8>>) -> Seq<Seq<char>>
    decreases pieces.len(),
{
    if pieces.len() == 0 {
        Seq::empty()
    } else {
        let before = decoded_words_of(pieces.drop_last());
        if pieces.last().len() == 0 {
            before
        } else {
            before.push(decode_utf8(pieces.last()))
        }
    }
}

/// Whether each of the pieces is UTF-8.
pub open spec fn all_utf8(pieces: Seq<Seq<u8>>) -> bool {
    forall|i: int| 0 <= i < pieces.len() ==> valid_utf8(#[trigger] pieces[i])
}

/// The words with a space between each two.
pub open spec fn spaced(words: Seq<Seq<char>>) -> Seq<char>
    decreases words.len(),
{
    if words.len() == 0 {
        Seq::empty()
    } else if words.len() == 1 {
        words[0]
    } else {
        spaced(words.drop_last()).push(' ') + words.last()
    }
}

/// Whether `b` holds nothing but zero bytes.
pub open spec fn only_nul(b: Seq<u8>) -> bool {
    forall|i: int| 0 <= i < b.len() ==> #[trigger] b[i] == 0
}

proof fn lemma_only_nul_push(b: Seq<u8>, i: int)
    requires
        0 <= i < b.len(),
    ensures
        only_nul(b.take(i + 1)) <==> only_nul(b.take(i)) && b[i] == 0,
{
    if only_nul(b.take(i + 1)) {
        assert(b.take(i + 1)[i] == 0);
        assert forall|j: int| 0 <= j < i implies #[trigger] b.take(i)[j] == 0 by {
            assert(b.take(i + 1)[j] == 0);
        }
    }
    if only_nul(b.take(i)) && b[i] == 0 {
        assert forall|j: int| 0 <= j < i + 1 implies #[trigger] b.take(i + 1)[j] == 0 by {
            if j < i {
                assert(b.take(i)[j] == 0);
            }
        }
    }
}

/// The bytes of several pieces.
pub open spec fn byte_views(list: Seq<Vec<u8>>) -> Seq<Seq<u8>> {
    list.map_values(|v: Vec<u8>| v@)
}

fn split_nul(raw: &[u8]) -> (out: Vec<Vec<u8>>)
    ensures
        byte_views(out@) == split_at_nul(raw@),
        forall|i: int| 0 <= i < out@.len() ==> !(#[trigger] out@[i])@.contains(0),
        (forall|i: int| 0 <= i < out@.len() ==> (#[trigger] out@[i])@.len() == 0) <==> only_nul(
            raw@,
        ),
{
    let n: usize = raw.len();
    let mut out: Vec<Vec<u8>> = Vec::new();
    let mut piece: Vec<u8> = Vec::new();
    assert(split_at_nul(raw@.take(0)) =~= byte_views(out@).push(piece@));
    for i in 0..n
        invariant
            n == raw@.len(),
            split_at_nul(raw@.take(i as int)) == byte_views(out@).push(piece@),
            !piece@.contains(0),
            forall|j: int| 0 <= j < out@.len() ==> !(#[trigger] out@[j])@.contains(0),
            (piece@.len() == 0 && forall|j: int|
                0 <= j < out@.len() ==> (#[trigger] out@[j])@.len() == 0) <==> only_nul(
                raw@.take(i as int),
            ),
    {
        let b: u8 = raw[i];
        proof {
            let upto = raw@.take(i + 1);
            assert(upto.drop_last() =~= raw@.take(i as int));
            assert(upto.last() == b);
            assert(byte_views(out@).push(piece@).drop_last() =~= byte_views(out@));
            lemma_only_nul_push(raw@, i as int);
        }
        let ghost out_before = out@;
        let ghost piece_before = piece@;
        if b == 0 {
            assert(byte_views(out@.push(piece)) =~= byte_views(out@).push(piece@));
            out.push(piece);
            piece = Vec::new();
            proof {
                assert(out@.last()@ == piece_before);
                assert forall|j: int| 0 <= j < out_before.len() implies out_before[j]
                    == #[trigger] out@[j] by {}
                if forall|j: int| 0 <= j < out@.len() ==> (#[trigger] out@[j])@.len() == 0 {
                    assert(out@[out_before.len() as int]@.len() == 0);
                    assert forall|j: int| 0 <= j < out_before.len() implies (
                    #[trigger] out_before[j])@.len() == 0 by {
                        assert(out@[j]@.len() == 0);
                    }
                }
            }
        } else {
            piece.push(b);
            assert(piece@.len() > 0);
        }
    }
    assert(raw@.take(n as int) =~= raw@);
    let ghost out_before = out@;
    let ghost piece_before = piece@;
    assert(byte_views(out@.push(piece)) =~= byte_views(out@).push(piece@));
    out.push(piece);
    proof {
        assert(out@.last()@ == piece_before);
        if forall|j: int| 0 <= j < out@.len() ==> (#[trigger] out@[j])@.len() == 0 {
            assert(out@[out_before.len() as int]@.len() == 0);
            assert forall|j: int| 0 <= j < out_before.len() implies (#[trigger] out_before[j])@.len()
                == 0 by {
                assert(out@[j]@.len() == 0);
            }
        }
    }
    out
}

fn to_words(pieces: &Vec<Vec<u8>>) -> (out: Vec<String>)
    ensures
        views(out@) == words_of(byte_views(pieces@)),
        all_utf8(byte_views(pieces@)) ==> views(out@) == decoded_words_of(byte_views(pieces@)),
        out@.len() == 0 <==> forall|i: int|
            0 <= i < pieces@.len() ==> (#[trigger] pieces@[i])@.len() == 0,
        forall|i: int| 0 <= i < out@.len() ==> (#[trigger] out@[i])@.len() > 0,
        (forall|i: int| 0 <= i < pieces@.len() ==> !(#[trigger] pieces@[i])@.contains(0))
            ==> forall|i: int| 0 <= i < out@.len() ==> !(#[trigger] out@[i])@.contains('\0'),
{
    let n: usize = pieces.len();
    let ghost all = byte_views(pieces@);
    let mut out: Vec<String> = Vec::new();
    assert(all.take(0) =~= Seq::empty());
    assert(views(out@) =~= Seq::empty());
    for i in 0..n
        invariant
            n == pieces@.len(),
            all == byte_views(pieces@),
            views(out@) == words_of(all.take(i as int)),
            all_utf8(all) ==> views(out@) == decoded_words_of(all.take(i as int)),
            out@.len() == 0 <==> forall|j: int|
                0 <= j < i ==> (#[trigger] pieces@[j])@.len() == 0,
            forall|j: int| 0 <= j < out@.len() ==> (#[trigger] out@[j])@.len() > 0,
            (forall|j: int| 0 <= j < pieces@.len() ==> !(#[trigger] pieces@[j])@.contains(0))
                ==> forall|j: int| 0 <= j < out@.len() ==> !(#[trigger] out@[j])@.contains('\0'),
    {
        proof {
            assert(all.take(i + 1).drop_last() =~= all.take(i as int));
            assert(all[i as int] == pieces@[i as int]@);
        }
        if pieces[i].len() > 0 {
            let word = text_lossy(&pieces[i]);
            assert(views(out@.push(word)) =~= views(out@).push(word@));
            out.push(word);
        }
    }
    assert(all.take(n as int) =~= all);
    out
}

/// The words as one command line; `None` if that is empty.
pub fn command_line(words: &Vec<String>) -> (out: Option<String>)
    ensures
        match out {
            Some(s) => s@ == spaced(views(words@)) && s@.len() > 0,
            None => spaced(views(words@)).len() == 0,
        },
{
    let n: usize = words.len();
    let ghost all = views(words@);
    let mut out = String::new();
    assert(all.take(0) =~= Seq::empty());
    for i in 0..n
        invariant
            n == words@.len(),
            all == views(words@),
            out@ == spaced(all.take(i as int)),
    {
        proof {
            assert(all.take(i + 1).drop_last() =~= all.take(i as int));
            assert(all[i as int] == words@[i as int]@);
        }
        if i > 0 {
            out.push(' ');
        }
        let ghost before = out@;
        out.append(&words[i]);
        assert(i == 0 ==> before + words@[0]@ =~= words@[0]@);
    }
    assert(all.take(n as int) =~= all);
    if out.as_str().is_empty() {
        None
    } else {
        Some(out)
    }
}

/// The command line of a process, from the bytes in which the system gives it: its
/// arguments, each with a zero byte behind it. `None` if there is nothing but zero
/// bytes.
pub fn parent_cmdline(raw: &[u8]) -> (out: Option<String>)
    ensures
        match out {
            Some(s) => {
                &&& s@ == spaced(words_of(split_at_nul(raw@)))
                &&& all_utf8(split_at_nul(raw@)) ==> s@ == spaced(
                    decoded_words_of(split_at_nul(raw@)),
                )
                &&& s@.len() > 0
                &&& !s@.contains('\0')
                &&& !only_nul(raw@)
            },
            None => only_nul(raw@),
        },
{
    let words = to_words(&split_nul(raw));
    proof {
        let all = views(words@);
        assert forall|i: int| 0 <= i < all.len() implies (#[trigger] all[i]).len() > 0
            && !all[i].contains('\0') by {
            assert(all[i] == words@[i]@);
        }
        lemma_spaced(all);
    }
    command_line(&words)
}

proof fn lemma_spaced(words: Seq<Seq<char>>)
    requires
        forall|i: int|
            0 <= i < words.len() ==> (#[trigger] words[i]).len() > 0 && !words[i].contains('\0'),
    ensures
        spaced(words).len() == 0 <==> words.len() == 0,
        !spaced(words).contains('\0'),
    decreases words.len(),
{
    if words.len() == 1 {
        assert(words[0].len() > 0);
    } else if words.len() > 1 {
        let before = words.drop_last();
        assert forall|i: int| 0 <= i < before.len() implies (#[trigger] before[i]).len() > 0
            && !before[i].contains('\0') by {
            assert(before[i] == words[i]);
        }
        lemma_spaced(before);
        let head = spaced(before);
        let last = words.last();
        assert(!words[words.len() - 1].contains('\0'));
        assert forall|i: int| 0 <= i < spaced(words).len() implies spaced(words)[i] != '\0' by {
            if i < head.len() {
                assert(head.contains(head[i]));
            } else if i > head.len() {
                assert(last.contains(last[i - head.len() - 1]));
            }
        }
    }
}

// ── The command ─────────────────────────────────────────────────────────────
/// A text without the quotes around it, if it has one at each end.
pub open spec fn unquoted(s: Seq<char>) -> Seq<char> {
    if s.len() >= 2 && s.first() == '\'' && s.last() == '\'' {
        s.subrange(1, s.len() - 1)
    } else {
        s
    }
}

/// What one agent's shell tool puts behind a command that it evaluates.
pub open spec fn eval_suffix() -> Seq<char> {
    " < /dev/null && pwd -P"@
}

/// What one agent's shell tool puts before a command that it evaluates.
pub open spec fn eval_prefix() -> Seq<char> {
    "&& eval "@
}

/// Whether `inner` is the command that a command line of the shape
/// `… && eval '<command>' < /dev/null && pwd -P …` evaluates.
pub open spec fn is_evaluated(cmdline: Seq<char>, inner: Seq<char>) -> bool {
    exists|end: int, start: int|
        {
            &&& #[trigger] occurs_first(cmdline, eval_suffix(), end)
            &&& #[trigger] occurs_first(cmdline.take(end), eval_prefix(), start)
            &&& inner == unquoted(
                trimmed(cmdline.take(end).skip(start + eval_prefix().len())),
            )
        }
}

/// Whether a command line has that shape.
pub open spec fn has_evaluated(cmdline: Seq<char>) -> bool {
    exists|end: int|
        #[trigger] occurs_first(cmdline, eval_suffix(), end) && occurs(
            cmdline.take(end),
            eval_prefix(),
        )
}

fn unquote(s: &str) -> (out: String)
    ensures
        out@ == unquoted(s@),
{
    let chars = chars_of(s);
    let n: usize = chars.len();
    if n >= 2 && chars[0] == '\'' && chars[n - 1] == '\'' {
        text_of(&chars[1..n - 1])
    } else {
        s.to_owned()
    }
}

/// One agent's shell tool wraps every command that it runs in commands of its own,
/// whose metacharacters say nothing of the command. This takes the whole command out
/// of the wrapping, from where the wrapping begins, though the command may hold the
/// same words; `None` if there is none of this shape.
pub fn unwrap_claude_code_bash_tool(cmdline: &str) -> (out: Option<String>)
    ensures
        match out {
            Some(inner) => has_evaluated(cmdline@) && is_evaluated(cmdline@, inner@),
            None => !has_evaluated(cmdline@),
        },
{
    let chars = chars_of(cmdline);
    let suffix = chars_of(" < /dev/null && pwd -P");
    let eval = chars_of("&& eval ");
    let end: usize = match find(&chars, &suffix) {
        Some(end) => end,
        None => {
            proof {
                assert forall|end: int| !#[trigger] occurs_first(
                    cmdline@,
                    eval_suffix(),
                    end,
                ) by {
                    assert(!occurs_at(cmdline@, eval_suffix(), end));
                }
            }
            return None;
        },
    };
    let prefix = chars_of(&text_of(&chars[0..end]));
    assert(prefix@ =~= cmdline@.take(end as int));
    match find(&prefix, &eval) {
        Some(at) => {
            let start: usize = at + eval.len();
            let n: usize = prefix.len();
            let rest = text_of(&prefix[start..n]);
            assert(rest@ =~= prefix@.skip(at + eval_prefix().len()));
            assert(occurs_first(cmdline@, eval_suffix(), end as int));
            assert(occurs_first(cmdline@.take(end as int), eval_prefix(), at as int));
            assert(occurs_at(cmdline@.take(end as int), eval_prefix(), at as int));
            Some(unquote(&trim(&rest)))
        },
        None => {
            proof {
                assert forall|other: int| #[trigger] occurs_first(
                    cmdline@,
                    eval_suffix(),
                    other,
                ) implies !occurs(cmdline@.take(other), eval_prefix()) by {
                    assert(occurs_at(cmdline@, eval_suffix(), end as int));
                    assert(occurs_at(cmdline@, eval_suffix(), other));
                    assert(other == end);
                }
            }
            None
        },
    }
}

/// Whether a command holds a character that makes it more than a single command.
pub open spec fn has_metacharacter(command: Seq<char>) -> bool {
    ||| occurs(command, "$("@)
    ||| occurs(command, "`"@)
    ||| occurs(command, "|"@)
    ||| occurs(command, "&&"@)
    ||| occurs(command, ";"@)
    ||| occurs(command, ">"@)
    ||| occurs(command, "<"@)
    ||| occurs(command, "&"@)
}

fn metacharacter(command: &str) -> (r: bool)
    ensures
        r == has_metacharacter(command@),
{
    contains(command, "$(") || contains(command, "`") || contains(command, "|") || contains(
        command,
        "&&",
    ) || contains(command, ";") || contains(command, ">") || contains(command, "<") || contains(
        command,
        "&",
    )
}

/// Whether the command line of the parent process is a single command: what the shell
/// tool evaluates, or else the whole of it, has no metacharacters. Not so if the
/// command line is not known.
pub open spec fn is_bare(cmdline: Option<Seq<char>>) -> bool {
    match cmdline {
        None => false,
        Some(c) => if has_evaluated(c) {
            forall|inner: Seq<char>| #[trigger] is_evaluated(c, inner) ==> !has_metacharacter(inner)
        } else {
            !has_metacharacter(c)
        },
    }
}

proof fn lemma_evaluated_once(cmdline: Seq<char>, a: Seq<char>, b: Seq<char>)
    requires
        is_evaluated(cmdline, a),
        is_evaluated(cmdline, b),
    ensures
        a == b,
{
    let (end1, start1) = choose|end: int, start: int|
        {
            &&& #[trigger] occurs_first(cmdline, eval_suffix(), end)
            &&& #[trigger] occurs_first(cmdline.take(end), eval_prefix(), start)
            &&& a == unquoted(trimmed(cmdline.take(end).skip(start + eval_prefix().len())))
        };
    let (end2, start2) = choose|end: int, start: int|
        {
            &&& #[trigger] occurs_first(cmdline, eval_suffix(), end)
            &&& #[trigger] occurs_first(cmdline.take(end), eval_prefix(), start)
            &&& b == unquoted(trimmed(cmdline.take(end).skip(start + eval_prefix().len())))
        };
    assert(occurs_at(cmdline, eval_suffix(), end1) && occurs_at(cmdline, eval_suffix(), end2));
    assert(end1 == end2);
    assert(occurs_at(cmdline.take(end1), eval_prefix(), start1));
    assert(occurs_at(cmdline.take(end1), eval_prefix(), start2));
    assert(start1 == start2);
}

/// Whether the command line of the parent process, where it is known, is a single
/// command.
pub fn is_bare_invocation(cmdline: Option<&str>) -> (r: bool)
    ensures
        r == is_bare(
            match cmdline {
                Some(c) => Some(c@),
                None => None,
            },
        ),
{
    match cmdline {
        None => false,
        Some(c) => match unwrap_claude_code_bash_tool(c) {
            Some(inner) => {
                let r = !metacharacter(&inner);
                proof {
                    assert forall|other: Seq<char>| #[trigger]
                        is_evaluated(c@, other) implies other == inner@ by {
                        lemma_evaluated_once(c@, other, inner@);
                    }
                }
                r
            },
            None => !metacharacter(c),
        },
    }
}

/// Whether to point out that a secret is about to be read into an agent's context:
/// an agent's variable is set, and the program was run for its own sake.
pub fn should_nudge(names: &Vec<String>, cmdline: Option<&str>) -> (r: bool)
    ensures
        r == (has_agent_marker(names@) && is_bare(
            match cmdline {
                Some(c) => Some(c@),
                None => None,
            },
        )),
{
    is_agent_environment(names) && is_bare_invocation(cmdline)
}

proof fn lemma_trim_quoted(s: Seq<char>)
    requires
        s.len() > 0,
        s.first() == '\'',
        s.last() == '\'',
    ensures
        trimmed(s) == s,
{
}

proof fn lemma_first_in_longer(s: Seq<char>, part: Seq<char>, i: int, rest: Seq<char>)
    requires
        occurs_first(s, part, i),
        i + part.len() == s.len(),
    ensures
        occurs_first(s + rest, part, i),
{
    let long = s + rest;
    assert(long.subrange(i, i + part.len()) =~= s.subrange(i, i + part.len()));
    assert forall|j: int| j < i implies !occurs_at(long, part, j) by {
        if occurs_at(long, part, j) {
            assert(long.subrange(j, j + part.len()) =~= s.subrange(j, j + part.len()));
            assert(occurs_at(s, part, j));
        }
    }
}

/// A command in the shell tool's wrapping is what is taken out of the wrapping,
/// whatever stands around it and whatever it holds itself: only the wrapping may not
/// begin before, nor end inside the command.
pub proof fn law_wrapped_command_is_taken_out(
    before: Seq<char>,
    command: Seq<char>,
    after: Seq<char>,
)
    requires
        occurs_first(before + eval_prefix(), eval_prefix(), before.len() as int),
        ({
            let head = before + eval_prefix() + (seq!['\''] + command + seq!['\'']);
            occurs_first(head + eval_suffix(), eval_suffix(), head.len() as int)
        }),
    ensures
        ({
            let head = before + eval_prefix() + (seq!['\''] + command + seq!['\'']);
            is_evaluated(head + eval_suffix() + after, command)
        }),
{
    let quoted = seq!['\''] + command + seq!['\''];
    let head = before + eval_prefix() + quoted;
    let line = head + eval_suffix() + after;
    let start = before.len() as int;
    lemma_first_in_longer(before + eval_prefix(), eval_prefix(), start, quoted);
    lemma_first_in_longer(head + eval_suffix(), eval_suffix(), head.len() as int, after);
    assert(line.take(head.len() as int) =~= head);
    assert(head.skip(start + eval_prefix().len()) =~= quoted);
    lemma_trim_quoted(quoted);
    assert(unquoted(quoted) =~= command);
    assert(occurs_first(line, eval_suffix(), head.len() as int));
    assert(occurs_first(line.take(head.len() as int), eval_prefix(), start));
}

/// The names that count as markers of an agent are these, each as a whole.
pub proof fn law_markers(name: Seq<char>)
    ensures
        is_agent_marker(name) <==> seq![
            "AGENT"@,
            "CLAUDECODE"@,
            "CLAUDE_CODE_CHILD_SESSION"@,
            "CLINE_ACTIVE"@,
            "CODEX_SANDBOX"@,
            "CURSOR_AGENT"@,
            "GEMINI_CLI"@,
            "OPENCODE_CLIENT"@,
        ].contains(name),
{
    let all = seq![
        "AGENT"@,
        "CLAUDECODE"@,
        "CLAUDE_CODE_CHILD_SESSION"@,
        "CLINE_ACTIVE"@,
        "CODEX_SANDBOX"@,
        "CURSOR_AGENT"@,
        "GEMINI_CLI"@,
        "OPENCODE_CLIENT"@,
    ];
    assert(all[0] == "AGENT"@ && all[1] == "CLAUDECODE"@ && all[2] == "CLAUDE_CODE_CHILD_SESSION"@);
    assert(all[3] == "CLINE_ACTIVE"@ && all[4] == "CODEX_SANDBOX"@ && all[5] == "CURSOR_AGENT"@);
    assert(all[6] == "GEMINI_CLI"@ && all[7] == "OPENCODE_CLIENT"@);
}

/// One marker among the variables is enough, wherever it stands.
pub proof fn law_one_marker_is_enough(names: Seq<String>, i: int)
    ensures
        names.len() == 0 ==> !has_agent_marker(names),
        0 <= i < names.len() && is_agent_marker(names[i]@) ==> has_agent_marker(names),
        0 <= i < names.len() && has_agent_marker(names) && !is_agent_marker(names[i]@)
            ==> has_agent_marker(names.remove(i)),
{
    if 0 <= i < names.len() && has_agent_marker(names) && !is_agent_marker(names[i]@) {
        let k = choose|k: int| 0 <= k < names.len() && is_agent_marker((#[trigger] names[k])@);
        if k < i {
            assert(names.remove(i)[k] == names[k]);
        } else {
            assert(names.remove(i)[k - 1] == names[k]);
        }
    }
}

/// The parent is the number behind `PPid:` on the first line that begins so, with white space
/// around it or without; what other lines say is not looked at.
pub proof fn law_parent(
    status: Seq<char>,
    i: int,
    before: Seq<char>,
    n: nat,
    after: Seq<char>,
    pid: Option<u32>,
)
    requires
        0 <= i < lines_of(status).len(),
        lines_of(status)[i] == "PPid:"@ + before + decimal(n) + after,
        is_blank(before),
        is_blank(after),
        forall|j: int| 0 <= j < i ==> !"PPid:"@.is_prefix_of(#[trigger] lines_of(status)[j]),
    ensures
        is_parent_pid(status, pid) <==> pid == if n <= 0xffff_ffff {
            Some(n as u32)
        } else {
            None::<u32>
        },
{
    let lines = lines_of(status);
    let label = "PPid:"@;
    let rest = before + decimal(n) + after;
    assert(lines[i] =~= label + rest);
    assert(label.is_prefix_of(lines[i]));
    assert(first_parent_line(lines, i));
    assert(lines[i].skip(label.len() as int) =~= rest);
    law_decimal(n);
    law_unsigned(n, 0xffff_ffff, decimal(n));
    assert(is_digit(decimal(n)[0]) && is_digit(decimal(n).last()));
    law_trim_of_padded(before, decimal(n), after);
    assert forall|k: int| #[trigger] first_parent_line(lines, k) implies k == i by {
        if k < i {
            assert(!label.is_prefix_of(lines[k]));
        }
    }
}

/// Where no line begins with `PPid:`, there is no parent.
pub proof fn law_no_parent(status: Seq<char>, pid: Option<u32>)
    requires
        forall|j: int|
            0 <= j < lines_of(status).len() ==> !"PPid:"@.is_prefix_of(
                #[trigger] lines_of(status)[j],
            ),
    ensures
        is_parent_pid(status, pid) <==> pid is None,
{
    assert forall|k: int| !#[trigger] first_parent_line(lines_of(status), k) by {}
}

/// Arguments as the system gives them: a zero byte behind each.
pub open spec fn nul_ended(args: Seq<Seq<u8>>) -> Seq<u8>
    decreases args.len(),
{
    if args.len() == 0 {
        Seq::empty()
    } else {
        nul_ended(args.drop_last()) + args.last() + seq![0u8]
    }
}

proof fn lemma_nul_len(b: Seq<u8>)
    ensures
        split_at_nul(b).len() > 0,
    decreases b.len(),
{
    if b.len() > 0 {
        lemma_nul_len(b.drop_last());
    }
}

proof fn lemma_nul_append(b: Seq<u8>, piece: Seq<u8>)
    requires
        !piece.contains(0),
    ensures
        split_at_nul(b + piece) == split_at_nul(b).drop_last().push(split_at_nul(b).last() + piece),
    decreases piece.len(),
{
    let have = split_at_nul(b);
    lemma_nul_len(b);
    if piece.len() == 0 {
        assert(b + piece =~= b);
        assert(have.last() + piece =~= have.last());
        assert(have =~= have.drop_last().push(have.last()));
    } else {
        let less = piece.drop_last();
        assert forall|i: int| 0 <= i < less.len() implies less[i] != 0 by {
            assert(piece.contains(piece[i]));
        }
        assert(piece.contains(piece.last()));
        lemma_nul_append(b, less);
        assert((b + piece).drop_last() =~= b + less);
        let before = split_at_nul(b + less);
        assert(before.drop_last() =~= have.drop_last());
        assert(before.last().push(piece.last()) =~= have.last() + piece);
    }
}

/// The words of a process are its arguments: with a zero byte behind each they are read back one
/// for one and in their order, without those that are empty.
pub proof fn law_arguments(args: Seq<Seq<u8>>)
    requires
        forall|i: int| 0 <= i < args.len() ==> !(#[trigger] args[i]).contains(0),
    ensures
        split_at_nul(nul_ended(args)) == args.push(Seq::empty()),
        words_of(split_at_nul(nul_ended(args))) == args.filter(
            |a: Seq<u8>| a.len() > 0,
        ).map_values(|a: Seq<u8>| utf8_lossy(a)),
{
    lemma_arguments_split(args);
    lemma_words(args);
    assert(args.push(Seq::empty()).drop_last() =~= args);
}

proof fn lemma_arguments_split(args: Seq<Seq<u8>>)
    requires
        forall|i: int| 0 <= i < args.len() ==> !(#[trigger] args[i]).contains(0),
    ensures
        split_at_nul(nul_ended(args)) == args.push(Seq::empty()),
    decreases args.len(),
{
    let none = Seq::<u8>::empty();
    if args.len() == 0 {
        assert(split_at_nul(nul_ended(args)) =~= args.push(none));
    } else {
        let before = args.drop_last();
        assert forall|i: int| 0 <= i < before.len() implies !(#[trigger] before[i]).contains(0) by {
            assert(before[i] == args[i]);
        }
        lemma_arguments_split(before);
        let head = nul_ended(before);
        assert(!args[args.len() - 1].contains(0));
        lemma_nul_append(head, args.last());
        assert(before.push(none).drop_last() =~= before);
        assert(none + args.last() =~= args.last());
        assert(before.push(args.last()) =~= args);
        assert(nul_ended(args).drop_last() =~= head + args.last());
    }
}

proof fn lemma_words(pieces: Seq<Seq<u8>>)
    ensures
        words_of(pieces) == pieces.filter(|a: Seq<u8>| a.len() > 0).map_values(
            |a: Seq<u8>| utf8_lossy(a),
        ),
    decreases pieces.len(),
{
    reveal(Seq::filter);
    let whole = |a: Seq<u8>| a.len() > 0;
    if pieces.len() > 0 {
        lemma_words(pieces.drop_last());
        let kept = pieces.drop_last().filter(whole);
        if pieces.last().len() > 0 {
            assert(pieces.filter(whole) == kept.push(pieces.last()));
            assert(kept.push(pieces.last()).map_values(|a: Seq<u8>| utf8_lossy(a))
                =~= kept.map_values(|a: Seq<u8>| utf8_lossy(a)).push(utf8_lossy(pieces.last())));
        } else {
            assert(pieces.filter(whole) == kept);
        }
    }
    assert(words_of(pieces) =~= pieces.filter(whole).map_values(|a: Seq<u8>| utf8_lossy(a)));
}

/// Pieces that are UTF-8 are read as the texts they are the UTF-8 of, in their order and without
/// those that are empty; with one that is not UTF-8, wherever it stands, not all are UTF-8.
pub proof fn law_decoded_words(pieces: Seq<Seq<u8>>, i: int)
    ensures
        decoded_words_of(pieces) == pieces.filter(|a: Seq<u8>| a.len() > 0).map_values(
            |a: Seq<u8>| decode_utf8(a),
        ),
        0 <= i < pieces.len() && !valid_utf8(pieces[i]) ==> !all_utf8(pieces),
        pieces.len() == 0 ==> all_utf8(pieces),
        all_utf8(pieces.push(Seq::empty())) ==> all_utf8(pieces),
    decreases pieces.len(),
{
    reveal(Seq::filter);
    let whole = |a: Seq<u8>| a.len() > 0;
    if pieces.len() > 0 {
        law_decoded_words(pieces.drop_last(), i);
        let kept = pieces.drop_last().filter(whole);
        if pieces.last().len() > 0 {
            assert(pieces.filter(whole) == kept.push(pieces.last()));
            assert(kept.push(pieces.last()).map_values(|a: Seq<u8>| decode_utf8(a))
                =~= kept.map_values(|a: Seq<u8>| decode_utf8(a)).push(decode_utf8(pieces.last())));
        } else {
            assert(pieces.filter(whole) == kept);
        }
    }
    assert(decoded_words_of(pieces) =~= pieces.filter(whole).map_values(
        |a: Seq<u8>| decode_utf8(a),
    ));
    if all_utf8(pieces.push(Seq::empty())) {
        assert forall|k: int| 0 <= k < pieces.len() implies valid_utf8(#[trigger] pieces[k]) by {
            assert(valid_utf8(pieces.push(Seq::empty())[k]));
        }
    }
}

/// The words stand in the command line in their order, with one space between each two and none
/// around them.
pub proof fn law_spaced(words: Seq<Seq<char>>, word: Seq<char>)
    ensures
        spaced(Seq::empty()) == Seq::<char>::empty(),
        spaced(seq![word]) == word,
        words.len() > 0 ==> spaced(words.push(word)) == spaced(words) + seq![' '] + word,
        spaced(words) == joined_with(words, ' '),
    decreases words.len(),
{
    assert(words.push(word).drop_last() =~= words);
    if words.len() > 0 {
        assert(spaced(words.push(word)) =~= spaced(words) + seq![' '] + word);
        law_spaced(words.drop_last(), word);
    }
}

/// Quotes are taken off where there is one at each end, and a text without both is left as it is.
pub proof fn law_unquoted(command: Seq<char>, s: Seq<char>)
    ensures
        unquoted(seq!['\''] + command + seq!['\'']) == command,
        s.len() < 2 || s[0] != '\'' || s[s.len() - 1] != '\'' ==> unquoted(s) == s,
{
    assert(unquoted(seq!['\''] + command + seq!['\'']) =~= command);
}

proof fn lemma_one_char(s: Seq<char>, part: Seq<char>, c: char)
    requires
        part == seq![c],
    ensures
        occurs(s, part) <==> s.contains(c),
{
    if occurs(s, part) {
        let i = choose|i: int| occurs_at(s, part, i);
        assert(s.subrange(i, i + 1)[0] == c);
        assert(s[i] == c);
    }
    if s.contains(c) {
        let i = choose|i: int| 0 <= i < s.len() && s[i] == c;
        assert(s.subrange(i, i + 1) =~= part);
        assert(occurs_at(s, part, i));
    }
}

/// A command is more than a single one exactly if one of these characters stands in it, or a
/// dollar sign with an opening bracket right behind it.
pub proof fn law_metacharacters(command: Seq<char>)
    ensures
        has_metacharacter(command) <==> {
            ||| command.contains('`')
            ||| command.contains('|')
            ||| command.contains(';')
            ||| command.contains('>')
            ||| command.contains('<')
            ||| command.contains('&')
            ||| exists|i: int|
                0 <= i < command.len() - 1 && #[trigger] command[i] == '$' && command[i + 1] == '('
        },
{
    reveal_strlit("`");
    reveal_strlit("|");
    reveal_strlit(";");
    reveal_strlit(">");
    reveal_strlit("<");
    reveal_strlit("&");
    reveal_strlit("&&");
    reveal_strlit("$(");
    assert("`"@ =~= seq!['`'] && "|"@ =~= seq!['|'] && ";"@ =~= seq![';']);
    assert(">"@ =~= seq!['>'] && "<"@ =~= seq!['<'] && "&"@ =~= seq!['&']);
    assert("$("@ =~= seq!['$', '(']);
    lemma_one_char(command, "`"@, '`');
    lemma_one_char(command, "|"@, '|');
    lemma_one_char(command, ";"@, ';');
    lemma_one_char(command, ">"@, '>');
    lemma_one_char(command, "<"@, '<');
    lemma_one_char(command, "&"@, '&');
    if occurs(command, "&&"@) {
        let i = choose|i: int| occurs_at(command, "&&"@, i);
        assert(command.subrange(i, i + 2)[0] == '&');
        assert(command[i] == '&');
    }
    if occurs(command, "$("@) {
        let i = choose|i: int| occurs_at(command, "$("@, i);
        assert(command.subrange(i, i + 2)[0] == '$' && command.subrange(i, i + 2)[1] == '(');
        assert(command[i] == '$' && command[i + 1] == '(');
    }
    if exists|i: int|
        0 <= i < command.len() - 1 && #[trigger] command[i] == '$' && command[i + 1] == '(' {
        let i = choose|i: int|
            0 <= i < command.len() - 1 && #[trigger] command[i] == '$' && command[i + 1] == '(';
        assert(command.subrange(i, i + 2) =~= "$("@);
        assert(occurs_at(command, "$("@, i));
    }
}

/// What is not known is no single command. A command in the shell tool's wrapping is judged by
/// itself, whatever stands around it; a command line that is not wrapped so is judged as a whole.
pub proof fn law_bare(before: Seq<char>, command: Seq<char>, after: Seq<char>, c: Seq<char>)
    requires
        occurs_first(before + "&& eval "@, "&& eval "@, before.len() as int),
        ({
            let head = before + "&& eval "@ + (seq!['\''] + command + seq!['\'']);
            occurs_first(
                head + " < /dev/null && pwd -P"@,
                " < /dev/null && pwd -P"@,
                head.len() as int,
            )
        }),
        !occurs(c, " < /dev/null && pwd -P"@) || !occurs(c, "&& eval "@),
    ensures
        !is_bare(None),
        is_bare(Some(c)) <==> !has_metacharacter(c),
        ({
            let head = before + "&& eval "@ + (seq!['\''] + command + seq!['\'']);
            is_bare(Some(head + " < /dev/null && pwd -P"@ + after)) <==> !has_metacharacter(command)
        }),
{
    let head = before + "&& eval "@ + (seq!['\''] + command + seq!['\'']);
    let line = head + " < /dev/null && pwd -P"@ + after;
    law_wrapped_command_is_taken_out(before, command, after);
    assert(has_evaluated(line)) by {
        let (end, start) = choose|end: int, start: int|
            {
                &&& #[trigger] occurs_first(line, eval_suffix(), end)
                &&& #[trigger] occurs_first(line.take(end), eval_prefix(), start)
                &&& command == unquoted(trimmed(line.take(end).skip(start + eval_prefix().len())))
            };
        assert(occurs_at(line.take(end), eval_prefix(), start));
    }
    assert forall|other: Seq<char>| #[trigger] is_evaluated(line, other) implies other
        == command by {
        lemma_evaluated_once(line, other, command);
    }
    if has_evaluated(c) {
        let end = choose|end: int|
            #[trigger] occurs_first(c, eval_suffix(), end) && occurs(c.take(end), eval_prefix());
        assert(occurs_at(c, eval_suffix(), end));
        let i = choose|i: int| occurs_at(c.take(end), eval_prefix(), i);
        let n = eval_prefix().len() as int;
        assert(c.subrange(i, i + n) =~= c.take(end).subrange(i, i + n));
        assert(occurs_at(c, eval_prefix(), i));
    }
}

} // verus!
