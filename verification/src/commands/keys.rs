//! Managing API keys.

use vstd::prelude::*;
use vstd::utf8::*;
use crate::cipher::md5_digest;
use crate::client::{Call, Client, Save, Verb};
use crate::config::{setting, Config};
use crate::json::{json_text, json_text_member};
use crate::secret_display::{
    hex_text, last3_fingerprint, law_what_is_printed, must_ask, show_secret, shown, Gate,
    RevealError,
};
use crate::text::{
    chars_of, join2, joined_with, law_split_of_joined, split, split_on, text_of, trim, trimmed,
    views,
};

verus! {

/// What a key may do where.
pub struct ScopeRule {
    pub scope: String,
    pub ops: Vec<String>,
}

/// A key to create.
pub struct CreateKeyRequest {
    pub label: String,
    pub key_type: String,
    pub expires_at: Option<String>,
    pub scopes: Vec<ScopeRule>,
}

/// Whether `before` and `after` are what stands on the two sides of the first `c` in
/// `s`.
pub open spec fn splits_once(s: Seq<char>, c: char, before: Seq<char>, after: Seq<char>) -> bool {
    s == before.push(c) + after && !before.contains(c)
}

/// Whether `rule` is what `s` writes as a pattern, a colon, and operations with
/// commas between them; whitespace around the pattern and the operations is left
/// out.
pub open spec fn is_scope_rule(s: Seq<char>, rule: ScopeRule) -> bool {
    exists|pattern: Seq<char>, ops: Seq<char>|
        {
            &&& #[trigger] splits_once(s, ':', pattern, ops)
            &&& rule.scope@ == trimmed(pattern)
            &&& views(rule.ops@) == split_on(ops, ',').map_values(|o: Seq<char>| trimmed(o))
        }
}

/// The two sides of the first `c` in `s`, if there is one.
fn split_once(s: &str, c: char) -> (out: Option<(String, String)>)
    ensures
        match out {
            Some((before, after)) => splits_once(s@, c, before@, after@),
            None => !s@.contains(c),
        },
{
    let chars = chars_of(s);
    let n: usize = chars.len();
    for i in 0..n
        invariant
            n == chars@.len(),
            chars@ == s@,
            forall|j: int| 0 <= j < i ==> chars@[j] != c,
    {
        if chars[i] == c {
            let before = text_of(&chars[0..i]);
            let after = text_of(&chars[i + 1..n]);
            assert(s@ =~= before@.push(c) + after@);
            return Some((before, after));
        }
    }
    None
}

fn trim_all(list: &Vec<String>) -> (out: Vec<String>)
    ensures
        views(out@) == views(list@).map_values(|o: Seq<char>| trimmed(o)),
{
    let mut out: Vec<String> = Vec::new();
    let n: usize = list.len();
    for i in 0..n
        invariant
            n == list@.len(),
            out@.len() == i,
            forall|j: int| 0 <= j < i ==> (#[trigger] out@[j])@ == trimmed(list@[j]@),
    {
        out.push(trim(&list[i]));
    }
    assert(views(out@) =~= views(list@).map_values(|o: Seq<char>| trimmed(o)));
    out
}

/// Reads the scope rules. Fails with the position of the first that has no colon.
pub fn parse_scopes(raw: &Vec<String>) -> (out: Result<Vec<ScopeRule>, usize>)
    ensures
        match out {
            Ok(rules) => {
                &&& rules@.len() == raw@.len()
                &&& forall|i: int|
                    0 <= i < raw@.len() ==> is_scope_rule(raw@[i]@, #[trigger] rules@[i])
            },
            Err(at) => {
                &&& at < raw@.len()
                &&& !raw@[at as int]@.contains(':')
                &&& forall|i: int| 0 <= i < at ==> (#[trigger] raw@[i])@.contains(':')
            },
        },
{
    let mut out: Vec<ScopeRule> = Vec::new();
    let n: usize = raw.len();
    for i in 0..n
        invariant
            n == raw@.len(),
            out@.len() == i,
            forall|j: int| 0 <= j < i ==> is_scope_rule(raw@[j]@, #[trigger] out@[j]),
            forall|j: int| 0 <= j < i ==> (#[trigger] raw@[j])@.contains(':'),
    {
        match split_once(&raw[i], ':') {
            Some((pattern, ops)) => {
                let rule = ScopeRule {
                    scope: trim(&pattern),
                    ops: trim_all(&split(&ops, ',')),
                };
                proof {
                    assert(is_scope_rule(raw@[i as int]@, rule));
                    assert(raw@[i as int]@[pattern@.len() as int] == ':');
                }
                out.push(rule);
            },
            None => return Err(i),
        }
    }
    Ok(out)
}

/// The request to create a key; fails with the position of the first scope that has
/// no colon.
pub fn create(label: String, key_type: String, scopes_raw: &Vec<String>) -> (out: Result<
    CreateKeyRequest,
    usize,
>)
    ensures
        match out {
            Ok(r) => {
                &&& r.label == label
                &&& r.key_type == key_type
                &&& r.expires_at is None
                &&& r.scopes@.len() == scopes_raw@.len()
                &&& forall|i: int|
                    0 <= i < scopes_raw@.len() ==> is_scope_rule(
                        scopes_raw@[i]@,
                        #[trigger] r.scopes@[i],
                    )
            },
            Err(at) => {
                &&& at < scopes_raw@.len()
                &&& !scopes_raw@[at as int]@.contains(':')
                &&& forall|i: int| 0 <= i < at ==> (#[trigger] scopes_raw@[i])@.contains(':')
            },
        },
{
    match parse_scopes(scopes_raw) {
        Ok(scopes) => Ok(CreateKeyRequest { label, key_type, expires_at: None, scopes }),
        Err(at) => Err(at),
    }
}

/// The new key in a reply: its member `key`, or else its member `api_key`, or else the
/// whole of it without the whitespace around it.
pub open spec fn new_key(key: Option<Seq<char>>, api_key: Option<Seq<char>>, body: Seq<char>) -> Seq<
    char,
> {
    match (key, api_key) {
        (Some(k), _) => k,
        (None, Some(k)) => k,
        (None, None) => trimmed(body),
    }
}

/// The new key in a reply with the given members.
pub fn key_among(key: Option<String>, api_key: Option<String>, body: &str) -> (out: String)
    ensures
        out@ == new_key(setting(key), setting(api_key), body@),
{
    match key {
        Some(k) => k,
        None => match api_key {
            Some(k) => k,
            None => trim(body),
        },
    }
}

/// The new key in a reply.
pub fn extract_key_from_response(body: &str) -> (out: String)
    ensures
        out@ == new_key(json_text(body@, "key"@), json_text(body@, "api_key"@), body@),
{
    key_among(json_text_member(body, "key"), json_text_member(body, "api_key"), body)
}

/// What creating a key prints of it, or why it prints nothing: its fingerprint, or else the
/// key on a line of its own.
pub open spec fn key_line(key: Seq<char>, gate: Gate, answer: Seq<char>) -> Result<
    Seq<char>,
    RevealError,
> {
    match shown(key, gate, answer) {
        Ok(text) => Ok(
            if gate.wants_fingerprint() {
                text
            } else {
                text.push('\n')
            },
        ),
        Err(e) => Err(e),
    }
}

/// What creating a key prints, or why it prints nothing. `body` is the reply that holds
/// the new key, and `answer` is what the operator typed where a question was put.
pub fn create_shown(body: &str, gate: Gate, answer: &str) -> (out: Result<String, RevealError>)
    ensures
        ({
            let key = new_key(json_text(body@, "key"@), json_text(body@, "api_key"@), body@);
            match out {
                Ok(text) => key_line(key, gate, answer@) == Ok::<Seq<char>, RevealError>(text@),
                Err(e) => key_line(key, gate, answer@) == Err::<Seq<char>, RevealError>(e),
            }
        }),
        !gate.wants_fingerprint() && !gate.is_interactive() ==> out == Err::<String, RevealError>(
            RevealError::Refused,
        ),
{
    key_shown(&extract_key_from_response(body), gate, answer)
}

/// What creating the key `key` prints, or why it prints nothing.
pub fn key_shown(key: &str, gate: Gate, answer: &str) -> (out: Result<String, RevealError>)
    ensures
        match out {
            Ok(text) => key_line(key@, gate, answer@) == Ok::<Seq<char>, RevealError>(text@),
            Err(e) => key_line(key@, gate, answer@) == Err::<Seq<char>, RevealError>(e),
        },
{
    match show_secret(key, gate, answer) {
        Ok(mut text) => {
            if must_ask(gate) {
                text.push('\n');
            }
            Ok(text)
        },
        Err(e) => Err(e),
    }
}

/// Stores an API key in the settings, without the whitespace around it.
pub fn add_api_token(client: &mut Client, typed: &str) -> (save: Save)
    ensures
        setting(final(client).cfg.api_key) == Some(trimmed(typed@)),
        final(client).cfg == (Config { api_key: final(client).cfg.api_key, ..old(client).cfg }),
        final(client).base_url == old(client).base_url,
        final(client).silent == old(client).silent,
        save == Save::Required,
{
    client.cfg.api_key = Some(trim(typed));
    Save::Required
}

/// Asking for the list of API keys.
pub fn list() -> (out: Call)
    ensures
        out.asks(Verb::Get, "/api/admin/keys"@),
{
    Call { verb: Verb::Get, path: "/api/admin/keys".to_owned() }
}

/// Asking for a new API key.
pub fn create_call() -> (out: Call)
    ensures
        out.asks(Verb::Post, "/api/admin/keys"@),
{
    Call { verb: Verb::Post, path: "/api/admin/keys".to_owned() }
}

/// Asking to revoke an API key.
pub fn revoke(id: &str) -> (out: Call)
    ensures
        out.asks(Verb::Delete, "/api/admin/keys/"@ + id@),
{
    Call { verb: Verb::Delete, path: join2("/api/admin/keys/", id) }
}

// ── Laws ────────────────────────────────────────────────────────────────────
proof fn lemma_splits_once(
    s: Seq<char>,
    c: char,
    before: Seq<char>,
    after: Seq<char>,
    other_before: Seq<char>,
    other_after: Seq<char>,
)
    requires
        splits_once(s, c, before, after),
        splits_once(s, c, other_before, other_after),
    ensures
        before == other_before,
        after == other_after,
{
    let n = before.len() as int;
    let m = other_before.len() as int;
    assert(s[n] == c && s[m] == c);
    if n < m {
        assert(other_before[n] == s[n]);
        assert(other_before.contains(other_before[n]));
    }
    if m < n {
        assert(before[m] == s[m]);
        assert(before.contains(before[m]));
    }
    assert(before =~= s.take(n));
    assert(other_before =~= s.take(n));
    assert(after =~= s.skip(n + 1));
    assert(other_after =~= s.skip(n + 1));
}

/// A scope that is written as a pattern, a colon, and operations with commas between them is
/// read as that pattern and these operations, each without the whitespace around it, in order
/// and with none left out; further colons belong to the operations.
pub proof fn law_scope_is_read(pattern: Seq<char>, ops: Seq<Seq<char>>, rule: ScopeRule)
    requires
        !pattern.contains(':'),
        ops.len() > 0,
        forall|i: int| 0 <= i < ops.len() ==> !(#[trigger] ops[i]).contains(','),
        is_scope_rule(pattern + seq![':'] + joined_with(ops, ','), rule),
    ensures
        rule.scope@ == trimmed(pattern),
        rule.ops@.len() == ops.len(),
        forall|i: int| 0 <= i < ops.len() ==> (#[trigger] rule.ops@[i])@ == trimmed(ops[i]),
{
    let joined = joined_with(ops, ',');
    let s = pattern + seq![':'] + joined;
    assert(s =~= pattern.push(':') + joined);
    assert(splits_once(s, ':', pattern, joined));
    let (p, o) = choose|p: Seq<char>, o: Seq<char>|
        {
            &&& #[trigger] splits_once(s, ':', p, o)
            &&& rule.scope@ == trimmed(p)
            &&& views(rule.ops@) == split_on(o, ',').map_values(|x: Seq<char>| trimmed(x))
        };
    lemma_splits_once(s, ':', pattern, joined, p, o);
    law_split_of_joined(ops, ',');
    assert(views(rule.ops@).len() == ops.len());
    assert forall|i: int| 0 <= i < ops.len() implies (#[trigger] rule.ops@[i])@ == trimmed(
        ops[i],
    ) by {
        assert(views(rule.ops@)[i] == rule.ops@[i]@);
    }
}

/// The new key is the member `key` if the reply has it, whatever else it has; else the member
/// `api_key`; and else the reply itself without the whitespace around it.
pub proof fn law_new_key(key: Seq<char>, api_key: Option<Seq<char>>, body: Seq<char>)
    ensures
        new_key(Some(key), api_key, body) == key,
        new_key(None, Some(key), body) == key,
        new_key(None, None, body) == trimmed(body),
{
}

/// A new key is printed on a line of its own, to the character, and only at two terminals and
/// after the answer `yes`; at a flag its fingerprint is printed, anywhere.
pub proof fn law_new_key_is_printed(key: Seq<char>, gate: Gate, answer: Seq<char>)
    ensures
        ({
            let out = key_line(key, gate, answer);
            let flagged = gate.mode.md5 || gate.mode.last3;
            let terminals = gate.stdin_is_terminal && gate.stdout_is_terminal;
            &&& !flagged && !terminals ==> out == Err::<Seq<char>, RevealError>(
                RevealError::Refused,
            )
            &&& !flagged && terminals && trimmed(answer) == seq!['y', 'e', 's'] ==> out == Ok::<
                Seq<char>,
                RevealError,
            >(key + seq!['\n'])
            &&& !flagged && terminals && trimmed(answer) != seq!['y', 'e', 's'] ==> out == Err::<
                Seq<char>,
                RevealError,
            >(RevealError::Aborted)
            &&& gate.mode.md5 ==> out == Ok::<Seq<char>, RevealError>(
                hex_text(md5_digest(encode_utf8(key))) + seq!['\n'],
            )
            &&& !gate.mode.md5 && gate.mode.last3 ==> out == Ok::<Seq<char>, RevealError>(
                last3_fingerprint(key),
            )
        }),
{
    law_what_is_printed(key, gate, answer);
    assert(key.push('\n') =~= key + seq!['\n']);
}

} // verus!
