//! Printing secrets.

use kv_cli::secret_display::{
    confirm, emit_secret, fingerprint, must_ask, show_secret, to_hex, Gate, Reveal, RevealError,
    SecretDisplay,
};

const RAW: SecretDisplay = SecretDisplay { md5: false, last3: false };
const MD5: SecretDisplay = SecretDisplay { md5: true, last3: false };
const LAST3: SecretDisplay = SecretDisplay { md5: false, last3: true };

fn gate(mode: SecretDisplay, stdin_is_terminal: bool, stdout_is_terminal: bool) -> Gate {
    Gate { mode, stdin_is_terminal, stdout_is_terminal }
}

fn shown(text: &str) -> Result<String, RevealError> {
    Ok(text.to_string())
}

#[test]
fn the_digest_is_allowed_everywhere() {
    let digest = shown("5d41402abc4b2a76b9719d911017c592\n");
    assert_eq!(show_secret("hello", gate(MD5, false, false), ""), digest);
    assert_eq!(show_secret("hello", gate(MD5, true, true), "no"), digest);
    let both = SecretDisplay { md5: true, last3: true };
    assert_eq!(show_secret("hello", gate(both, false, false), ""), digest);
    assert_eq!(
        show_secret("", gate(MD5, false, false), ""),
        shown("d41d8cd98f00b204e9800998ecf8427e\n")
    );
}

#[test]
fn the_last_three_characters_are_allowed_everywhere() {
    assert_eq!(show_secret("sk-abcdef", gate(LAST3, false, false), ""), shown("...def\n"));
    assert_eq!(show_secret("xäöü", gate(LAST3, true, true), ""), shown("...äöü\n"));
    assert_eq!(show_secret("", gate(LAST3, false, false), ""), shown("...\n"));
}

#[test]
fn a_short_secret_is_not_shown_at_all() {
    for value in ["a", "ab", "abc", "*", "a.b"] {
        assert_eq!(show_secret(value, gate(LAST3, false, false), ""), shown("...\n"));
    }
    for value in [".", "..", "...", "\n", "..\n"] {
        assert_eq!(show_secret(value, gate(LAST3, false, false), ""), shown("***"));
    }
    assert_eq!(show_secret(".abc", gate(LAST3, false, false), ""), shown("...\n"));
    assert_eq!(show_secret("....", gate(LAST3, false, false), ""), shown("...\n"));
    assert_eq!(show_secret("wabc", gate(LAST3, false, false), ""), shown("...abc\n"));
}

#[test]
fn the_last_three_characters_never_hold_the_secret() {
    for value in [
        "a", "\n", ".", "..", "...", "....", ".....", "......", ".......", "...a", "..ab", ".abc",
        "....a", "...abc", "..abc\n", "abc\n", ".\n", "...\n", "***", "*", "sk-1234",
    ] {
        for (stdin, stdout) in [(false, false), (true, true)] {
            match show_secret(value, gate(LAST3, stdin, stdout), "yes") {
                Ok(text) => assert!(!text.contains(value)),
                Err(_) => panic!("a fingerprint goes anywhere"),
            }
        }
    }
}

#[test]
fn a_raw_secret_needs_two_terminals_and_a_confirmation() {
    assert_eq!(show_secret("s3cret", gate(RAW, true, true), "yes\n"), shown("s3cret"));
    assert_eq!(show_secret("s3cret", gate(RAW, true, true), "  yes \r\n"), shown("s3cret"));
    for answer in ["", "y", "YES", "yes please", "no"] {
        assert_eq!(
            show_secret("s3cret", gate(RAW, true, true), answer),
            Err(RevealError::Aborted)
        );
    }
    for (stdin, stdout) in [(false, true), (true, false), (false, false)] {
        let g = gate(RAW, stdin, stdout);
        assert_eq!(show_secret("s3cret", g, "yes"), Err(RevealError::Refused));
        assert!(matches!(emit_secret("s3cret", g), Reveal::Refuse));
        assert!(!must_ask(g));
    }
    assert!(matches!(emit_secret("s3cret", gate(RAW, true, true)), Reveal::Ask));
    assert!(must_ask(gate(RAW, true, true)));
    assert!(!must_ask(gate(MD5, true, true)));
}

#[test]
fn secrets_with_one_tail_look_alike() {
    assert_eq!(
        show_secret("first-xyz", gate(LAST3, false, false), ""),
        show_secret("other-xyz", gate(LAST3, false, false), "")
    );
}

#[test]
fn confirming_takes_the_word_alone() {
    assert!(confirm("yes"));
    assert!(confirm("\tyes\n"));
    assert!(!confirm("yess"));
    assert!(!confirm(""));
}

#[test]
fn digests_are_written_in_lower_case() {
    assert_eq!(to_hex(&vec![0x00, 0x0f, 0xab, 0xff]), "000fabff");
    assert_eq!(to_hex(&Vec::new()), "");
}

#[test]
fn without_a_flag_there_is_no_fingerprint() {
    assert!(fingerprint("x", SecretDisplay::default()).is_none());
    assert_eq!(fingerprint("hello", LAST3), Some("...llo\n".to_string()));
    assert_eq!(
        fingerprint("hello", MD5),
        Some("5d41402abc4b2a76b9719d911017c592\n".to_string())
    );
}
