//! Percent-encoding, base64 and QR codes.

use kv_cli::client::Verb;
use kv_cli::commands::kv::{delete, escape, kv_path, list, read_call, urlencoding};
use kv_cli::encoding::{base64_decode, text_strict, Base64Error, Utf8Error};
use kv_cli::qr::{print_qr, qr_or_hint};
use kv_cli::urlencode::urlencode;

#[test]
fn unreserved_characters_stay() {
    assert_eq!(urlencode("AZaz09-._~"), "AZaz09-._~");
}

#[test]
fn everything_else_is_escaped_octet_by_octet() {
    assert_eq!(urlencode("a b"), "a%20b");
    assert_eq!(urlencode("a&b=c?d#e/f%"), "a%26b%3Dc%3Fd%23e%2Ff%25");
    assert_eq!(urlencode("ü"), "%C3%BC");
    assert_eq!(urlencode("\u{1}"), "%01");
    assert_eq!(urlencode("😀"), "%F0%9F%98%80");
    assert_eq!(urlencode(""), "");
}

#[test]
fn different_texts_have_different_encodings() {
    let texts = ["", " ", "%20", " 28", "\u{2028}", "ü", "%C3%BC", "a/b", "a%2Fb"];
    for (i, a) in texts.iter().enumerate() {
        for (j, b) in texts.iter().enumerate() {
            assert_eq!(i == j, urlencode(a) == urlencode(b));
        }
    }
}

#[test]
fn encoded_texts_hold_no_delimiters() {
    let all: String = (0u8..128).map(|b| b as char).collect();
    let encoded = urlencode(&all);
    for c in ['/', '?', '&', '=', '#', ' '] {
        assert!(!encoded.contains(c));
    }
}

#[test]
fn keys_in_paths_keep_letters_of_every_script() {
    assert_eq!(urlencoding("straße"), "straße");
    assert_eq!(urlencoding("鍵٣"), "鍵٣");
    assert_eq!(urlencoding("a b"), "a%20b");
    assert_eq!(urlencoding("a/b"), "a%2Fb");
    assert_eq!(urlencoding("\u{1}"), "%01");
    assert_eq!(urlencoding("\u{2028}"), "%2028");
    assert_eq!(urlencoding("😀"), "%1F600");
}

#[test]
fn escaping_goes_by_the_given_class() {
    assert_eq!(escape('x', true), "x");
    assert_eq!(escape('x', false), "%78");
    assert_eq!(escape('~', false), "~");
    assert_eq!(escape('\u{f}', false), "%0F");
}

#[test]
fn ascii_keys_are_encoded_as_other_texts_are() {
    let all: String = (0u8..128).map(|b| b as char).collect();
    assert_eq!(urlencoding(&all), urlencode(&all));
}

#[test]
fn paths_of_values_and_lists() {
    assert_eq!(kv_path("SOLO_FORGE_API_KEY"), "/kv/SOLO_FORGE_API_KEY");
    assert_eq!(kv_path("a?b"), "/kv/a%3Fb");
    let c = list(&None);
    assert_eq!((c.verb, c.path.as_str()), (Verb::Get, "/kv"));
    let c = list(&Some("app/".to_string()));
    assert_eq!((c.verb, c.path.as_str()), (Verb::Get, "/kv?prefix=app%2F"));
    let c = read_call("a b");
    assert_eq!((c.verb, c.path.as_str()), (Verb::Get, "/kv/a%20b"));
    let c = delete("a b");
    assert_eq!((c.verb, c.path.as_str()), (Verb::Delete, "/kv/a%20b"));
}

#[test]
fn base64_wants_padding_and_no_stray_bits() {
    assert_eq!(base64_decode("aGk="), Ok(b"hi".to_vec()));
    assert_eq!(base64_decode(""), Ok(Vec::new()));
    assert_eq!(base64_decode("aGk"), Err(Base64Error::InvalidPadding));
    assert_eq!(base64_decode("aGl="), Err(Base64Error::InvalidLastSymbol(2, 108)));
    assert_eq!(base64_decode("aG-_"), Err(Base64Error::InvalidByte(2, 45)));
    assert_eq!(base64_decode(" aGk="), Err(Base64Error::InvalidByte(0, 32)));
    assert_eq!(base64_decode("aGk=a"), Err(Base64Error::InvalidByte(3, 61)));
    assert_eq!(base64_decode("aGkka"), Err(Base64Error::InvalidLength(5)));
    assert_eq!(base64_decode("aü=="), Err(Base64Error::InvalidByte(1, 0xc3)));
}

#[test]
fn strict_text_refuses_what_is_not_utf8() {
    assert_eq!(text_strict(vec![0xc3, 0xbc]), Ok("ü".to_string()));
    assert_eq!(text_strict(vec![0xc3]), Err(Utf8Error::Incomplete(0)));
    assert_eq!(text_strict(vec![97, 0xe2, 0x82]), Err(Utf8Error::Incomplete(1)));
    assert_eq!(text_strict(vec![97, 98, 0xff, 99]), Err(Utf8Error::Invalid(2, 1)));
    assert_eq!(text_strict(vec![0xe2, 0x82, 97]), Err(Utf8Error::Invalid(0, 2)));
    assert_eq!(text_strict(vec![0xf0, 0x9f, 0x98, 97]), Err(Utf8Error::Invalid(0, 3)));
}

#[test]
fn a_link_has_a_qr_code() {
    let image = print_qr("https://kv.osmosis.page/approve/abc");
    assert!(image.lines().count() > 10);
    assert!(image.contains('█'));
    assert_ne!(image, print_qr("https://kv.osmosis.page/approve/abd"));
}

#[test]
fn a_link_that_is_too_long_has_a_hint() {
    let hint = "  (QR generation failed, use the URL above)";
    assert_eq!(print_qr(&"x".repeat(5000)), hint);
    assert_eq!(qr_or_hint(None), hint);
    assert_eq!(qr_or_hint(Some("image".to_string())), "image");
}
