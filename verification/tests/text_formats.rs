//! Tests of the pure text components: address validation, the credential
//! cache format, and the editor scratch-buffer round-trip.

use email_rs::credentials::{format_credentials, parse_credentials};
use email_rs::editor::{editor_template, parse_editor_content};
use email_rs::validate::is_valid_email;

#[test]
fn validate_accepts_simple() {
    assert!(is_valid_email("a@b.co").is_ok());
}

#[test]
fn validate_accepts_min_length() {
    assert!(is_valid_email("a@b.c").is_ok());
}

#[test]
fn validate_rejects_double_at() {
    assert!(is_valid_email("a@@b.co").is_err());
}

#[test]
fn validate_rejects_missing_at() {
    assert!(is_valid_email("ab.co").is_err());
}

#[test]
fn validate_rejects_nonalpha_end() {
    assert!(is_valid_email("a@b.1").is_err());
}

#[test]
fn validate_rejects_short() {
    assert!(is_valid_email("a@.c").is_err());
}

#[test]
fn validate_rejects_missing_dot() {
    assert!(is_valid_email("a@bigco").is_err());
}

#[test]
fn validate_counts_length_in_bytes() {
    // Four characters, but five UTF-8 bytes: long enough.
    assert!(is_valid_email("\u{e9}@.a").is_ok());
}

#[test]
fn validate_reports_address() {
    assert_eq!(is_valid_email("nope").unwrap_err(), "Email nope is invalid");
}

#[test]
fn credentials_round_trip() {
    let text = format_credentials("x@y.com", "pw");
    let rec = parse_credentials(&text).unwrap();
    assert_eq!(rec.address, "x@y.com");
    assert_eq!(rec.password, "pw");
}

#[test]
fn credentials_format_text() {
    assert_eq!(format_credentials("x@y.com", "pw"), "x@y.com\npw");
}

#[test]
fn credentials_single_line_is_none() {
    assert!(parse_credentials("only-one-line").is_none());
}

#[test]
fn credentials_empty_is_none() {
    assert!(parse_credentials("").is_none());
}

#[test]
fn credentials_crlf_lines() {
    let rec = parse_credentials("x@y.com\r\npw\r\n").unwrap();
    assert_eq!(rec.address, "x@y.com");
    assert_eq!(rec.password, "pw");
}

#[test]
fn credentials_extra_lines_ignored() {
    let rec = parse_credentials("a@b.co\nsecret\nleftover").unwrap();
    assert_eq!(rec.address, "a@b.co");
    assert_eq!(rec.password, "secret");
}

#[test]
fn editor_parse_example() {
    let (subject, body) = parse_editor_content("# header\nHello World\n\n# Body\nLine1\nLine2\n");
    assert_eq!(subject.as_deref(), Some("Hello World"));
    assert_eq!(body, "Line1\nLine2");
}

#[test]
fn editor_parse_all_comments() {
    let (subject, body) = parse_editor_content("# a\n# b\n");
    assert!(subject.is_none());
    assert_eq!(body, "");
}

#[test]
fn editor_parse_trims_lines() {
    let (subject, body) = parse_editor_content("  Hello  \n\n  world  \n");
    assert_eq!(subject.as_deref(), Some("Hello"));
    assert_eq!(body, "world");
}

#[test]
fn editor_body_skips_blank_lines() {
    let (subject, body) = parse_editor_content("s\n\nb1\n\nb2\n");
    assert_eq!(subject.as_deref(), Some("s"));
    assert_eq!(body, "b1\nb2");
}

#[test]
fn editor_unicode_whitespace_is_blank() {
    // A line of non-breaking spaces trims to nothing, as `str::trim` has it.
    let (subject, body) = parse_editor_content("s\n\u{a0}\u{a0}\nb\n");
    assert_eq!(subject.as_deref(), Some("s"));
    assert_eq!(body, "b");
}

#[test]
fn editor_template_text() {
    assert_eq!(
        editor_template("Subj", "Body"),
        "# Subject (/!\\ the subject must fit on one line /!\\)\n\nSubj\n\n# Body\n\nBody\n\n"
    );
}

#[test]
fn editor_template_round_trip() {
    let text = editor_template("Subj", "Body line");
    let (subject, body) = parse_editor_content(&text);
    assert_eq!(subject.as_deref(), Some("Subj"));
    assert_eq!(body, "Body line");
}
