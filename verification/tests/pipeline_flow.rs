//! Tests of argument resolution, message construction, response
//! classification, and the pipeline's fail-fast ordering and terminal
//! states.

use email_rs::args::{MailArguments, OptionalMailArguments};
use email_rs::credentials::CredentialRecord;
use email_rs::message::build_email;
use email_rs::pipeline::{conclude, report_error, send, RunOutcome};
use email_rs::transport::classify_response;

fn cli_args(from: Option<&str>, password: Option<&str>) -> OptionalMailArguments {
    OptionalMailArguments {
        body: None,
        bypass_editor: false,
        from: from.map(str::to_owned),
        name: None,
        password: password.map(str::to_owned),
        store: false,
        subject: None,
        to: vec!["dest@example.org".to_owned()],
        verbose: false,
    }
}

fn cached() -> Option<CredentialRecord> {
    Some(CredentialRecord { address: "cached@x.com".to_owned(), password: "pw1".to_owned() })
}

fn request(from: &str, to: &[&str]) -> MailArguments {
    MailArguments {
        body: None,
        bypass_editor: true,
        from: from.to_owned(),
        name: None,
        password: "pw".to_owned(),
        store: false,
        subject: None,
        to: to.iter().map(|t| (*t).to_owned()).collect(),
        verbose: false,
    }
}

#[test]
fn resolve_falls_back_to_cache() {
    let r = MailArguments::resolve(cli_args(None, None), cached());
    assert_eq!(r.from, "cached@x.com");
    assert_eq!(r.password, "pw1");
}

#[test]
fn resolve_prefers_cli() {
    let r = MailArguments::resolve(cli_args(Some("cli@x.com"), Some("pw2")), cached());
    assert_eq!(r.from, "cli@x.com");
    assert_eq!(r.password, "pw2");
}

#[test]
fn resolve_empty_when_absent() {
    let r = MailArguments::resolve(cli_args(None, None), None);
    assert_eq!(r.from, "");
    assert_eq!(r.password, "");
}

#[test]
fn new_with_credentials_merges() {
    let r = MailArguments::new_with_credentials(cli_args(None, Some("typed")), "stored@x.com", "storedpw");
    assert_eq!(r.from, "stored@x.com");
    assert_eq!(r.password, "typed");
}

#[test]
fn needs_editor_both_unset() {
    let r = MailArguments::resolve(cli_args(None, None), None);
    assert!(r.needs_editor());
}

#[test]
fn needs_editor_not_when_subject_given() {
    let mut args = cli_args(None, None);
    args.subject = Some("hi".to_owned());
    let r = MailArguments::resolve(args, None);
    assert!(!r.needs_editor());
}

#[test]
fn needs_editor_not_when_bypassed() {
    let mut args = cli_args(None, None);
    args.bypass_editor = true;
    let r = MailArguments::resolve(args, None);
    assert!(!r.needs_editor());
}

#[test]
fn apply_editor_result_sets_fields() {
    let mut r = MailArguments::resolve(cli_args(None, None), None);
    r.apply_editor_result(Some("Subj".to_owned()), "Body".to_owned());
    assert_eq!(r.subject.as_deref(), Some("Subj"));
    assert_eq!(r.body.as_deref(), Some("Body"));
}

#[test]
fn build_email_accepts_valid() {
    let to = vec!["dest@example.org".to_owned()];
    let r = build_email(
        &Some("A Name".to_owned()),
        "user@example.com",
        &to,
        &Some("hello".to_owned()),
        &Some("world".to_owned()),
    );
    assert!(r.is_ok());
}

#[test]
fn build_email_rejects_bad_from() {
    let to = vec!["dest@example.org".to_owned()];
    let r = build_email(&None, "foo bar", &to, &None, &None);
    assert!(r.unwrap_err().starts_with("Invalid from: "));
}

#[test]
fn build_email_rejects_bad_to() {
    let to = vec!["foo bar".to_owned()];
    let r = build_email(&None, "user@example.com", &to, &None, &None);
    assert!(r.unwrap_err().starts_with("Invalid to: "));
}

#[test]
fn build_email_needs_recipient() {
    let to: Vec<String> = vec![];
    let r = build_email(&None, "user@example.com", &to, &None, &None);
    assert!(r.unwrap_err().starts_with("Could not build email: "));
}

#[test]
fn send_prepares_valid_request() {
    let r = send(&request("user@example.com", &["dest@example.org"]));
    assert!(r.is_ok());
}

#[test]
fn send_fails_fast_on_sender() {
    let r = send(&request("bad", &["good@x.co"]));
    assert_eq!(r.err().map(|e| e), Some("Email bad is invalid".to_owned()));
}

#[test]
fn send_reports_first_invalid_recipient() {
    let r = send(&request("user@example.com", &["ok@x.co", "bad1", "bad2"]));
    assert_eq!(r.err().map(|e| e), Some("Email bad1 is invalid".to_owned()));
}

#[test]
fn classify_accepts_positive_codes() {
    assert!(classify_response(250).is_ok());
    assert!(classify_response(354).is_ok());
}

#[test]
fn classify_rejects_other_codes() {
    assert!(classify_response(199).is_err());
    assert_eq!(
        classify_response(550).unwrap_err(),
        "Unknown error. The email may have been sent. Server returned code 550."
    );
}

#[test]
fn conclude_positive_code_is_sent() {
    let outcome = conclude(classify_response(250), None, false);
    assert!(outcome.is_sent());
    assert!(matches!(outcome, RunOutcome::Sent { warning: None }));
}

#[test]
fn conclude_unknown_status_is_failed_report() {
    let outcome = conclude(classify_response(550), None, true);
    match outcome {
        RunOutcome::Failed { message } => {
            assert_eq!(
                message,
                "An error occurred, email not sent. Check your credentials, the destination email and that you are connected to the internet.\n\nError details: Unknown error. The email may have been sent. Server returned code 550."
            );
        }
        RunOutcome::Sent { .. } => panic!("code outside the positive range must not be sent"),
    }
}

#[test]
fn conclude_persist_failure_stays_sent() {
    let outcome = conclude(Ok(()), Some(Err("disk full".to_owned())), true);
    match outcome {
        RunOutcome::Sent { warning } => {
            assert_eq!(warning.as_deref(), Some("Failed to store credentials: disk full"));
        }
        RunOutcome::Failed { .. } => panic!("persistence failure must not flip a sent outcome"),
    }
}

#[test]
fn report_error_quiet() {
    assert_eq!(
        report_error("secret detail", false),
        "Email not sent. Use --verbose flag for more information."
    );
}

#[test]
fn report_error_verbose() {
    assert_eq!(
        report_error("the detail", true),
        "An error occurred, email not sent. Check your credentials, the destination email and that you are connected to the internet.\n\nError details: the detail"
    );
}
