//! The send pipeline: validate the request, build the message and the
//! transport, and classify the outcome.
//!
//! Validation fails fast on the first invalid address — the sender before
//! the recipients, the recipients in list order — so nothing is built and no
//! network is touched for a rejected request. The network submission itself
//! is the caller's step: [`send`] hands back the prepared message and
//! transport, the caller submits and returns the relay's code to
//! [`crate::transport::classify_response`], and [`conclude`] folds the
//! outcome and an optional credential-persistence result into the terminal
//! state. A persistence failure after an accepted send stays a warning: the
//! email is already in delivery.

use crate::args::MailArguments;
use crate::message::{
    build_email, first_unparsable, from_field, message_subject, message_texts, or_empty_text,
    parses_as_mailbox,
};
use crate::text::has_prefix;
use crate::transport::{build_mailer, transport_host, transport_login};
use crate::validate::{invalid_email_message, is_valid_email, valid_email};
use lettre::Message;
use lettre::SmtpTransport;
use vstd::prelude::*;
use vstd::string::*;

verus! {

/// A validated request, built and ready for submission.
pub struct PreparedMail {
    pub message: Message,
    pub transport: SmtpTransport,
}

/// The first recipient that fails validation, if any.
pub open spec fn first_invalid_recipient(to: Seq<Seq<char>>) -> Option<Seq<char>>
    decreases to.len(),
{
    if to.len() == 0 {
        None
    } else if !valid_email(to[0]) {
        Some(to[0])
    } else {
        first_invalid_recipient(to.drop_first())
    }
}

/// The message validation rejects a request with: the sender's, if the
/// sender is invalid, else the first invalid recipient's.
pub open spec fn validation_error(from: Seq<char>, to: Seq<Seq<char>>) -> Option<Seq<char>> {
    if !valid_email(from) {
        Some(invalid_email_message(from))
    } else {
        match first_invalid_recipient(to) {
            Some(t) => Some(invalid_email_message(t)),
            None => None,
        }
    }
}

/// An invalid sender rejects the whole request with the sender's message,
/// whatever the recipients hold: recipient checks never come first.
pub proof fn lemma_fail_fast(from: Seq<char>, to: Seq<Seq<char>>)
    requires
        !valid_email(from),
    ensures
        validation_error(from, to) == Some(invalid_email_message(from)),
{
}

pub proof fn lemma_first_invalid_at(to: Seq<Seq<char>>, i: int)
    requires
        0 <= i <= to.len(),
        forall|k: int| 0 <= k < i ==> valid_email(to[k]),
    ensures
        i == to.len() ==> first_invalid_recipient(to) is None,
        i < to.len() && !valid_email(to[i]) ==> first_invalid_recipient(to) == Some(to[i]),
    decreases i,
{
    if i > 0 {
        assert(forall|k: int| 0 <= k < i - 1 ==> to.drop_first()[k] == to[k + 1]);
        lemma_first_invalid_at(to.drop_first(), i - 1);
        if i < to.len() {
            assert(to.drop_first()[i - 1] == to[i]);
        }
    }
}

/// Validates the request and prepares the message and the transport for
/// submission. The sender is checked before the recipients and the
/// recipients in list order; the first invalid address rejects the request
/// with its message, before anything is built.
pub fn send(mail_params: &MailArguments) -> (r: Result<PreparedMail, String>)
    ensures
        validation_error(mail_params.from@, mail_params.to.deep_view()) matches Some(m) ==> r
            is Err && r->Err_0@ == m,
        r is Ok ==> validation_error(mail_params.from@, mail_params.to.deep_view()) is None
            && parses_as_mailbox(from_field(mail_params.name.deep_view(), mail_params.from@))
            && first_unparsable(mail_params.to.deep_view()) is None,
        validation_error(mail_params.from@, mail_params.to.deep_view()) is None
            && !parses_as_mailbox(from_field(mail_params.name.deep_view(), mail_params.from@))
            ==> r is Err && has_prefix(r->Err_0@, "Invalid from: "@),
        validation_error(mail_params.from@, mail_params.to.deep_view()) is None
            && parses_as_mailbox(from_field(mail_params.name.deep_view(), mail_params.from@))
            && first_unparsable(mail_params.to.deep_view()) is Some ==> r is Err && has_prefix(
            r->Err_0@,
            "Invalid to: "@,
        ),
        validation_error(mail_params.from@, mail_params.to.deep_view()) is None && r is Err
            ==> has_prefix(r->Err_0@, "Invalid from: "@) || has_prefix(r->Err_0@, "Invalid to: "@)
            || has_prefix(r->Err_0@, "Could not build email: "@) || has_prefix(
            r->Err_0@,
            "Could not connect to gmail: "@,
        ),
        validation_error(mail_params.from@, mail_params.to.deep_view()) is None
            && parses_as_mailbox(from_field(mail_params.name.deep_view(), mail_params.from@))
            && first_unparsable(mail_params.to.deep_view()) is None && mail_params.to@.len() > 0
            && r is Err ==> has_prefix(r->Err_0@, "Could not connect to gmail: "@),
        validation_error(mail_params.from@, mail_params.to.deep_view()) is None
            && parses_as_mailbox(from_field(mail_params.name.deep_view(), mail_params.from@))
            && first_unparsable(mail_params.to.deep_view()) is None && mail_params.to@.len() == 0
            ==> r is Err && has_prefix(r->Err_0@, "Could not build email: "@),
        r matches Ok(p) ==> message_subject(p.message) == or_empty_text(
            mail_params.subject.deep_view(),
        ) && message_texts(p.message) == seq![or_empty_text(mail_params.body.deep_view())]
            && transport_host(p.transport) == "smtp.gmail.com"@ && transport_login(p.transport)
            == (mail_params.from@, mail_params.password@),
{
    if let Err(e) = is_valid_email(mail_params.from.as_str()) {
        return Err(e);
    }
    let mut i: usize = 0;
    while i < mail_params.to.len()
        invariant
            i <= mail_params.to.len(),
            valid_email(mail_params.from@),
            forall|k: int| 0 <= k < i ==> valid_email(mail_params.to.deep_view()[k]),
        decreases mail_params.to.len() - i,
    {
        proof {
            assert(mail_params.to.deep_view()[i as int] == mail_params.to[i as int]@);
        }
        if let Err(e) = is_valid_email(mail_params.to[i].as_str()) {
            proof {
                lemma_first_invalid_at(mail_params.to.deep_view(), i as int);
            }
            return Err(e);
        }
        i = i + 1;
    }
    proof {
        lemma_first_invalid_at(mail_params.to.deep_view(), mail_params.to.len() as int);
    }
    let message = match build_email(
        &mail_params.name,
        mail_params.from.as_str(),
        &mail_params.to,
        &mail_params.subject,
        &mail_params.body,
    ) {
        Ok(m) => m,
        Err(e) => {
            return Err(e);
        },
    };
    let transport = match build_mailer(mail_params.from.as_str(), mail_params.password.as_str()) {
        Ok(t) => t,
        Err(e) => {
            return Err(e);
        },
    };
    Ok(PreparedMail { message, transport })
}

/// The detailed failure report shown with the verbose flag.
pub open spec fn verbose_error_message(detail: Seq<char>) -> Seq<char> {
    "An error occurred, email not sent. Check your credentials, the destination email and that you are connected to the internet.\n\nError details: "@
        + detail
}

/// The generic failure report shown without the verbose flag: no internal
/// detail crosses the user-facing boundary.
pub open spec fn quiet_error_message() -> Seq<char> {
    "Email not sent. Use --verbose flag for more information."@
}

/// The failure report for a detail, gated by verbosity.
pub open spec fn error_report(detail: Seq<char>, verbose: bool) -> Seq<char> {
    if verbose {
        verbose_error_message(detail)
    } else {
        quiet_error_message()
    }
}

/// Renders the failure report per [`error_report`].
pub fn report_error(detail: &str, verbose: bool) -> (r: String)
    ensures
        r@ == error_report(detail@, verbose),
{
    if verbose {
        crate::text::prefixed(
            "An error occurred, email not sent. Check your credentials, the destination email and that you are connected to the internet.\n\nError details: ",
            detail,
        )
    } else {
        "Email not sent. Use --verbose flag for more information.".to_owned()
    }
}

/// The warning kept with a sent outcome when persisting the credentials
/// failed, gated by verbosity like every other detail.
pub open spec fn store_warning(detail: Seq<char>, verbose: bool) -> Seq<char> {
    if verbose {
        "Failed to store credentials: "@ + detail
    } else {
        "Failed to store credentials. Use --verbose flag for more information."@
    }
}

/// Renders the persistence warning per [`store_warning`].
pub fn store_warning_text(detail: &str, verbose: bool) -> (r: String)
    ensures
        r@ == store_warning(detail@, verbose),
{
    if verbose {
        crate::text::prefixed("Failed to store credentials: ", detail)
    } else {
        "Failed to store credentials. Use --verbose flag for more information.".to_owned()
    }
}

/// Credentials are persisted only after an accepted send and only when the
/// store flag is set.
pub fn should_persist(send_result: &Result<(), String>, store: bool) -> (r: bool)
    ensures
        r == (send_result is Ok && store),
{
    send_result.is_ok() && store
}

/// The pipeline's terminal state: the relay accepted the message, possibly
/// with a persistence warning, or the run failed with a report.
pub enum RunOutcome {
    Sent { warning: Option<String> },
    Failed { message: String },
}

impl RunOutcome {
    /// Whether the relay accepted the message.
    pub fn is_sent(&self) -> (r: bool)
        ensures
            r == (self is Sent),
    {
        match self {
            RunOutcome::Sent { .. } => true,
            RunOutcome::Failed { .. } => false,
        }
    }
}

/// Folds the send outcome, the optional credential-persistence outcome and
/// the verbosity flag into the terminal state. A failed send is terminal
/// with its gated report; a persistence failure after an accepted send only
/// adds a warning — the email was already delivered, so the outcome stays
/// sent.
pub fn conclude(
    send_result: Result<(), String>,
    persist_result: Option<Result<(), String>>,
    verbose: bool,
) -> (r: RunOutcome)
    ensures
        send_result matches Err(e) ==> (r matches RunOutcome::Failed { message } && message@
            == error_report(e@, verbose)),
        send_result is Ok && !(persist_result matches Some(p) && p is Err) ==> (r matches
            RunOutcome::Sent { warning } && warning is None),
        send_result is Ok ==> (persist_result matches Some(p) ==> (p matches Err(e) ==> (r matches
            RunOutcome::Sent { warning } && warning matches Some(w) && w@ == store_warning(
            e@,
            verbose,
        )))),
{
    match send_result {
        Err(e) => RunOutcome::Failed { message: report_error(e.as_str(), verbose) },
        Ok(()) => match persist_result {
            Some(Err(e)) => RunOutcome::Sent {
                warning: Some(store_warning_text(e.as_str(), verbose)),
            },
            _ => RunOutcome::Sent { warning: None },
        },
    }
}

} // verus!
