//! The SMTP side: building the authenticated relay transport and
//! classifying the relay's response code.
//!
//! The transport is configured against a fixed relay host with TLS-wrapped
//! submission. Opening the connection and submitting the message is network
//! I/O and stays with the caller; the response code comes back here as a
//! plain number for classification.

use crate::text::{dec_of, dec_str, has_prefix};
use lettre::transport::smtp::authentication::Credentials;
use lettre::transport::smtp::SmtpTransportBuilder;
use lettre::SmtpTransport;
use vstd::prelude::*;
use vstd::string::*;

verus! {

#[verifier::external_type_specification]
#[verifier::external_body]
pub struct ExCredentials(Credentials);

#[verifier::external_type_specification]
#[verifier::external_body]
pub struct ExSmtpTransport(SmtpTransport);

#[verifier::external_type_specification]
#[verifier::external_body]
pub struct ExSmtpTransportBuilder(SmtpTransportBuilder);

/// The username and password a `Credentials` value packs.
pub uninterp spec fn login_pair(c: Credentials) -> (Seq<char>, Seq<char>);

/// The relay host a transport configuration points at.
pub uninterp spec fn relay_host(b: SmtpTransportBuilder) -> Seq<char>;

/// The username and password a transport configuration holds; the empty
/// pair while none was set.
pub uninterp spec fn builder_login(b: SmtpTransportBuilder) -> (Seq<char>, Seq<char>);

/// The relay host the finished transport connects to.
pub uninterp spec fn transport_host(t: SmtpTransport) -> Seq<char>;

/// The username and password the finished transport authenticates with.
pub uninterp spec fn transport_login(t: SmtpTransport) -> (Seq<char>, Seq<char>);

/// Relies on lettre's `Credentials::new`: packs exactly the given username
/// and password for SMTP authentication.
#[verifier::external_body]
fn new_credentials(username: String, password: String) -> (r: Credentials)
    ensures
        login_pair(r) == (username@, password@),
{
    Credentials::new(username, password)
}

/// Relies on lettre's `SmtpTransport::relay`: a TLS-wrapped submission
/// configuration pointed at the named host; the error is returned as its
/// display text.
#[verifier::external_body]
fn relay_builder(host: &str) -> (r: Result<SmtpTransportBuilder, String>)
    ensures
        r matches Ok(b) ==> relay_host(b) == host@,
{
    SmtpTransport::relay(host).map_err(|e| format!("{e}"))
}

/// Relies on lettre's `SmtpTransportBuilder::credentials`: stores exactly
/// the given credentials in the configuration and touches nothing else.
#[verifier::external_body]
fn builder_credentials(b: SmtpTransportBuilder, c: Credentials) -> (r: SmtpTransportBuilder)
    ensures
        relay_host(r) == relay_host(b),
        builder_login(r) == login_pair(c),
{
    b.credentials(c)
}

/// Relies on lettre's `SmtpTransportBuilder::build`: the finished transport
/// carries the configuration unchanged.
#[verifier::external_body]
fn build_transport(b: SmtpTransportBuilder) -> (r: SmtpTransport)
    ensures
        transport_host(r) == relay_host(b),
        transport_login(r) == builder_login(b),
{
    b.build()
}

/// Builds the transport for the fixed relay host with the given
/// credentials: a successful result is configured for exactly that host and
/// that login; a configuration failure is reported with its detail behind a
/// fixed prefix.
pub fn build_mailer(from: &str, password: &str) -> (r: Result<SmtpTransport, String>)
    ensures
        r matches Ok(t) ==> transport_host(t) == "smtp.gmail.com"@ && transport_login(t) == (
            from@,
            password@,
        ),
        r is Err ==> has_prefix(r->Err_0@, "Could not connect to gmail: "@),
{
    let creds = new_credentials(from.to_owned(), password.to_owned());
    match relay_builder("smtp.gmail.com") {
        Ok(b) => Ok(build_transport(builder_credentials(b, creds))),
        Err(e) => Err(crate::text::prefixed("Could not connect to gmail: ", e.as_str())),
    }
}

/// The message reported when submitting through the relay fails, with the
/// underlying detail behind a fixed prefix.
pub open spec fn submit_error_message(detail: Seq<char>) -> Seq<char> {
    "Could not send email: "@ + detail
}

/// The text of [`submit_error_message`] as a fresh string.
pub fn submit_error_text(detail: &str) -> (r: String)
    ensures
        r@ == submit_error_message(detail@),
{
    crate::text::prefixed("Could not send email: ", detail)
}

/// A relay response code in the positive range: the message was accepted
/// (completion or intermediate), as the first digit 2 or 3 says.
pub open spec fn positive_code(code: u16) -> bool {
    200 <= code < 400
}

/// The report for a response code outside the positive range: the relay
/// answered, so the email may already be in delivery.
pub open spec fn unknown_status_message(code: u16) -> Seq<char> {
    "Unknown error. The email may have been sent. Server returned code "@ + dec_str(code as nat)
        + "."@
}

/// Classifies the relay's response code: a positive code means the message
/// was accepted, any other code is reported per
/// [`unknown_status_message`] — without being a transport-level error.
pub fn classify_response(code: u16) -> (r: Result<(), String>)
    ensures
        r is Ok <==> positive_code(code),
        r is Err ==> r->Err_0@ == unknown_status_message(code),
{
    if 200 <= code && code < 400 {
        Ok(())
    } else {
        let mut m = "Unknown error. The email may have been sent. Server returned code ".to_owned();
        m.append(dec_of(code).as_str());
        m.append(".");
        proof {
            assert(m@ =~= unknown_status_message(code));
        }
        Err(m)
    }
}

} // verus!
