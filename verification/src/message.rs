//! Construction of the outgoing message through lettre.
//!
//! The sender mailbox is formatted as `name <address>` when a display name
//! is present; sender and recipients then pass lettre's strict mailbox
//! grammar — a deliberate second line of defense behind the permissive
//! validator — and the body becomes the single part of a mixed multipart
//! container. The lettre calls stand behind trusted wrappers; the logic
//! around them is verified.

use crate::text::has_prefix;
use lettre::message::{Mailbox, MessageBuilder, MultiPart, MultiPartBuilder, SinglePart};
use lettre::Message;
use vstd::prelude::*;
use vstd::string::*;

verus! {

#[verifier::external_type_specification]
#[verifier::external_body]
pub struct ExMailbox(Mailbox);

#[verifier::external_type_specification]
#[verifier::external_body]
pub struct ExMessage(Message);

#[verifier::external_type_specification]
#[verifier::external_body]
pub struct ExMessageBuilder(MessageBuilder);

#[verifier::external_type_specification]
#[verifier::external_body]
pub struct ExSinglePart(SinglePart);

#[verifier::external_type_specification]
#[verifier::external_body]
pub struct ExMultiPart(MultiPart);

#[verifier::external_type_specification]
#[verifier::external_body]
pub struct ExMultiPartBuilder(MultiPartBuilder);

/// Whether lettre's mailbox grammar accepts `s`: what `Mailbox::from_str`
/// decides, a function of the characters alone.
pub uninterp spec fn parses_as_mailbox(s: Seq<char>) -> bool;

/// Relies on lettre's `Mailbox::from_str` (`str::parse::<Mailbox>`): its
/// outcome depends on the input characters alone; the error is returned as
/// its display text.
#[verifier::external_body]
fn parse_mailbox(s: &str) -> (r: Result<Mailbox, String>)
    ensures
        r is Ok <==> parses_as_mailbox(s@),
{
    match s.parse::<Mailbox>() {
        Ok(m) => Ok(m),
        Err(e) => Err(format!("{e}")),
    }
}

/// How many mailboxes the builder's `From` header holds.
pub uninterp spec fn from_mailboxes(b: MessageBuilder) -> nat;

/// How many envelope recipients the builder's headers hold: the mailboxes
/// of its `To`, `Cc` and `Bcc` headers together.
pub uninterp spec fn recipient_mailboxes(b: MessageBuilder) -> nat;

/// Whether an explicit envelope was forced on the builder in place of the
/// one derived from its headers.
pub uninterp spec fn preset_envelope(b: MessageBuilder) -> bool;

/// The text of the builder's `Subject` header; the empty sequence while
/// none was set.
pub uninterp spec fn subject_text(b: MessageBuilder) -> Seq<char>;

/// The text a plain-text part carries.
pub uninterp spec fn part_text(p: SinglePart) -> Seq<char>;

/// The texts of the parts a container holds, in order.
pub uninterp spec fn container_texts(mp: MultiPart) -> Seq<Seq<char>>;

/// The text of the message's `Subject` header; the empty sequence when
/// none is there.
pub uninterp spec fn message_subject(m: Message) -> Seq<char>;

/// The texts of the parts the message's body container holds, in order.
pub uninterp spec fn message_texts(m: Message) -> Seq<Seq<char>>;

/// Relies on lettre's `Message::builder`: a fresh builder with empty
/// headers and no forced envelope.
#[verifier::external_body]
fn new_builder() -> (r: MessageBuilder)
    ensures
        from_mailboxes(r) == 0,
        recipient_mailboxes(r) == 0,
        !preset_envelope(r),
{
    Message::builder()
}

/// Relies on lettre's `MessageBuilder::from`: merges one mailbox into the
/// `From` header and touches neither the recipient headers nor the
/// envelope.
#[verifier::external_body]
fn builder_from(b: MessageBuilder, mbox: Mailbox) -> (r: MessageBuilder)
    ensures
        from_mailboxes(r) == from_mailboxes(b) + 1,
        recipient_mailboxes(r) == recipient_mailboxes(b),
        preset_envelope(r) == preset_envelope(b),
{
    b.from(mbox)
}

/// Relies on lettre's `MessageBuilder::to`: merges one mailbox into the
/// `To` header and touches neither the `From` header nor the envelope.
#[verifier::external_body]
fn builder_to(b: MessageBuilder, mbox: Mailbox) -> (r: MessageBuilder)
    ensures
        from_mailboxes(r) == from_mailboxes(b),
        recipient_mailboxes(r) == recipient_mailboxes(b) + 1,
        preset_envelope(r) == preset_envelope(b),
{
    b.to(mbox)
}

/// Relies on lettre's `MessageBuilder::subject`: replaces the `Subject`
/// header with exactly the given text and touches no mailbox header and no
/// envelope.
#[verifier::external_body]
fn builder_subject(b: MessageBuilder, subject: String) -> (r: MessageBuilder)
    ensures
        from_mailboxes(r) == from_mailboxes(b),
        recipient_mailboxes(r) == recipient_mailboxes(b),
        preset_envelope(r) == preset_envelope(b),
        subject_text(r) == subject@,
{
    b.subject(subject)
}

/// Relies on lettre's `SinglePart::plain`: a plain-text part carrying
/// exactly the given string.
#[verifier::external_body]
fn plain_part(body: String) -> (r: SinglePart)
    ensures
        part_text(r) == body@,
{
    SinglePart::plain(body)
}

/// Relies on lettre's `MultiPart::mixed`.
#[verifier::external_body]
fn mixed_builder() -> MultiPartBuilder {
    MultiPart::mixed()
}

/// Relies on lettre's `MultiPartBuilder::singlepart`: a container holding
/// exactly the one given part, whatever the builder held.
#[verifier::external_body]
fn multipart_of(b: MultiPartBuilder, part: SinglePart) -> (r: MultiPart)
    ensures
        container_texts(r) == seq![part_text(part)],
{
    b.singlepart(part)
}

/// Relies on lettre's `MessageBuilder::multipart`: with exactly one `From`
/// mailbox set, assembly succeeds when at least one recipient is set, and
/// fails when none is and no envelope was forced; the message keeps the
/// builder's `Subject` header and takes the container as its body; the
/// error is returned as its display text.
#[verifier::external_body]
fn assemble(b: MessageBuilder, part: MultiPart) -> (r: Result<Message, String>)
    ensures
        from_mailboxes(b) == 1 && recipient_mailboxes(b) >= 1 ==> r is Ok,
        from_mailboxes(b) == 1 && recipient_mailboxes(b) == 0 && !preset_envelope(b) ==> r is Err,
        r matches Ok(m) ==> message_subject(m) == subject_text(b) && message_texts(m)
            == container_texts(part),
{
    b.multipart(part).map_err(|e| format!("{e}"))
}

/// The given text, or the empty sequence where there is none: what an
/// absent subject or body becomes at build time.
pub open spec fn or_empty_text(o: Option<Seq<char>>) -> Seq<char> {
    match o {
        Some(s) => s,
        None => Seq::<char>::empty(),
    }
}

/// The sender field: `name <address>` with a display name, else the bare
/// address.
pub open spec fn from_field(name: Option<Seq<char>>, from: Seq<char>) -> Seq<char> {
    match name {
        Some(n) => n + " <"@ + from + ">"@,
        None => from,
    }
}

/// The first recipient that lettre's mailbox grammar rejects, if any.
pub open spec fn first_unparsable(ts: Seq<Seq<char>>) -> Option<Seq<char>>
    decreases ts.len(),
{
    if ts.len() == 0 {
        None
    } else if !parses_as_mailbox(ts[0]) {
        Some(ts[0])
    } else {
        first_unparsable(ts.drop_first())
    }
}

pub proof fn lemma_first_unparsable_at(ts: Seq<Seq<char>>, i: int)
    requires
        0 <= i <= ts.len(),
        forall|k: int| 0 <= k < i ==> parses_as_mailbox(ts[k]),
    ensures
        i == ts.len() ==> first_unparsable(ts) is None,
        i < ts.len() && !parses_as_mailbox(ts[i]) ==> first_unparsable(ts) == Some(ts[i]),
    decreases i,
{
    if i > 0 {
        assert(forall|k: int| 0 <= k < i - 1 ==> ts.drop_first()[k] == ts[k + 1]);
        lemma_first_unparsable_at(ts.drop_first(), i - 1);
        if i < ts.len() {
            assert(ts.drop_first()[i - 1] == ts[i]);
        }
    }
}

/// Renders the sender field per [`from_field`].
pub fn format_from(name: &Option<String>, from: &str) -> (r: String)
    ensures
        r@ == from_field(name.deep_view(), from@),
{
    match name {
        Some(n) => {
            let mut s = n.as_str().to_owned();
            s.append(" <");
            s.append(from);
            s.append(">");
            proof {
                assert(s@ =~= from_field(name.deep_view(), from@));
            }
            s
        },
        None => from.to_owned(),
    }
}

/// Builds the email: the sender field and every recipient must pass
/// lettre's mailbox grammar, the sender checked first and the recipients in
/// list order. The message carries the subject — an absent one as the empty
/// string — and a body container holding exactly one plain-text part, the
/// body or the empty string.
pub fn build_email(
    name: &Option<String>,
    from: &str,
    to: &Vec<String>,
    subject: &Option<String>,
    body: &Option<String>,
) -> (r: Result<Message, String>)
    ensures
        r is Ok ==> parses_as_mailbox(from_field(name.deep_view(), from@)) && first_unparsable(
            to.deep_view(),
        ) is None,
        !parses_as_mailbox(from_field(name.deep_view(), from@)) ==> r is Err && has_prefix(
            r->Err_0@,
            "Invalid from: "@,
        ),
        parses_as_mailbox(from_field(name.deep_view(), from@)) && first_unparsable(
            to.deep_view(),
        ) is Some ==> r is Err && has_prefix(r->Err_0@, "Invalid to: "@),
        parses_as_mailbox(from_field(name.deep_view(), from@)) && first_unparsable(
            to.deep_view(),
        ) is None && r is Err ==> has_prefix(r->Err_0@, "Could not build email: "@),
        parses_as_mailbox(from_field(name.deep_view(), from@)) && first_unparsable(
            to.deep_view(),
        ) is None && to@.len() > 0 ==> r is Ok,
        parses_as_mailbox(from_field(name.deep_view(), from@)) && first_unparsable(
            to.deep_view(),
        ) is None && to@.len() == 0 ==> r is Err && has_prefix(
            r->Err_0@,
            "Could not build email: "@,
        ),
        r matches Ok(m) ==> message_subject(m) == or_empty_text(subject.deep_view())
            && message_texts(m) == seq![or_empty_text(body.deep_view())],
{
    let sender_text = format_from(name, from);
    let sender = match parse_mailbox(sender_text.as_str()) {
        Ok(m) => m,
        Err(e) => {
            return Err(crate::text::prefixed("Invalid from: ", e.as_str()));
        },
    };
    let mut b = builder_from(new_builder(), sender);
    let mut i: usize = 0;
    while i < to.len()
        invariant
            i <= to.len(),
            parses_as_mailbox(from_field(name.deep_view(), from@)),
            forall|k: int| 0 <= k < i ==> parses_as_mailbox(to.deep_view()[k]),
            from_mailboxes(b) == 1,
            recipient_mailboxes(b) == i,
            !preset_envelope(b),
        decreases to.len() - i,
    {
        proof {
            assert(to.deep_view()[i as int] == to[i as int]@);
        }
        let mbox = match parse_mailbox(to[i].as_str()) {
            Ok(m) => m,
            Err(e) => {
                proof {
                    lemma_first_unparsable_at(to.deep_view(), i as int);
                }
                return Err(crate::text::prefixed("Invalid to: ", e.as_str()));
            },
        };
        b = builder_to(b, mbox);
        i = i + 1;
    }
    proof {
        lemma_first_unparsable_at(to.deep_view(), to.len() as int);
    }
    let subject_value = match subject {
        Some(s) => s.clone(),
        None => String::new(),
    };
    let body_value = match body {
        Some(s) => s.clone(),
        None => String::new(),
    };
    let part = plain_part(body_value);
    let container = multipart_of(mixed_builder(), part);
    match assemble(builder_subject(b, subject_value), container) {
        Ok(m) => Ok(m),
        Err(e) => Err(crate::text::prefixed("Could not build email: ", e.as_str())),
    }
}

} // verus!
