//! Resolution of command-line arguments against cached credentials.
//!
//! An explicit command-line value always wins; a cached value is only a
//! fallback for the sender address and the password; a field absent from
//! both stays empty and is rejected by validation downstream, which is the
//! only other source it could have had.

use crate::credentials::CredentialRecord;
use vstd::prelude::*;
use vstd::string::*;

verus! {

/// Command-line input as parsed, before merging: every credential field may
/// still be absent.
pub struct OptionalMailArguments {
    pub body: Option<String>,
    pub bypass_editor: bool,
    pub from: Option<String>,
    pub name: Option<String>,
    pub password: Option<String>,
    pub store: bool,
    pub subject: Option<String>,
    pub to: Vec<String>,
    pub verbose: bool,
}

/// A complete mail request: sender and password resolved, subject and body
/// possibly still waiting for the editor round-trip.
pub struct MailArguments {
    pub body: Option<String>,
    pub bypass_editor: bool,
    pub from: String,
    pub name: Option<String>,
    pub password: String,
    pub store: bool,
    pub subject: Option<String>,
    pub to: Vec<String>,
    pub verbose: bool,
}

/// The merge of one field: the explicit value, else the cached one, else
/// empty.
pub open spec fn resolved(cli: Option<Seq<char>>, cached: Option<Seq<char>>) -> Seq<char> {
    match cli {
        Some(s) => s,
        None => match cached {
            Some(c) => c,
            None => Seq::<char>::empty(),
        },
    }
}

/// The address of a cached record, if one is there.
pub open spec fn cached_address(cached: Option<CredentialRecord>) -> Option<Seq<char>> {
    match cached {
        Some(c) => Some(c.address@),
        None => None,
    }
}

/// The password of a cached record, if one is there.
pub open spec fn cached_password(cached: Option<CredentialRecord>) -> Option<Seq<char>> {
    match cached {
        Some(c) => Some(c.password@),
        None => None,
    }
}

fn merge_field(cli: Option<String>, stored: &str) -> (r: String)
    ensures
        r@ == resolved(cli.deep_view(), Some(stored@)),
{
    match cli {
        Some(s) => s,
        None => stored.to_owned(),
    }
}

impl MailArguments {
    /// Merges command-line input with stored credentials: explicit values
    /// win, the stored address and password only fill the gaps.
    pub fn new_with_credentials(
        args: OptionalMailArguments,
        stored_from: &str,
        stored_password: &str,
    ) -> (r: Self)
        ensures
            r.from@ == resolved(args.from.deep_view(), Some(stored_from@)),
            r.password@ == resolved(args.password.deep_view(), Some(stored_password@)),
            r.body == args.body,
            r.bypass_editor == args.bypass_editor,
            r.name == args.name,
            r.store == args.store,
            r.subject == args.subject,
            r.to == args.to,
            r.verbose == args.verbose,
    {
        let from = merge_field(args.from, stored_from);
        let password = merge_field(args.password, stored_password);
        MailArguments {
            body: args.body,
            bypass_editor: args.bypass_editor,
            from,
            name: args.name,
            password,
            store: args.store,
            subject: args.subject,
            to: args.to,
            verbose: args.verbose,
        }
    }

    /// Merges command-line input with whatever the credential cache held:
    /// explicit values win, cached values are the fallback, and a field
    /// absent from both ends up empty.
    pub fn resolve(args: OptionalMailArguments, cached: Option<CredentialRecord>) -> (r: Self)
        ensures
            r.from@ == resolved(args.from.deep_view(), cached_address(cached)),
            r.password@ == resolved(args.password.deep_view(), cached_password(cached)),
            r.body == args.body,
            r.bypass_editor == args.bypass_editor,
            r.name == args.name,
            r.store == args.store,
            r.subject == args.subject,
            r.to == args.to,
            r.verbose == args.verbose,
    {
        match cached {
            Some(c) => Self::new_with_credentials(args, c.address.as_str(), c.password.as_str()),
            None => {
                let from = match args.from {
                    Some(s) => s,
                    None => String::new(),
                };
                let password = match args.password {
                    Some(s) => s,
                    None => String::new(),
                };
                MailArguments {
                    body: args.body,
                    bypass_editor: args.bypass_editor,
                    from,
                    name: args.name,
                    password,
                    store: args.store,
                    subject: args.subject,
                    to: args.to,
                    verbose: args.verbose,
                }
            },
        }
    }

    /// The editor round-trip runs only when subject and body are both
    /// absent and the bypass flag is not set.
    pub fn needs_editor(&self) -> (r: bool)
        ensures
            r == (self.subject is None && self.body is None && !self.bypass_editor),
    {
        self.subject.is_none() && self.body.is_none() && !self.bypass_editor
    }

    /// Takes what the editor round-trip produced: its subject, if it found
    /// one, and its body.
    pub fn apply_editor_result(&mut self, subject: Option<String>, body: String)
        ensures
            final (self).subject == subject,
            final (self).body == Some(body),
            final (self).from == old(self).from,
            final (self).password == old(self).password,
            final (self).to == old(self).to,
            final (self).name == old(self).name,
            final (self).bypass_editor == old(self).bypass_editor,
            final (self).store == old(self).store,
            final (self).verbose == old(self).verbose,
    {
        self.subject = subject;
        self.body = Some(body);
    }
}

} // verus!
