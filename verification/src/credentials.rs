//! The credential cache's two-line text format: sender address on the first
//! line, password on the second. Reading tolerates anything — fewer than two
//! lines is simply "no cached credentials" — and writing replaces the whole
//! content. The caller does the file I/O and hands the content through as
//! text.

use crate::text::{lines_of, split_lines};
use vstd::prelude::*;
use vstd::string::*;

verus! {

/// A cached sender address and password.
pub struct CredentialRecord {
    pub address: String,
    pub password: String,
}

/// The cache file's content for the pair: address, newline, password.
pub open spec fn credential_text(address: Seq<char>, password: Seq<char>) -> Seq<char> {
    address + seq!['\n'] + password
}

/// A line without its trailing carriage return, as a line of a file that
/// was written with CRLF endings reads.
pub open spec fn strip_cr(l: Seq<char>) -> Seq<char> {
    if l.len() > 0 && l.last() == '\r' {
        l.drop_last()
    } else {
        l
    }
}

/// What cache content parses to: the first two lines, or nothing when the
/// content has fewer than two.
pub open spec fn parsed_credentials(s: Seq<char>) -> Option<(Seq<char>, Seq<char>)> {
    let ls = split_lines(s);
    if ls.len() >= 2 {
        Some((strip_cr(ls[0]), strip_cr(ls[1])))
    } else {
        None
    }
}

fn strip_cr_of(line: &str) -> (r: String)
    ensures
        r@ == strip_cr(line@),
{
    let len = line.unicode_len();
    if len > 0 && line.get_char(len - 1) == '\r' {
        let r = line.substring_char(0, len - 1).to_owned();
        proof {
            assert(line@.subrange(0, len - 1) =~= line@.drop_last());
        }
        r
    } else {
        line.to_owned()
    }
}

/// The content to store for the pair, per [`credential_text`].
pub fn format_credentials(address: &str, password: &str) -> (r: String)
    ensures
        r@ == credential_text(address@, password@),
{
    let mut s = address.to_owned();
    s.append("\n");
    s.append(password);
    proof {
        reveal_strlit("\n");
        assert(s@ =~= credential_text(address@, password@));
    }
    s
}

/// Reads a cached address and password out of cache-file content, per
/// [`parsed_credentials`].
pub fn parse_credentials(content: &str) -> (r: Option<CredentialRecord>)
    ensures
        r is Some <==> parsed_credentials(content@) is Some,
        r matches Some(rec) ==> parsed_credentials(content@) == Some((rec.address@, rec.password@)),
{
    let ls = lines_of(content);
    if ls.len() >= 2 {
        let address = strip_cr_of(ls[0].as_str());
        let password = strip_cr_of(ls[1].as_str());
        proof {
            assert(ls.deep_view()[0] == ls[0]@);
            assert(ls.deep_view()[1] == ls[1]@);
        }
        Some(CredentialRecord { address, password })
    } else {
        None
    }
}

/// Saving a pair and loading it back returns the same pair, for any address
/// without a line break and any non-empty password without one.
pub proof fn lemma_credentials_round_trip(address: Seq<char>, password: Seq<char>)
    requires
        !address.contains('\n'),
        !address.contains('\r'),
        !password.contains('\n'),
        !password.contains('\r'),
        password.len() > 0,
    ensures
        parsed_credentials(credential_text(address, password)) == Some((address, password)),
{
    let s = credential_text(address, password);
    assert(s.last() == password.last());
    if password.last() == '\n' {
        assert(password[password.len() - 1] == '\n');
        assert(password.contains('\n'));
    }
    crate::text::lemma_split_full_sep(address, password);
    crate::text::lemma_split_full_no_newline(password);
    assert(split_lines(s) =~~= seq![address, password]);
    if address.len() > 0 && address.last() == '\r' {
        assert(address[address.len() - 1] == '\r');
        assert(address.contains('\r'));
    }
    if password.last() == '\r' {
        assert(password[password.len() - 1] == '\r');
        assert(password.contains('\r'));
    }
}

} // verus!
