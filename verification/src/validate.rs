//! Syntactic validation of email addresses.
//!
//! The rule is a permissive sanity filter, not an RFC grammar: an address is
//! valid iff it contains exactly one `@`, at least one `.`, is longer than
//! four bytes in UTF-8, and ends in an ASCII letter.

use crate::text::count_char;
use vstd::prelude::*;
use vstd::string::*;
use vstd::utf8::encode_utf8;

verus! {

/// `c` is an ASCII letter.
pub open spec fn is_ascii_letter(c: char) -> bool {
    (65 <= c as u32 && c as u32 <= 90) || (97 <= c as u32 && c as u32 <= 122)
}

/// The validation rule: exactly one `@`, at least one `.`, more than four
/// bytes in UTF-8, and a final ASCII letter.
pub open spec fn valid_email(s: Seq<char>) -> bool {
    &&& count_char(s, '@') == 1
    &&& count_char(s, '.') >= 1
    &&& encode_utf8(s).len() > 4
    &&& is_ascii_letter(s.last())
}

/// The message reported for an address that fails validation.
pub open spec fn invalid_email_message(email: Seq<char>) -> Seq<char> {
    "Email "@ + email + " is invalid"@
}

fn ascii_letter(c: char) -> (r: bool)
    ensures
        r == is_ascii_letter(c),
{
    let u = c as u32;
    (65 <= u && u <= 90) || (97 <= u && u <= 122)
}

/// The text of [`invalid_email_message`] as a fresh string.
pub fn invalid_email_text(email: &str) -> (r: String)
    ensures
        r@ == invalid_email_message(email@),
{
    let mut m = "Email ".to_owned();
    m.append(email);
    m.append(" is invalid");
    proof {
        assert(m@ =~= invalid_email_message(email@));
    }
    m
}

/// Checks if an email address is valid; an invalid one is reported with
/// [`invalid_email_message`].
pub fn is_valid_email(email: &str) -> (r: Result<(), String>)
    ensures
        r is Ok <==> valid_email(email@),
        r is Err ==> r->Err_0@ == invalid_email_message(email@),
{
    let ats = crate::text::count_char_in(email, '@');
    let dots = crate::text::count_char_in(email, '.');
    let bytes = email.as_bytes();
    if ats == 1 && dots >= 1 && bytes.len() > 4 {
        proof {
            if email@.len() == 0 {
                assert(encode_utf8(email@).len() == 0);
            }
        }
        let chars = email.unicode_len();
        if ascii_letter(email.get_char(chars - 1)) {
            Ok(())
        } else {
            Err(invalid_email_text(email))
        }
    } else {
        Err(invalid_email_text(email))
    }
}

} // verus!
