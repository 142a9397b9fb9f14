//! Reading the reply of the language model.

use crate::contact::{opt_text, Contact, ContactView};
use crate::pattern::{capture_group, regex_group};
use crate::text::{contains, has_substring, trim, trimmed};
use vstd::prelude::*;

verus! {

/// The word by which the model says that it found nobody, in small letters.
pub const NONE_MARK: &'static str = "none";

/// The same word in capital letters, as the instruction asks for it.
pub const NONE_MARK_CAPITAL: &'static str = "NONE";

/// The regular expression whose first group is the name in a reply.
pub const NAME_PATTERN: &'static str = "<name>(.+?)</name>";

/// The regular expression whose first group is the title in a reply.
pub const TITLE_PATTERN: &'static str = "<title>(.+?)</title>";

/// The view of an optional contact.
pub open spec fn opt_contact(c: Option<Contact>) -> Option<ContactView> {
    match c {
        Some(contact) => Some(contact@),
        None => None,
    }
}

/// An optional text without the white space at its ends.
pub open spec fn opt_trimmed(text: Option<Seq<char>>) -> Option<Seq<char>> {
    match text {
        Some(t) => Some(trimmed(t)),
        None => None,
    }
}

/// A reply declines if `none` or `NONE` stands in it. Any other spelling of
/// the word, such as `None`, does not count.
pub open spec fn declines(reply: Seq<char>) -> bool {
    contains(reply, NONE_MARK@) || contains(reply, NONE_MARK_CAPITAL@)
}

/// The contact that a reply stands for, given whether it declines and what
/// its two tags hold: nobody where it declines; else the person with the
/// address `email` and, trimmed, the name and the title that were found.
pub open spec fn contact_from(
    email: Seq<char>,
    declined: bool,
    name: Option<Seq<char>>,
    title: Option<Seq<char>>,
) -> Option<ContactView> {
    if declined {
        None
    } else {
        Some(
            ContactView {
                email,
                name: opt_trimmed(name),
                title: opt_trimmed(title),
                department: None,
                contacted: None,
            },
        )
    }
}

/// The contact that `reply` stands for, asked about the address `email`.
pub open spec fn reply_contact(reply: Seq<char>, email: Seq<char>) -> Option<ContactView> {
    contact_from(
        email,
        declines(reply),
        regex_group(NAME_PATTERN@, reply, 1),
        regex_group(TITLE_PATTERN@, reply, 1),
    )
}

/// Whether `reply` says that nobody was found.
pub fn mentions_none(reply: &str) -> (b: bool)
    ensures
        b == declines(reply@),
{
    has_substring(reply, NONE_MARK) || has_substring(reply, NONE_MARK_CAPITAL)
}

/// The contact that a reply stands for, given whether it declines and what
/// its two tags hold.
pub fn contact_from_captures(
    email: &str,
    declined: bool,
    name: Option<String>,
    title: Option<String>,
) -> (r: Option<Contact>)
    ensures
        opt_contact(r) == contact_from(email@, declined, opt_text(name), opt_text(title)),
{
    if declined {
        return None;
    }
    let mut contact = Contact::new(email.to_owned());
    match name {
        Some(n) => {
            contact.name = Some(trim(n.as_str()));
        },
        None => {},
    }
    match title {
        Some(t) => {
            contact.title = Some(trim(t.as_str()));
        },
        None => {},
    }
    Some(contact)
}

/// Reads the reply that the model gave when asked about the address `email`.
/// A reply that declines stands for nobody. Any other stands for a person
/// with that address, with the name and the title that its tags hold, as far
/// as it has them.
pub fn parse_llm_reponse(reply: &str, email: &str) -> (r: Option<Contact>)
    ensures
        opt_contact(r) == reply_contact(reply@, email@),
        declines(reply@) ==> r is None,
        !declines(reply@) ==> r is Some && r->0@.email == email@,
{
    let declined = mentions_none(reply);
    let name = capture_group(NAME_PATTERN, reply, 1);
    let title = capture_group(TITLE_PATTERN, reply, 1);
    contact_from_captures(email, declined, name, title)
}

} // verus!
