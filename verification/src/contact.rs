//! The records that a crawl produces.

use vstd::prelude::*;

verus! {

/// The view of an optional string.
pub open spec fn opt_text(s: Option<String>) -> Option<Seq<char>> {
    match s {
        Some(t) => Some(t@),
        None => None,
    }
}

/// Mathematical content of a [`Contact`].
pub struct ContactView {
    pub email: Seq<char>,
    pub name: Option<Seq<char>>,
    pub title: Option<Seq<char>>,
    pub department: Option<bool>,
    pub contacted: Option<bool>,
}

/// One person of a company, keyed by e-mail address.
#[derive(Debug, Clone, PartialEq, Eq)]
pub struct Contact {
    pub name: Option<String>,
    pub title: Option<String>,
    pub department: Option<bool>,
    pub email: String,
    pub contacted: Option<bool>,
}

impl View for Contact {
    type V = ContactView;

    open spec fn view(&self) -> ContactView {
        ContactView {
            email: self.email@,
            name: opt_text(self.name),
            title: opt_text(self.title),
            department: self.department,
            contacted: self.contacted,
        }
    }
}

/// The contact that carries an address and nothing else.
pub open spec fn bare_contact(email: Seq<char>) -> ContactView {
    ContactView { email, name: None, title: None, department: None, contacted: None }
}

impl Contact {
    /// A contact of which only the address is known.
    pub fn new(email: String) -> (c: Contact)
        ensures
            c@ == bare_contact(email@),
    {
        Contact { name: None, title: None, department: None, email, contacted: None }
    }
}

} // verus!
