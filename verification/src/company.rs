//! The companies of a roster, and which of them still await a crawl.

use crate::contact::{opt_text, Contact, ContactView};
use vstd::prelude::*;

verus! {

/// The views of `contacts`, in order.
pub open spec fn contacts_view(contacts: Seq<Contact>) -> Seq<ContactView> {
    contacts.map_values(|c: Contact| c@)
}

/// The view of an optional list of contacts.
pub open spec fn opt_contacts(personnel: Option<Vec<Contact>>) -> Option<Seq<ContactView>> {
    match personnel {
        Some(list) => Some(contacts_view(list@)),
        None => None,
    }
}

/// Mathematical content of a [`Company`].
pub struct CompanyView {
    pub rank: Seq<char>,
    pub name: Seq<char>,
    pub visited: Option<bool>,
    pub personnel: Option<Seq<ContactView>>,
    pub website: Option<Seq<char>>,
}

/// One company of the roster.
#[derive(Debug, Clone, PartialEq, Eq)]
pub struct Company {
    pub rank: String,
    pub name: String,
    pub visited: Option<bool>,
    pub personnel: Option<Vec<Contact>>,
    pub website: Option<String>,
}

impl View for Company {
    type V = CompanyView;

    open spec fn view(&self) -> CompanyView {
        CompanyView {
            rank: self.rank@,
            name: self.name@,
            visited: self.visited,
            personnel: opt_contacts(self.personnel),
            website: opt_text(self.website),
        }
    }
}

/// The views of `roster`, in order.
pub open spec fn roster_view(roster: Seq<Company>) -> Seq<CompanyView> {
    roster.map_values(|c: Company| c@)
}

/// A company lacks a website if it has neither a website nor personnel.
pub open spec fn lacks_website(company: CompanyView) -> bool {
    company.website is None && company.personnel is None
}

/// A company awaits a crawl if it has a website and no personnel yet.
pub open spec fn awaits_crawl(company: CompanyView) -> bool {
    company.website is Some && company.personnel is None
}

/// The positions among the first `upto` companies of `roster` that await a
/// crawl, rising.
pub open spec fn crawl_targets(roster: Seq<CompanyView>, upto: int) -> Seq<usize>
    decreases upto,
{
    if upto <= 0 {
        Seq::empty()
    } else {
        let before = crawl_targets(roster, upto - 1);
        if awaits_crawl(roster[upto - 1]) {
            before.push((upto - 1) as usize)
        } else {
            before
        }
    }
}

/// `company` with `personnel` as its list of contacts.
pub open spec fn enriched(company: CompanyView, personnel: Seq<ContactView>) -> CompanyView {
    CompanyView { personnel: Some(personnel), ..company }
}

/// The record of `company` after a run: with the contacts in `found` if the
/// company awaited a crawl and one was made, and as it was in every other case.
pub open spec fn settled(company: CompanyView, found: Option<Seq<ContactView>>) -> CompanyView {
    match found {
        Some(personnel) => if awaits_crawl(company) {
            enriched(company, personnel)
        } else {
            company
        },
        None => company,
    }
}

/// A run leaves the record of a company that has its personnel as it is,
/// whatever a crawl might have found.
pub proof fn lemma_settled_record_stays(company: CompanyView, found: Option<Seq<ContactView>>)
    requires
        company.personnel is Some,
    ensures
        settled(company, found) == company,
{
}

/// A record that a run has settled with the result of a crawl stays as it is
/// in every later run.
pub proof fn lemma_settling_once_is_enough(
    company: CompanyView,
    found: Seq<ContactView>,
    later: Option<Seq<ContactView>>,
)
    ensures
        settled(settled(company, Some(found)), later) == settled(company, Some(found)),
{
}

/// A roster in which every company has its personnel holds no company that
/// awaits a crawl: a second run over it fetches nothing and changes no record.
pub proof fn lemma_enriched_roster_is_done(roster: Seq<CompanyView>, upto: int)
    requires
        upto <= roster.len(),
        forall|i: int| 0 <= i < roster.len() ==> (#[trigger] roster[i]).personnel is Some,
    ensures
        crawl_targets(roster, upto) == Seq::<usize>::empty(),
    decreases upto,
{
    if upto > 0 {
        lemma_enriched_roster_is_done(roster, upto - 1);
    }
}

/// A company that has been given its personnel no longer awaits a crawl.
pub proof fn lemma_enriched_is_done(company: CompanyView, personnel: Seq<ContactView>)
    ensures
        !awaits_crawl(enriched(company, personnel)),
{
}

impl Company {
    /// A company of which only rank and name are known.
    pub fn new(rank: String, name: String) -> (c: Company)
        ensures
            c@ == (CompanyView {
                rank: rank@,
                name: name@,
                visited: None,
                personnel: None,
                website: None,
            }),
    {
        Company { rank, name, visited: None, personnel: None, website: None }
    }

    /// Whether a website is still to be looked up for the company.
    pub fn needs_website(&self) -> (b: bool)
        ensures
            b == lacks_website(self@),
    {
        self.website.is_none() && self.personnel.is_none()
    }

    /// Whether the company awaits a crawl.
    pub fn needs_crawl(&self) -> (b: bool)
        ensures
            b == awaits_crawl(self@),
            self@.personnel is Some ==> !b,
    {
        self.website.is_some() && self.personnel.is_none()
    }

    /// The record of the company after a run in which `found` is what its
    /// crawl gave, or `None` if none was made.
    pub fn after_crawl(self, found: Option<Vec<Contact>>) -> (c: Company)
        ensures
            c@ == settled(self@, opt_contacts(found)),
            self@.personnel is Some ==> c@ == self@,
    {
        match found {
            Some(personnel) => {
                if self.needs_crawl() {
                    self.with_personnel(personnel)
                } else {
                    self
                }
            },
            None => self,
        }
    }

    /// The company with the contacts that its crawl found.
    pub fn with_personnel(self, personnel: Vec<Contact>) -> (c: Company)
        ensures
            c@ == enriched(self@, contacts_view(personnel@)),
    {
        Company {
            rank: self.rank,
            name: self.name,
            visited: self.visited,
            personnel: Some(personnel),
            website: self.website,
        }
    }
}

/// The positions of the companies of `roster` that await a crawl, rising.
pub fn pending_companies(roster: &Vec<Company>) -> (targets: Vec<usize>)
    ensures
        targets@ == crawl_targets(roster_view(roster@), roster.len() as int),
        forall|k: int| 0 <= k < targets.len() ==> (#[trigger] targets[k]) < roster.len(),
{
    let mut targets: Vec<usize> = Vec::new();
    let mut i: usize = 0;
    while i < roster.len()
        invariant
            i <= roster.len(),
            targets@ == crawl_targets(roster_view(roster@), i as int),
            forall|k: int| 0 <= k < targets.len() ==> (#[trigger] targets[k]) < roster.len(),
        decreases roster.len() - i,
    {
        assert(roster_view(roster@)[i as int] == roster@[i as int]@);
        if roster[i].needs_crawl() {
            targets.push(i);
        }
        i += 1;
    }
    targets
}

} // verus!
