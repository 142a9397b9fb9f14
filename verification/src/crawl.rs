//! The crawl of one company's site, as a machine that is told what happened
//! and says what to do next.
//!
//! A crawl begins by asking for the homepage and seeds its queue with the
//! personnel links found there. It then drains the queue in the order of
//! discovery: each address of the site that has not been handed out before is
//! fetched; its personnel links join the queue; each address found in a
//! contact anchor, unless it has been met before, is put to the language
//! model together with the text around its anchor; and whoever the model
//! names is added to the contacts. The crawl is done when the queue is empty.

use crate::contact::{opt_text, Contact, ContactView};
use crate::company::contacts_view;
use crate::context::{context_of, extract_parent_content};
use crate::dom::{Page, PageView};
use crate::links::{anchor_targets, parse_page_for_team_links, team_links};
use crate::locator::{email_at, find_mailto_links, mail_links, parse_email};
use crate::prompt::{extraction_request, messages_view, request_for, ChatMessage, ChatMessageView};
use crate::reply::{opt_contact, parse_llm_reponse, reply_contact};
use crate::text::{
    has_prefix, holds_text, lemma_texts_push, lemma_texts_rest, starts_with, texts,
};
use std::collections::VecDeque;
use vstd::prelude::*;

verus! {

/// The number of characters of context that are gathered for one address.
pub const CONTEXT_BUDGET: usize = 1000;

/// Mathematical content of an [`ExtractionJob`].
pub struct JobView {
    pub email: Seq<char>,
    pub messages: Seq<ChatMessageView>,
}

/// One question for the language model: the address it is about, and the
/// messages to send.
#[derive(Debug, Clone, PartialEq, Eq)]
pub struct ExtractionJob {
    pub email: String,
    pub messages: Vec<ChatMessage>,
}

impl View for ExtractionJob {
    type V = JobView;

    open spec fn view(&self) -> JobView {
        JobView { email: self.email@, messages: messages_view(self.messages@) }
    }
}

/// The views of `jobs`, in order.
pub open spec fn jobs_view(jobs: Seq<ExtractionJob>) -> Seq<JobView> {
    jobs.map_values(|j: ExtractionJob| j@)
}

/// The addresses that `jobs` are about, in order.
pub open spec fn job_emails(jobs: Seq<JobView>) -> Seq<Seq<char>> {
    jobs.map_values(|j: JobView| j.email)
}

/// Where a crawl stands. It seeds its queue, drains it, and is done; while
/// it drains, it waits for a page or for a reply in turn.
#[derive(Debug, Clone, Copy, PartialEq, Eq, Structural)]
pub enum Phase {
    /// Seeding: the homepage has been asked for.
    Seeding,
    /// Draining: a queued page has been asked for.
    Fetching,
    /// Draining: the language model has been asked about an address.
    Extracting,
    /// Done: the queue is empty.
    Done,
}

/// Mathematical content of an [`Action`].
pub enum ActionView {
    Fetch(Seq<char>),
    Extract(JobView),
    Done,
}

/// What the caller is to do next.
#[derive(Debug, Clone, PartialEq, Eq)]
pub enum Action {
    /// Fetch the page at this address and report it.
    Fetch(String),
    /// Put this question to the language model and report its reply.
    Extract(ExtractionJob),
    /// Nothing: the crawl is done.
    Done,
}

impl View for Action {
    type V = ActionView;

    open spec fn view(&self) -> ActionView {
        match *self {
            Action::Fetch(url) => ActionView::Fetch(url@),
            Action::Extract(job) => ActionView::Extract(job@),
            Action::Done => ActionView::Done,
        }
    }
}

/// Mathematical content of an [`Event`].
pub enum EventView {
    Page(Option<PageView>),
    Reply(Option<Seq<char>>),
}

/// What the caller reports.
#[derive(Debug, Clone, PartialEq, Eq)]
pub enum Event {
    /// The page that was asked for, or `None` if it could not be had.
    Page(Option<Page>),
    /// The reply of the language model, or `None` if it gave none.
    Reply(Option<String>),
}

impl View for Event {
    type V = EventView;

    open spec fn view(&self) -> EventView {
        match *self {
            Event::Page(Some(page)) => EventView::Page(Some(page@)),
            Event::Page(None) => EventView::Page(None),
            Event::Reply(reply) => EventView::Reply(opt_text(reply)),
        }
    }
}

impl Event {
    /// The page that the event carries, if any, is well formed.
    pub open spec fn wf(&self) -> bool {
        match *self {
            Event::Page(Some(page)) => page.wf(),
            _ => true,
        }
    }
}

/// Why a report was not taken.
#[derive(Debug, Clone, Copy, PartialEq, Eq, Structural)]
pub enum CrawlError {
    /// The report does not answer what the crawl last asked for.
    UnexpectedEvent,
}

/// Mathematical content of a [`Crawl`].
pub struct CrawlView {
    /// The address of the site.
    pub site: Seq<char>,
    /// Where the crawl stands.
    pub phase: Phase,
    /// The addresses still to be looked at, in the order of discovery.
    pub queue: Seq<Seq<char>>,
    /// The addresses that were handed out to be fetched, in order, the
    /// homepage first.
    pub visited: Seq<Seq<char>>,
    /// The addresses that the language model was asked about, in order.
    pub asked: Seq<Seq<char>>,
    /// The questions of the page at hand that have not been put yet.
    pub waiting: Seq<JobView>,
    /// The contacts found so far.
    pub contacts: Seq<ContactView>,
}

/// The personnel links of `page`, seen from `site`.
pub open spec fn page_links(page: PageView, site: Seq<char>) -> Seq<Seq<char>> {
    team_links(anchor_targets(page), site, page.anchors.len() as int)
}

/// Those of the first `upto` of `links` that are not in `visited`, in order.
pub open spec fn fresh(links: Seq<Seq<char>>, visited: Seq<Seq<char>>, upto: int) -> Seq<Seq<char>>
    decreases upto,
{
    if upto <= 0 {
        Seq::empty()
    } else {
        let before = fresh(links, visited, upto - 1);
        if visited.contains(links[upto - 1]) {
            before
        } else {
            before.push(links[upto - 1])
        }
    }
}

/// An address is fetched if it belongs to the site and has not been handed
/// out before.
pub open spec fn due(url: Seq<char>, visited: Seq<Seq<char>>, site: Seq<char>) -> bool {
    !visited.contains(url) && starts_with(url, site)
}

/// The first position at or after `from` in `queue` that is due, or the
/// length of `queue` if none is.
pub open spec fn next_due(
    queue: Seq<Seq<char>>,
    visited: Seq<Seq<char>>,
    site: Seq<char>,
    from: int,
) -> int
    decreases queue.len() - from,
{
    if 0 <= from < queue.len() && !due(queue[from], visited, site) {
        next_due(queue, visited, site, from + 1)
    } else {
        from
    }
}

/// The question about `email`, which the anchor at `anchor` of `page` carries.
pub open spec fn job_for(page: PageView, anchor: int, email: Seq<char>) -> JobView {
    JobView {
        email,
        messages: request_for(context_of(page.nodes, anchor, CONTEXT_BUDGET as nat), email),
    }
}

/// The questions that the first `upto` of the contact anchors `links` of
/// `page` give rise to: one for each address that is neither in `known` nor
/// carried by an earlier anchor.
pub open spec fn found_jobs(page: PageView, links: Seq<usize>, known: Seq<Seq<char>>, upto: int) -> Seq<
    JobView,
>
    decreases upto,
{
    if upto <= 0 {
        Seq::empty()
    } else {
        let before = found_jobs(page, links, known, upto - 1);
        match email_at(page, links[upto - 1] as int) {
            Some(email) => if known.contains(email) || job_emails(before).contains(email) {
                before
            } else {
                before.push(job_for(page, links[upto - 1] as int, email))
            },
            None => before,
        }
    }
}

/// The questions that `page` gives rise to when `known` holds the addresses
/// that were asked about before.
pub open spec fn page_jobs(page: PageView, known: Seq<Seq<char>>) -> Seq<JobView> {
    found_jobs(page, mail_links(page), known, mail_links(page).len() as int)
}

/// `contacts` with the person that `reply` names when asked about `email`.
pub open spec fn with_reply(
    contacts: Seq<ContactView>,
    reply: Option<Seq<char>>,
    email: Seq<char>,
) -> Seq<ContactView> {
    match reply {
        Some(text) => match reply_contact(text, email) {
            Some(contact) => contacts.push(contact),
            None => contacts,
        },
        None => contacts,
    }
}

/// What a crawl does once a report has been taken in: it puts the next
/// waiting question, or else asks for the next due page of the queue, or
/// else is done.
pub open spec fn proceed(s: CrawlView) -> (CrawlView, ActionView) {
    if s.waiting.len() > 0 {
        (
            CrawlView {
                phase: Phase::Extracting,
                asked: s.asked.push(s.waiting[0].email),
                waiting: s.waiting.subrange(1, s.waiting.len() as int),
                ..s
            },
            ActionView::Extract(s.waiting[0]),
        )
    } else {
        let at = next_due(s.queue, s.visited, s.site, 0);
        if at < s.queue.len() {
            (
                CrawlView {
                    phase: Phase::Fetching,
                    queue: s.queue.subrange(at + 1, s.queue.len() as int),
                    visited: s.visited.push(s.queue[at]),
                    ..s
                },
                ActionView::Fetch(s.queue[at]),
            )
        } else {
            (CrawlView { phase: Phase::Done, queue: Seq::empty(), ..s }, ActionView::Done)
        }
    }
}

/// The crawl after `event`, before it proceeds; `None` where `event` does
/// not answer what the crawl last asked for.
pub open spec fn taken_in(s: CrawlView, event: EventView) -> Option<CrawlView> {
    match (s.phase, event) {
        (Phase::Seeding, EventView::Page(Some(page))) => Some(
            CrawlView { queue: page_links(page, s.site), ..s },
        ),
        (Phase::Seeding, EventView::Page(None)) => Some(s),
        (Phase::Fetching, EventView::Page(Some(page))) => Some(
            CrawlView {
                queue: s.queue + fresh(
                    page_links(page, s.site),
                    s.visited,
                    page_links(page, s.site).len() as int,
                ),
                waiting: page_jobs(page, s.asked),
                ..s
            },
        ),
        (Phase::Fetching, EventView::Page(None)) => Some(s),
        (Phase::Extracting, EventView::Reply(reply)) => Some(
            CrawlView { contacts: with_reply(s.contacts, reply, s.asked.last()), ..s },
        ),
        _ => None,
    }
}

/// The crawl after `event`, and what it asks for next; `None` where `event`
/// does not answer what the crawl last asked for.
pub open spec fn stepped(s: CrawlView, event: EventView) -> Option<(CrawlView, ActionView)> {
    match taken_in(s, event) {
        Some(next) => Some(proceed(next)),
        None => None,
    }
}

/// The crawl after `event`; unchanged where `event` is not taken.
pub open spec fn state_after(s: CrawlView, event: EventView) -> CrawlView {
    match stepped(s, event) {
        Some((next, _)) => next,
        None => s,
    }
}

/// What the crawl asks for after `event`.
pub open spec fn action_after(s: CrawlView, event: EventView) -> ActionView {
    match stepped(s, event) {
        Some((_, action)) => action,
        None => ActionView::Done,
    }
}

/// The addresses of `contacts`, in order.
pub open spec fn contact_emails(contacts: Seq<ContactView>) -> Seq<Seq<char>> {
    contacts.map_values(|c: ContactView| c.email)
}

/// What holds of every crawl: the homepage is the first address on record
/// as handed out to be fetched, and no address was handed out twice; no
/// address was, or is about to be, put twice to the language
/// model; while the model is being asked, it is about the last of them; and
/// the contacts have addresses that differ from one another, that the model
/// was asked about, and of which none is the one it is being asked about.
pub open spec fn valid_crawl(s: CrawlView) -> bool {
    &&& s.visited.len() > 0 && s.visited[0] == s.site
    &&& s.visited.no_duplicates()
    &&& (s.asked + job_emails(s.waiting)).no_duplicates()
    &&& s.phase is Extracting ==> s.asked.len() > 0
    &&& contact_emails(s.contacts).no_duplicates()
    &&& forall|k: int| 0 <= k < s.contacts.len() ==> s.asked.contains(#[trigger] s.contacts[k].email)
    &&& s.phase is Extracting ==> !contact_emails(s.contacts).contains(s.asked.last())
}

/// The crawl of a site as it begins: the homepage has been asked for, and
/// is on record as handed out.
pub open spec fn started(site: Seq<char>) -> CrawlView {
    CrawlView {
        site,
        phase: Phase::Seeding,
        queue: Seq::empty(),
        visited: seq![site],
        asked: Seq::empty(),
        waiting: Seq::empty(),
        contacts: Seq::empty(),
    }
}

/// A crawl begins valid, with the homepage as the one address handed out.
pub proof fn lemma_started_valid(site: Seq<char>)
    ensures
        valid_crawl(started(site)),
        started(site).visited == seq![site],
{
    assert(started(site).asked + job_emails(started(site).waiting) =~= Seq::empty());
    assert(contact_emails(started(site).contacts) =~= Seq::empty());
}

/// The next due position lies at or after `from`, and what stands there is due.
pub proof fn lemma_next_due(queue: Seq<Seq<char>>, visited: Seq<Seq<char>>, site: Seq<char>, from: int)
    requires
        0 <= from <= queue.len(),
    ensures
        from <= next_due(queue, visited, site, from) <= queue.len(),
        next_due(queue, visited, site, from) < queue.len() ==> due(
            queue[next_due(queue, visited, site, from)],
            visited,
            site,
        ),
    decreases queue.len() - from,
{
    if from < queue.len() && !due(queue[from], visited, site) {
        lemma_next_due(queue, visited, site, from + 1);
    }
}

/// A list without repeats stays so when something new is added.
pub proof fn lemma_push_keeps_distinct(list: Seq<Seq<char>>, item: Seq<char>)
    requires
        list.no_duplicates(),
        !list.contains(item),
    ensures
        list.push(item).no_duplicates(),
{
    let longer = list.push(item);
    assert forall|i: int, j: int| 0 <= i < longer.len() && 0 <= j < longer.len() && i != j implies longer[i]
        != longer[j] by {
        if i < list.len() && j < list.len() {
        } else if i < list.len() {
            assert(list.contains(list[i]));
        } else {
            assert(list.contains(list[j]));
        }
    }
}

/// The questions of a page are about addresses that are new and differ from
/// one another.
pub proof fn lemma_found_jobs_distinct(
    page: PageView,
    links: Seq<usize>,
    known: Seq<Seq<char>>,
    upto: int,
)
    requires
        known.no_duplicates(),
    ensures
        (known + job_emails(found_jobs(page, links, known, upto))).no_duplicates(),
        forall|k: int|
            0 <= k < found_jobs(page, links, known, upto).len() ==> !known.contains(
                #[trigger] found_jobs(page, links, known, upto)[k].email,
            ),
    decreases upto,
{
    if upto <= 0 {
        assert(known + job_emails(found_jobs(page, links, known, upto)) =~= known);
    } else {
        lemma_found_jobs_distinct(page, links, known, upto - 1);
        let before = found_jobs(page, links, known, upto - 1);
        match email_at(page, links[upto - 1] as int) {
            Some(email) => {
                if known.contains(email) || job_emails(before).contains(email) {
                } else {
                    let job = job_for(page, links[upto - 1] as int, email);
                    let all = known + job_emails(before);
                    assert(!all.contains(email)) by {
                        if all.contains(email) {
                            let i = choose|i: int| 0 <= i < all.len() && all[i] == email;
                            if i < known.len() {
                                assert(known[i] == email);
                            } else {
                                assert(job_emails(before)[i - known.len()] == email);
                            }
                        }
                    }
                    lemma_push_keeps_distinct(all, email);
                    assert(known + job_emails(before.push(job)) =~= all.push(email));
                }
            },
            None => {},
        }
    }
}

/// Proceeding keeps a crawl valid.
pub proof fn lemma_proceed_valid(s: CrawlView)
    requires
        valid_crawl(s),
    ensures
        valid_crawl(proceed(s).0),
{
    if s.waiting.len() > 0 {
        let next = proceed(s).0;
        let email = s.waiting[0].email;
        let all = s.asked + job_emails(s.waiting);
        assert(next.asked + job_emails(next.waiting) =~= all);
        assert(all[s.asked.len() as int] == email);
        assert(next.asked.last() == email);
        assert forall|k: int| 0 <= k < next.contacts.len() implies next.asked.contains(
            #[trigger] next.contacts[k].email,
        ) by {
            let i = choose|i: int| 0 <= i < s.asked.len() && s.asked[i] == s.contacts[k].email;
            assert(next.asked[i] == s.contacts[k].email);
        }
        if contact_emails(s.contacts).contains(email) {
            let k = choose|k: int|
                0 <= k < s.contacts.len() && contact_emails(s.contacts)[k] == email;
            assert(s.asked.contains(s.contacts[k].email));
            let i = choose|i: int| 0 <= i < s.asked.len() && s.asked[i] == email;
            assert(all[i] == email);
        }
    } else {
        lemma_next_due(s.queue, s.visited, s.site, 0);
        let at = next_due(s.queue, s.visited, s.site, 0);
        if at < s.queue.len() {
            lemma_push_keeps_distinct(s.visited, s.queue[at]);
        }
    }
}

/// Every report that is taken leaves a valid crawl valid.
pub proof fn lemma_step_valid(s: CrawlView, event: EventView)
    requires
        valid_crawl(s),
        stepped(s, event) is Some,
    ensures
        valid_crawl(state_after(s, event)),
{
    let next = taken_in(s, event)->0;
    assert(s.asked.no_duplicates()) by {
        let all = s.asked + job_emails(s.waiting);
        assert forall|i: int, j: int| 0 <= i < s.asked.len() && 0 <= j < s.asked.len() && i != j implies s.asked[i]
            != s.asked[j] by {
            assert(all[i] == s.asked[i]);
            assert(all[j] == s.asked[j]);
        }
    }
    match (s.phase, event) {
        (Phase::Fetching, EventView::Page(Some(page))) => {
            lemma_found_jobs_distinct(page, mail_links(page), s.asked, mail_links(page).len() as int);
        },
        (Phase::Extracting, EventView::Reply(Some(text))) => {
            let email = s.asked.last();
            match reply_contact(text, email) {
                Some(contact) => {
                    assert(contact.email == email);
                    assert(next.contacts == s.contacts.push(contact));
                    assert(contact_emails(next.contacts) =~= contact_emails(s.contacts).push(email));
                    lemma_push_keeps_distinct(contact_emails(s.contacts), email);
                    assert(s.asked[s.asked.len() - 1] == email);
                    assert forall|k: int| 0 <= k < next.contacts.len() implies s.asked.contains(
                        #[trigger] next.contacts[k].email,
                    ) by {
                        if k < s.contacts.len() {
                            assert(next.contacts[k] == s.contacts[k]);
                        }
                    }
                },
                None => {},
            }
        },
        _ => {},
    }
    assert(valid_crawl(CrawlView { phase: Phase::Done, ..next }));
    lemma_proceed_valid(CrawlView { phase: Phase::Done, ..next });
    assert(proceed(CrawlView { phase: Phase::Done, ..next }) == proceed(next));
}

/// No address is fetched twice, the homepage included: a crawl begins with
/// the homepage on record, a step that asks for a page asks for one that
/// was never handed out before and records it, and any other step leaves
/// the record as it is.
pub proof fn lemma_fetch_once(s: CrawlView, event: EventView)
    requires
        valid_crawl(s),
        stepped(s, event) is Some,
    ensures
        state_after(s, event).visited.no_duplicates(),
        match action_after(s, event) {
            ActionView::Fetch(url) => !s.visited.contains(url) && url != s.site && starts_with(
                url,
                s.site,
            ) && state_after(s, event).visited == s.visited.push(url),
            _ => state_after(s, event).visited == s.visited,
        },
{
    lemma_step_valid(s, event);
    let next = taken_in(s, event)->0;
    lemma_next_due(next.queue, next.visited, next.site, 0);
}

/// No address is put twice to the language model: a step that asks the
/// model asks about an address that it was never asked about before and
/// records it; any other step leaves the record as it is.
pub proof fn lemma_ask_once(s: CrawlView, event: EventView)
    requires
        valid_crawl(s),
        stepped(s, event) is Some,
    ensures
        state_after(s, event).asked.no_duplicates(),
        match action_after(s, event) {
            ActionView::Extract(job) => !s.asked.contains(job.email) && state_after(s, event).asked
                == s.asked.push(job.email),
            _ => state_after(s, event).asked == s.asked,
        },
{
    lemma_step_valid(s, event);
    let next = taken_in(s, event)->0;
    let after = state_after(s, event);
    assert(after.asked.no_duplicates()) by {
        let all = after.asked + job_emails(after.waiting);
        assert forall|i: int, j: int|
            0 <= i < after.asked.len() && 0 <= j < after.asked.len() && i != j implies after.asked[i]
            != after.asked[j] by {
            assert(all[i] == after.asked[i]);
            assert(all[j] == after.asked[j]);
        }
    }
    if next.waiting.len() > 0 {
        let email = next.waiting[0].email;
        assert(after.asked == s.asked.push(email));
        if s.asked.contains(email) {
            let i = choose|i: int| 0 <= i < s.asked.len() && s.asked[i] == email;
            assert(after.asked[i] == email);
            assert(after.asked[s.asked.len() as int] == email);
        }
    }
}

/// The crawl of one company's site.
#[derive(Debug, Clone)]
pub struct Crawl {
    site: String,
    phase: Phase,
    queue: VecDeque<String>,
    visited: Vec<String>,
    asked: Vec<String>,
    waiting: VecDeque<ExtractionJob>,
    contacts: Vec<Contact>,
}

impl View for Crawl {
    type V = CrawlView;

    closed spec fn view(&self) -> CrawlView {
        CrawlView {
            site: self.site@,
            phase: self.phase,
            queue: texts(self.queue@),
            visited: texts(self.visited@),
            asked: texts(self.asked@),
            waiting: jobs_view(self.waiting@),
            contacts: contacts_view(self.contacts@),
        }
    }
}

/// Whether one of `jobs` is about `email`.
fn holds_job(jobs: &VecDeque<ExtractionJob>, email: &str) -> (b: bool)
    ensures
        b == job_emails(jobs_view(jobs@)).contains(email@),
{
    let mut i: usize = 0;
    while i < jobs.len()
        invariant
            i <= jobs.len(),
            forall|j: int| 0 <= j < i ==> job_emails(jobs_view(jobs@))[j] != email@,
        decreases jobs.len() - i,
    {
        assert(job_emails(jobs_view(jobs@))[i as int] == jobs@[i as int].email@);
        if holds_one(&jobs[i].email, email) {
            return true;
        }
        i += 1;
    }
    false
}

/// Whether `text` is `item`.
fn holds_one(text: &String, item: &str) -> (b: bool)
    ensures
        b == (text@ == item@),
{
    crate::text::same_text(text.as_str(), item)
}

/// A queue of `links`, in order.
fn queue_of(links: &Vec<String>) -> (queue: VecDeque<String>)
    ensures
        texts(queue@) == texts(links@),
{
    let mut queue: VecDeque<String> = VecDeque::new();
    let mut i: usize = 0;
    while i < links.len()
        invariant
            i <= links.len(),
            texts(queue@) == texts(links@).subrange(0, i as int),
        decreases links.len() - i,
    {
        proof {
            lemma_texts_push(queue@, links@[i as int]);
        }
        queue.push_back(links[i].clone());
        assert(texts(queue@) =~= texts(links@).subrange(0, i + 1));
        i += 1;
    }
    assert(texts(links@).subrange(0, links.len() as int) =~= texts(links@));
    queue
}

/// Adds to `queue` those of `links` that are not in `visited`.
fn enqueue_fresh(queue: &mut VecDeque<String>, links: &Vec<String>, visited: &Vec<String>)
    ensures
        texts(final(queue)@) == texts(old(queue)@) + fresh(
            texts(links@),
            texts(visited@),
            links.len() as int,
        ),
{
    let mut i: usize = 0;
    assert(texts(queue@) =~= texts(old(queue)@) + fresh(texts(links@), texts(visited@), 0));
    while i < links.len()
        invariant
            i <= links.len(),
            texts(queue@) == texts(old(queue)@) + fresh(texts(links@), texts(visited@), i as int),
        decreases links.len() - i,
    {
        assert(texts(links@)[i as int] == links@[i as int]@);
        if !holds_text(visited, links[i].as_str()) {
            proof {
                lemma_texts_push(queue@, links@[i as int]);
            }
            queue.push_back(links[i].clone());
            assert(texts(queue@) =~= texts(old(queue)@) + fresh(
                texts(links@),
                texts(visited@),
                i + 1,
            ));
        }
        i += 1;
    }
}

/// The questions that `page` gives rise to when `asked` holds the addresses
/// that were asked about before.
fn plan_jobs(page: &Page, asked: &Vec<String>) -> (jobs: VecDeque<ExtractionJob>)
    requires
        page.wf(),
    ensures
        jobs_view(jobs@) == page_jobs(page@, texts(asked@)),
{
    let links = find_mailto_links(page);
    let mut jobs: VecDeque<ExtractionJob> = VecDeque::new();
    let mut k: usize = 0;
    assert(jobs_view(jobs@) =~= found_jobs(page@, links@, texts(asked@), 0));
    while k < links.len()
        invariant
            k <= links.len(),
            page.wf(),
            links@ == mail_links(page@),
            jobs_view(jobs@) == found_jobs(page@, links@, texts(asked@), k as int),
        decreases links.len() - k,
    {
        let anchor = links[k];
        match parse_email(page, anchor) {
            Some(email) => {
                if !holds_text(asked, email.as_str()) && !holds_job(&jobs, email.as_str()) {
                    let context = extract_parent_content(page, anchor, CONTEXT_BUDGET);
                    let messages = extraction_request(context.as_str(), email.as_str());
                    let ghost before = jobs_view(jobs@);
                    jobs.push_back(ExtractionJob { email, messages });
                    assert(jobs_view(jobs@) =~= before.push(job_for(page@, anchor as int, email@)));
                }
            },
            None => {},
        }
        k += 1;
    }
    jobs
}

impl Crawl {
    /// What holds of every crawl.
    pub open spec fn wf(&self) -> bool {
        valid_crawl(self@)
    }

    /// Begins the crawl of `site`: the first thing to do is to fetch its
    /// homepage.
    pub fn start(site: &str) -> (r: (Crawl, Action))
        ensures
            r.0@ == started(site@),
            r.0.wf(),
            r.1@ == ActionView::Fetch(site@),
    {
        let mut visited: Vec<String> = Vec::new();
        visited.push(site.to_owned());
        let crawl = Crawl {
            site: site.to_owned(),
            phase: Phase::Seeding,
            queue: VecDeque::new(),
            visited,
            asked: Vec::new(),
            waiting: VecDeque::new(),
            contacts: Vec::new(),
        };
        assert(crawl@ =~= started(site@)) by {
            assert(texts(crawl.queue@) =~= Seq::empty());
            assert(texts(crawl.visited@) =~= seq![site@]);
            assert(texts(crawl.asked@) =~= Seq::empty());
            assert(jobs_view(crawl.waiting@) =~= Seq::empty());
            assert(contacts_view(crawl.contacts@) =~= Seq::empty());
        }
        proof {
            lemma_started_valid(site@);
        }
        (crawl, Action::Fetch(site.to_owned()))
    }

    /// Puts the next waiting question, or else asks for the next due page of
    /// the queue, or else ends the crawl.
    fn proceed(&mut self) -> (action: Action)
        ensures
            (final(self)@, action@) == proceed(old(self)@),
    {
        match self.waiting.pop_front() {
            Some(job) => {
                proof {
                    lemma_texts_push(self.asked@, job.email);
                }
                self.phase = Phase::Extracting;
                self.asked.push(job.email.clone());
                assert(self@.asked =~= old(self)@.asked.push(job@.email));
                assert(self@.waiting =~= old(self)@.waiting.subrange(
                    1,
                    old(self)@.waiting.len() as int,
                ));
                assert(old(self)@.waiting[0] == job@);
                return Action::Extract(job);
            },
            None => {},
        }
        assert(old(self)@.waiting.len() == 0);
        let ghost queue = old(self)@.queue;
        let ghost visited = old(self)@.visited;
        let ghost site = old(self)@.site;
        let ghost mut at: int = 0;
        assert(self@.queue =~= queue.subrange(0, queue.len() as int));
        loop
            invariant
                0 <= at <= queue.len(),
                self@.queue == queue.subrange(at, queue.len() as int),
                next_due(queue, visited, site, 0) == next_due(queue, visited, site, at),
                self@ == (CrawlView { queue: self@.queue, ..old(self)@ }),
                queue == old(self)@.queue,
                visited == old(self)@.visited,
                site == old(self)@.site,
                old(self)@.waiting.len() == 0,
            decreases queue.len() - at,
        {
            let ghost waiting = self.queue@;
            match self.queue.pop_front() {
                Some(url) => {
                    proof {
                        lemma_texts_rest(waiting);
                        assert(texts(waiting).len() == waiting.len());
                    }
                    assert(at < queue.len());
                    assert(url@ == queue[at]);
                    if !holds_text(&self.visited, url.as_str()) && has_prefix(
                        url.as_str(),
                        self.site.as_str(),
                    ) {
                        proof {
                            lemma_texts_push(self.visited@, url);
                        }
                        self.visited.push(url.clone());
                        self.phase = Phase::Fetching;
                        assert(self@.visited =~= visited.push(url@));
                        assert(self@.queue =~= queue.subrange(at + 1, queue.len() as int));
                        return Action::Fetch(url);
                    }
                    assert(self@.queue =~= queue.subrange(at + 1, queue.len() as int));
                    proof {
                        at = at + 1;
                    }
                },
                None => {
                    self.phase = Phase::Done;
                    assert(self@.queue =~= Seq::empty());
                    return Action::Done;
                },
            }
        }
    }

    /// Takes the report `event` and says what to do next. A report that does
    /// not answer what the crawl last asked for is refused and changes
    /// nothing.
    pub fn step(&mut self, event: Event) -> (r: Result<Action, CrawlError>)
        requires
            old(self).wf(),
            event.wf(),
        ensures
            final(self).wf(),
            match r {
                Ok(action) => stepped(old(self)@, event@) == Some((final(self)@, action@)),
                Err(_) => stepped(old(self)@, event@) is None && final(self)@ == old(self)@,
            },
    {
        proof {
            if stepped(self@, event@) is Some {
                lemma_step_valid(self@, event@);
            }
        }
        match event {
            Event::Page(found) => {
                match self.phase {
                    Phase::Seeding => {
                        match found {
                            Some(page) => {
                                let links = parse_page_for_team_links(&page, self.site.as_str());
                                self.queue = queue_of(&links);
                            },
                            None => {},
                        }
                    },
                    Phase::Fetching => {
                        match found {
                            Some(page) => {
                                let links = parse_page_for_team_links(&page, self.site.as_str());
                                enqueue_fresh(&mut self.queue, &links, &self.visited);
                                self.waiting = plan_jobs(&page, &self.asked);
                            },
                            None => {},
                        }
                    },
                    _ => {
                        return Err(CrawlError::UnexpectedEvent);
                    },
                }
            },
            Event::Reply(reply) => {
                match self.phase {
                    Phase::Extracting => {
                        let email = self.asked[self.asked.len() - 1].clone();
                        assert(email@ == old(self)@.asked.last());
                        match reply {
                            Some(text) => {
                                match parse_llm_reponse(text.as_str(), email.as_str()) {
                                    Some(contact) => {
                                        self.contacts.push(contact);
                                        assert(self@.contacts =~= old(self)@.contacts.push(
                                            contact@,
                                        ));
                                    },
                                    None => {},
                                }
                            },
                            None => {},
                        }
                    },
                    _ => {
                        return Err(CrawlError::UnexpectedEvent);
                    },
                }
            },
        }
        assert(Some(self@) == taken_in(old(self)@, event@));
        let action = self.proceed();
        Ok(action)
    }

    /// Where the crawl stands.
    pub fn phase(&self) -> (p: Phase)
        ensures
            p == self@.phase,
    {
        self.phase
    }

    /// Whether the crawl is done.
    pub fn is_done(&self) -> (b: bool)
        ensures
            b == (self@.phase is Done),
    {
        match self.phase {
            Phase::Done => true,
            _ => false,
        }
    }

    /// The contacts found so far.
    pub fn contacts(&self) -> (c: &Vec<Contact>)
        ensures
            contacts_view(c@) == self@.contacts,
    {
        &self.contacts
    }

    /// The addresses that were handed out to be fetched, in order, the
    /// homepage first.
    pub fn visited(&self) -> (v: &Vec<String>)
        ensures
            texts(v@) == self@.visited,
    {
        &self.visited
    }

    /// The addresses that the language model was asked about, in order.
    pub fn asked(&self) -> (a: &Vec<String>)
        ensures
            texts(a@) == self@.asked,
    {
        &self.asked
    }

    /// Ends the crawl and hands out the contacts that it found.
    pub fn into_contacts(self) -> (c: Vec<Contact>)
        ensures
            contacts_view(c@) == self@.contacts,
    {
        self.contacts
    }
}

} // verus!
