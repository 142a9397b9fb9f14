//! Looking up the website of a company with a web search.
//!
//! The caller fetches the address that [`search_url`] gives, with the
//! browser name that [`pick_user_agent`] gives, and hands the page to
//! [`company_website_in`].

use crate::contact::opt_text;
use crate::dom::{select_targets, selected_targets};
use crate::text::{contains, has_substring, remove_char, without};
use rand::seq::SliceRandom;
use vstd::prelude::*;
use vstd::string::*;

verus! {

/// The address of the search, up to the query.
pub const SEARCH_URL: &'static str = "https://duckduckgo.com/html/?q=";

/// The selector for the links of a page of results.
pub const RESULT_SELECTOR: &'static str = "a.result__url";

/// A result that holds this leads back to the search engine.
pub const SEARCH_ENGINE_MARK: &'static str = "duckduck";

/// A result that holds this leads to an encyclopedia.
pub const ENCYCLOPEDIA_MARK: &'static str = "wiki";

/// A byte that stands for itself in a query: an ASCII letter, a digit, or
/// one of `-`, `.`, `_`, `~`.
pub open spec fn is_plain(byte: u8) -> bool {
    ||| 0x30 <= byte <= 0x39
    ||| 0x41 <= byte <= 0x5A
    ||| 0x61 <= byte <= 0x7A
    ||| byte == 0x2D
    ||| byte == 0x2E
    ||| byte == 0x5F
    ||| byte == 0x7E
}

/// The hexadecimal digit for a number below 16, in capitals.
pub open spec fn hex_digit(n: u8) -> char {
    if n < 10 {
        (0x30 + n) as char
    } else {
        (0x41 + n - 10) as char
    }
}

/// A byte as it stands in a query: itself if it is plain, else `%` and its
/// two hexadecimal digits.
pub open spec fn encoded_byte(byte: u8) -> Seq<char> {
    if is_plain(byte) {
        seq![byte as char]
    } else {
        seq!['%', hex_digit(byte / 16), hex_digit(byte % 16)]
    }
}

/// `bytes` as they stand in a query, one after the other.
pub open spec fn percent_encoded(bytes: Seq<u8>) -> Seq<char>
    decreases bytes.len(),
{
    if bytes.len() == 0 {
        Seq::empty()
    } else {
        percent_encoded(bytes.drop_last()) + encoded_byte(bytes.last())
    }
}

/// `text` made fit for a query: its UTF-8 bytes, percent-encoded.
pub open spec fn url_encoded(text: Seq<char>) -> Seq<char> {
    percent_encoded(vstd::utf8::encode_utf8(text))
}

/// `text` made fit for a query.
///
/// Trusted: `urlencoding::encode`, which the crate documents as
/// percent-encoding every byte of the text except alphanumerics and `-`,
/// `_`, `.`, `~`; its source writes the two digits in capitals.
#[verifier::external_body]
fn url_encode(text: &str) -> (r: String)
    ensures
        r@ == url_encoded(text@),
{
    urlencoding::encode(text).into_owned()
}

/// One of `items`, picked at random.
///
/// Trusted: `rand::seq::SliceRandom::choose` with `rand::thread_rng`, which
/// gives `None` for an empty slice and else one of its items. Which one is
/// left open.
#[verifier::external_body]
fn choose_text(items: &Vec<&'static str>) -> (r: Option<&'static str>)
    ensures
        items.len() == 0 ==> r is None,
        items.len() > 0 ==> r is Some,
        r matches Some(item) ==> exists|k: int| 0 <= k < items.len() && (#[trigger] items[k])@ == item@,
{
    items.choose(&mut rand::thread_rng()).copied()
}

/// The address of the search for the company `name`: the name without its
/// full stops, as the query.
pub open spec fn search_address(name: Seq<char>) -> Seq<char> {
    SEARCH_URL@ + url_encoded(without(name, '.', name.len() as int))
}

/// The browser names under which the search is made.
pub open spec fn user_agents() -> Seq<Seq<char>> {
    seq![
        "Mozilla/5.0 (Windows NT 10.0; Win64; x64) AppleWebKit/537.36 (KHTML, like Gecko) Chrome/91.0.4472.124 Safari/537.36"@,
        "Mozilla/5.0 (Macintosh; Intel Mac OS X 10_15_7) AppleWebKit/605.1.15 (KHTML, like Gecko) Version/14.0 Safari/605.1.15"@,
        "Mozilla/5.0 (Windows NT 10.0; Win64; x64; rv:89.0) Gecko/20100101 Firefox/89.0"@,
    ]
}

/// A result is taken if it leads neither back to the search engine nor to
/// an encyclopedia.
pub open spec fn acceptable(href: Seq<char>) -> bool {
    !contains(href, SEARCH_ENGINE_MARK@) && !contains(href, ENCYCLOPEDIA_MARK@)
}

/// The first position at or after `from` that holds an acceptable result, or
/// the length of `hrefs` if none does.
pub open spec fn first_acceptable(hrefs: Seq<Option<Seq<char>>>, from: int) -> int
    decreases hrefs.len() - from,
{
    if 0 <= from < hrefs.len() && !(hrefs[from] is Some && acceptable(hrefs[from]->0)) {
        first_acceptable(hrefs, from + 1)
    } else {
        from
    }
}

/// The first acceptable result among `hrefs`.
pub open spec fn picked(hrefs: Seq<Option<Seq<char>>>) -> Option<Seq<char>> {
    let at = first_acceptable(hrefs, 0);
    if 0 <= at < hrefs.len() {
        hrefs[at]
    } else {
        None
    }
}

/// The website that a page of results names: its first acceptable result.
pub open spec fn website_in(results: Seq<char>) -> Option<Seq<char>> {
    match selected_targets(results, RESULT_SELECTOR@) {
        Some(hrefs) => picked(hrefs),
        None => None,
    }
}

/// The address of the search for the company `name`.
pub fn search_url(name: &str) -> (url: String)
    ensures
        url@ == search_address(name@),
{
    let plain = remove_char(name, '.');
    let query = url_encode(plain.as_str());
    let mut url = SEARCH_URL.to_owned();
    url.append(query.as_str());
    url
}

/// The browser names, for picking.
fn user_agent_list() -> (list: Vec<&'static str>)
    ensures
        list@.len() == user_agents().len(),
        forall|k: int| 0 <= k < list@.len() ==> (#[trigger] list@[k])@ == user_agents()[k],
{
    let mut list: Vec<&'static str> = Vec::new();
    list.push(
        "Mozilla/5.0 (Windows NT 10.0; Win64; x64) AppleWebKit/537.36 (KHTML, like Gecko) Chrome/91.0.4472.124 Safari/537.36",
    );
    list.push(
        "Mozilla/5.0 (Macintosh; Intel Mac OS X 10_15_7) AppleWebKit/605.1.15 (KHTML, like Gecko) Version/14.0 Safari/605.1.15",
    );
    list.push("Mozilla/5.0 (Windows NT 10.0; Win64; x64; rv:89.0) Gecko/20100101 Firefox/89.0");
    list
}

/// One of the browser names, picked at random.
pub fn pick_user_agent() -> (agent: &'static str)
    ensures
        user_agents().contains(agent@),
{
    let list = user_agent_list();
    match choose_text(&list) {
        Some(agent) => {
            let ghost k = choose|k: int| 0 <= k < list.len() && (#[trigger] list[k])@ == agent@;
            assert(user_agents()[k] == agent@);
            agent
        },
        None => {
            assert(user_agents()[0] == list[0]@);
            list[0]
        },
    }
}

/// The first acceptable result among `hrefs`.
pub fn pick_result(hrefs: &Vec<Option<String>>) -> (r: Option<String>)
    ensures
        opt_text(r) == picked(hrefs@.map_values(|t: Option<String>| opt_text(t))),
{
    let ghost views = hrefs@.map_values(|t: Option<String>| opt_text(t));
    let mut i: usize = 0;
    while i < hrefs.len()
        invariant
            i <= hrefs.len(),
            views == hrefs@.map_values(|t: Option<String>| opt_text(t)),
            first_acceptable(views, 0) == first_acceptable(views, i as int),
        decreases hrefs.len() - i,
    {
        assert(views[i as int] == opt_text(hrefs@[i as int]));
        match &hrefs[i] {
            Some(href) => {
                if !has_substring(href.as_str(), SEARCH_ENGINE_MARK) && !has_substring(
                    href.as_str(),
                    ENCYCLOPEDIA_MARK,
                ) {
                    return Some(href.clone());
                }
            },
            None => {},
        }
        i += 1;
    }
    None
}

/// The website that the page of results `results` names, if it names one.
pub fn company_website_in(results: &str) -> (r: Option<String>)
    ensures
        opt_text(r) == website_in(results@),
{
    match select_targets(results, RESULT_SELECTOR) {
        Some(hrefs) => pick_result(&hrefs),
        None => None,
    }
}

} // verus!
