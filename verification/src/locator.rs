//! Which anchors of a page carry an e-mail address, and which address.

use crate::contact::opt_text;
use crate::dom::{href_of, normalize_document, normalized, DomNodeView, Page, PageView};
use crate::pattern::{capture_group, regex_group};
use crate::text::{has_prefix, starts_with, trim, trimmed};
use vstd::string::*;
use vstd::prelude::*;

verus! {

/// What the target of a contact anchor begins with.
pub const MAILTO_PREFIX: &'static str = "mailto:";

/// The regular expression whose first group is the address in a target: what
/// follows `mailto:`, up to the first `com` that stands behind an `@`, some
/// character and one more character.
pub const EMAIL_PATTERN: &'static str = "mailto:(.+?@.+?.com)";

/// The node has a link target that begins with `mailto:`.
pub open spec fn is_mail_link(node: DomNodeView) -> bool {
    href_of(node) is Some && starts_with(href_of(node)->0, MAILTO_PREFIX@)
}

/// The first `upto` of `positions` whose nodes have a link target that
/// begins with `mailto:`.
pub open spec fn with_mail_target(nodes: Seq<DomNodeView>, positions: Seq<usize>, upto: int) -> Seq<
    usize,
>
    decreases upto,
{
    if upto <= 0 {
        Seq::empty()
    } else {
        let before = with_mail_target(nodes, positions, upto - 1);
        if is_mail_link(nodes[positions[upto - 1] as int]) {
            before.push(positions[upto - 1])
        } else {
            before
        }
    }
}

/// The positions of the contact anchors of `page`, in document order.
pub open spec fn mail_links(page: PageView) -> Seq<usize> {
    with_mail_target(page.nodes, page.mail_anchors, page.mail_anchors.len() as int)
}

/// The address in a target, given what the search for [`EMAIL_PATTERN`]
/// captured in it: the capture without the white space at its ends, and
/// nothing where the target does not begin with `mailto:`.
pub open spec fn address_from(href: Seq<char>, captured: Option<Seq<char>>) -> Option<Seq<char>> {
    if starts_with(href, MAILTO_PREFIX@) {
        match captured {
            Some(address) => Some(trimmed(address)),
            None => None,
        }
    } else {
        None
    }
}

/// The address in a target.
pub open spec fn email_in(href: Seq<char>) -> Option<Seq<char>> {
    address_from(href, regex_group(EMAIL_PATTERN@, href, 1))
}

/// The address of the node at `node`: that in its link target, if it has one.
pub open spec fn email_at(page: PageView, node: int) -> Option<Seq<char>> {
    if 0 <= node < page.nodes.len() {
        match href_of(page.nodes[node]) {
            Some(href) => email_in(href),
            None => None,
        }
    } else {
        None
    }
}

/// The positions of the contact anchors of `page`, in document order: the
/// anchors that the selector for them matched and whose target does begin
/// with `mailto:`.
pub fn find_mailto_links(page: &Page) -> (links: Vec<usize>)
    requires
        page.wf(),
    ensures
        links@ == mail_links(page@),
        forall|k: int|
            0 <= k < links.len() ==> (#[trigger] links[k]) < page@.nodes.len() && is_mail_link(
                page@.nodes[links[k] as int],
            ),
{
    let anchors = page.mail_anchors();
    let mut links: Vec<usize> = Vec::new();
    let mut k: usize = 0;
    while k < anchors.len()
        invariant
            k <= anchors.len(),
            page.wf(),
            anchors@ == page@.mail_anchors,
            links@ == with_mail_target(page@.nodes, page@.mail_anchors, k as int),
            forall|j: int|
                0 <= j < links.len() ==> (#[trigger] links[j]) < page@.nodes.len() && is_mail_link(
                    page@.nodes[links[j] as int],
                ),
        decreases anchors.len() - k,
    {
        let at = anchors[k];
        let is_mail = match page.node(at).href() {
            Some(href) => has_prefix(href.as_str(), MAILTO_PREFIX),
            None => false,
        };
        if is_mail {
            links.push(at);
        }
        k += 1;
    }
    links
}

/// The address in `href`, given what the search for [`EMAIL_PATTERN`]
/// captured in it.
pub fn email_from_capture(href: &str, captured: Option<String>) -> (r: Option<String>)
    ensures
        opt_text(r) == address_from(href@, opt_text(captured)),
{
    if !has_prefix(href, MAILTO_PREFIX) {
        return None;
    }
    match captured {
        Some(address) => Some(trim(address.as_str())),
        None => None,
    }
}

/// The address in the target `href` of a contact anchor. A target that does
/// not begin with `mailto:` holds none.
pub fn email_of_href(href: &str) -> (r: Option<String>)
    ensures
        opt_text(r) == email_in(href@),
        !starts_with(href@, MAILTO_PREFIX@) ==> r is None,
{
    let captured = capture_group(EMAIL_PATTERN, href, 1);
    email_from_capture(href, captured)
}

/// The address that the anchor at `node` carries. An anchor without a link
/// target, and a position outside the page, carry none.
pub fn parse_email(page: &Page, node: usize) -> (r: Option<String>)
    requires
        page.wf(),
    ensures
        opt_text(r) == email_at(page@, node as int),
{
    if node >= page.len() {
        return None;
    }
    match page.node(node).href() {
        Some(href) => email_of_href(href.as_str()),
        None => None,
    }
}

/// The regular expression whose whole match is the first `mailto:` link in
/// a text, up to the first `com` behind some character.
pub const FIRST_MAILTO_PATTERN: &'static str = "(mailto:)(.*?)(.com)";

/// `text` without `prefix` at its head, if it stands there.
pub open spec fn without_prefix(text: Seq<char>, prefix: Seq<char>) -> Seq<char> {
    if starts_with(text, prefix) {
        text.subrange(prefix.len() as int, text.len() as int)
    } else {
        text
    }
}

/// The address in what the search for [`FIRST_MAILTO_PATTERN`] found:
/// the match, trimmed, without `mailto:` at its head.
pub open spec fn address_of_match(found: Option<Seq<char>>) -> Option<Seq<char>> {
    match found {
        Some(link) => Some(without_prefix(trimmed(link), MAILTO_PREFIX@)),
        None => None,
    }
}

/// The address in what the search for [`FIRST_MAILTO_PATTERN`] found.
pub fn email_from_match(found: Option<String>) -> (r: Option<String>)
    ensures
        opt_text(r) == address_of_match(opt_text(found)),
{
    match found {
        Some(link) => {
            let link = trim(link.as_str());
            if has_prefix(link.as_str(), MAILTO_PREFIX) {
                let skip = MAILTO_PREFIX.unicode_len();
                let all = link.as_str().unicode_len();
                Some(link.as_str().substring_char(skip, all).to_owned())
            } else {
                Some(link)
            }
        },
        None => None,
    }
}

/// The first address that a `mailto:` link anywhere in the HTML document
/// `html` holds.
pub open spec fn first_email(html: Seq<char>) -> Option<Seq<char>> {
    match normalized(html) {
        Some(text) => address_of_match(regex_group(FIRST_MAILTO_PATTERN@, text, 0)),
        None => None,
    }
}

/// The first address that a `mailto:` link anywhere in the HTML document
/// `html` holds, read from the document as `scraper` writes it out. A
/// document that is too long to be parsed holds none.
pub fn extract_emails(html: &str) -> (r: Option<String>)
    ensures
        opt_text(r) == first_email(html@),
{
    match normalize_document(html) {
        Some(text) => {
            let found = capture_group(FIRST_MAILTO_PATTERN, text.as_str(), 0);
            email_from_match(found)
        },
        None => None,
    }
}

} // verus!
