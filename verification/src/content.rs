//! The text of a whole page.

use crate::dom::{
    element_positions, parse_selection, parsed_page, selection_in, subtree_end, DomNodeView,
    NodeKind, NodeKindView, Page, PageView,
};
use crate::text::{remove_char, trim, trimmed, without};
use vstd::prelude::*;
use vstd::string::*;

verus! {

/// The selector for the body of a document.
pub const BODY_SELECTOR: &'static str = "body";

/// What joins the runs of text of a body.
pub const LINE_BREAK: &'static str = "\n";

/// What joins the runs of text where there is no body.
pub const BLANK: &'static str = " ";

/// The runs of text that stand at the positions from `from` up to `to`, in
/// document order.
pub open spec fn texts_between(nodes: Seq<DomNodeView>, from: int, to: int) -> Seq<Seq<char>>
    decreases to - from,
{
    if from >= to {
        Seq::empty()
    } else {
        let before = texts_between(nodes, from, to - 1);
        match nodes[to - 1].kind {
            NodeKindView::Text(text) => before.push(text),
            _ => before,
        }
    }
}

/// A run of text without the white space at its ends and without any tab.
pub open spec fn tidy(text: Seq<char>) -> Seq<char> {
    without(trimmed(text), '\t', trimmed(text).len() as int)
}

/// Each of `parts`, tidied or, where `tidied` is not set, as it is.
pub open spec fn prepared(parts: Seq<Seq<char>>, tidied: bool) -> Seq<Seq<char>> {
    if tidied {
        parts.map_values(|t: Seq<char>| tidy(t))
    } else {
        parts
    }
}

/// `parts` one after the other, with `separator` between each two.
pub open spec fn joined(parts: Seq<Seq<char>>, separator: Seq<char>) -> Seq<char>
    decreases parts.len(),
{
    if parts.len() == 0 {
        Seq::empty()
    } else if parts.len() == 1 {
        parts[0]
    } else {
        joined(parts.drop_last(), separator) + separator + parts.last()
    }
}

/// The first position at or after `from` that holds an element directly
/// below the root, or the number of nodes if there is none.
pub open spec fn next_top_element(nodes: Seq<DomNodeView>, from: int) -> int
    decreases nodes.len() - from,
{
    if 0 <= from < nodes.len() && !(nodes[from].depth == 1 && nodes[from].kind is Element) {
        next_top_element(nodes, from + 1)
    } else {
        from
    }
}

/// The text below the node at `node`: its runs of text, prepared and joined.
pub open spec fn text_below(
    nodes: Seq<DomNodeView>,
    node: int,
    separator: Seq<char>,
    tidied: bool,
) -> Seq<char> {
    joined(prepared(texts_between(nodes, node + 1, subtree_end(nodes, node)), tidied), separator)
}

/// The text of `page`, of which `bodies` are the body elements: the runs of
/// text of the first body, each tidied, one to a line; and where there is no
/// body, the runs of text of the outermost element as they are, with a blank
/// between each two.
pub open spec fn content_of(page: PageView, bodies: Seq<usize>) -> Seq<char> {
    if bodies.len() > 0 {
        text_below(page.nodes, bodies[0] as int, LINE_BREAK@, true)
    } else {
        let top = next_top_element(page.nodes, 1);
        if top < page.nodes.len() {
            text_below(page.nodes, top, BLANK@, false)
        } else {
            Seq::empty()
        }
    }
}

/// The text content of the HTML document `html`; `None` where the document
/// cannot be laid out as a page.
pub open spec fn text_content(html: Seq<char>) -> Option<Seq<char>> {
    match (parsed_page(html), selection_in(html, BODY_SELECTOR@)) {
        (Some(page), Some(bodies)) => Some(content_of(page, bodies)),
        _ => None,
    }
}

/// The text below the node at `node` of `page`.
pub fn join_text_below(page: &Page, node: usize, separator: &str, tidied: bool) -> (r: String)
    requires
        page.wf(),
        node < page@.nodes.len(),
    ensures
        r@ == text_below(page@.nodes, node as int, separator@, tidied),
{
    let end = page.subtree_end(node);
    let mut r = String::new();
    let mut count: usize = 0;
    let mut at: usize = node + 1;
    let ghost nodes = page@.nodes;
    while at < end
        invariant
            node < at <= end <= page@.nodes.len(),
            nodes == page@.nodes,
            count == texts_between(nodes, node + 1, at as int).len(),
            count <= at - node - 1,
            r@ == joined(prepared(texts_between(nodes, node + 1, at as int), tidied), separator@),
        decreases end - at,
    {
        let ghost before = texts_between(nodes, node + 1, at as int);
        match &page.node(at).kind {
            NodeKind::Text(text) => {
                let piece = if tidied {
                    let inner = trim(text.as_str());
                    remove_char(inner.as_str(), '\t')
                } else {
                    text.clone()
                };
                let ghost parts = prepared(before.push(text@), tidied);
                assert(parts =~= prepared(before, tidied).push(piece@));
                assert(parts.drop_last() =~= prepared(before, tidied));
                if count > 0 {
                    r.append(separator);
                }
                r.append(piece.as_str());
                assert(r@ =~= joined(parts, separator@));
                count += 1;
            },
            _ => {},
        }
        at += 1;
    }
    r
}

/// The text of `page`, of which `bodies` are the positions of the body
/// elements.
pub fn page_content(page: &Page, bodies: &Vec<usize>) -> (r: String)
    requires
        page.wf(),
        element_positions(page@.nodes, bodies@),
    ensures
        r@ == content_of(page@, bodies@),
{
    if bodies.len() > 0 {
        return join_text_below(page, bodies[0], LINE_BREAK, true);
    }
    let mut top: usize = 1;
    while top < page.len() && !(page.node(top).depth == 1 && page.node(top).is_element())
        invariant
            1 <= top,
            next_top_element(page@.nodes, 1) == next_top_element(page@.nodes, top as int),
        decreases page@.nodes.len() - top,
    {
        top += 1;
    }
    if top < page.len() {
        join_text_below(page, top, BLANK, false)
    } else {
        String::new()
    }
}

/// The text content of the HTML document `html`.
pub fn extract_text_content(html: &str) -> (r: Option<String>)
    ensures
        crate::contact::opt_text(r) == text_content(html@),
{
    match parse_selection(html, BODY_SELECTOR) {
        Some((page, bodies)) => Some(page_content(&page, &bodies)),
        None => None,
    }
}

} // verus!
