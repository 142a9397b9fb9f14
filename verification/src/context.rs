//! The text around a contact anchor.
//!
//! The context of an anchor is gathered from the anchor outwards: from the
//! anchor itself, then from its parent, then from each further ancestor
//! element. From each of them the short runs of text below it are taken in
//! document order, without entering any anchor below it.

use crate::dom::{
    lemma_nearest_above_bounds, lemma_next_not_below_bounds, parent_of, subtree_end, DomNodeView,
    NodeKind, NodeKindView, Page,
};
use crate::text::{same_text, trim, trimmed, truncate, truncated};
use vstd::prelude::*;
use vstd::string::*;

verus! {

/// A run of text of this many characters or more is prose and is left out.
pub const FRAGMENT_LIMIT: usize = 50;

/// The tag whose subtrees are not entered.
pub const ANCHOR_TAG: &'static str = "a";

/// `context` after a run of text has been met: a short run is added, trimmed
/// and followed by one space; a long one is left out.
pub open spec fn with_fragment(context: Seq<char>, text: Seq<char>) -> Seq<char> {
    if text.len() < FRAGMENT_LIMIT {
        context + trimmed(text) + " "@
    } else {
        context
    }
}

/// `context` after the nodes from `from` up to `to` have been walked in
/// document order. The walk ends where `context` has reached `budget`
/// characters. A run of text adds its fragment; an element other than an
/// anchor is entered; the subtree of any other node is passed over.
pub open spec fn gathered(
    nodes: Seq<DomNodeView>,
    from: int,
    to: int,
    context: Seq<char>,
    budget: nat,
) -> Seq<char>
    decreases nodes.len() - from,
    via gathered_advances
{
    if from < 0 || from >= to || from >= nodes.len() || context.len() >= budget {
        context
    } else {
        let after = subtree_end(nodes, from);
        match nodes[from].kind {
            NodeKindView::Text(text) => gathered(
                nodes,
                after,
                to,
                with_fragment(context, text),
                budget,
            ),
            NodeKindView::Element { name, .. } => if name == ANCHOR_TAG@ {
                gathered(nodes, after, to, context, budget)
            } else {
                gathered(nodes, from + 1, to, context, budget)
            },
            NodeKindView::Other => gathered(nodes, after, to, context, budget),
        }
    }
}

#[via_fn]
proof fn gathered_advances(
    nodes: Seq<DomNodeView>,
    from: int,
    to: int,
    context: Seq<char>,
    budget: nat,
) {
    if 0 <= from < nodes.len() {
        lemma_next_not_below_bounds(nodes, nodes[from].depth, from + 1);
    }
}

/// `context` after the text below the node at `node` has been gathered.
pub open spec fn collected(nodes: Seq<DomNodeView>, node: int, context: Seq<char>, budget: nat) -> Seq<
    char,
> {
    gathered(nodes, node + 1, subtree_end(nodes, node), context, budget)
}

/// `context` after the climb from the node at `at` to the outermost element:
/// at each element on the way the text below it is gathered. The climb ends
/// where `context` has reached `budget` characters, and at a node that is no
/// element.
pub open spec fn climbed(nodes: Seq<DomNodeView>, at: int, context: Seq<char>, budget: nat) -> Seq<
    char,
>
    decreases at,
    via climbed_rises
{
    if at < 0 || at >= nodes.len() || context.len() >= budget || !(nodes[at].kind is Element) {
        context
    } else {
        let next = collected(nodes, at, context, budget);
        match parent_of(nodes, at) {
            Some(parent) => climbed(nodes, parent, next, budget),
            None => next,
        }
    }
}

#[via_fn]
proof fn climbed_rises(nodes: Seq<DomNodeView>, at: int, context: Seq<char>, budget: nat) {
    if 0 <= at < nodes.len() {
        lemma_nearest_above_bounds(nodes, nodes[at].depth, at);
    }
}

/// The context of the anchor at `anchor`: what the climb from it gathers,
/// cut off after `budget` characters.
pub open spec fn context_of(nodes: Seq<DomNodeView>, anchor: int, budget: nat) -> Seq<char> {
    truncated(climbed(nodes, anchor, Seq::empty(), budget), budget)
}

/// The context of an anchor never holds more characters than the budget.
pub proof fn lemma_context_within_budget(nodes: Seq<DomNodeView>, anchor: int, budget: nat)
    ensures
        context_of(nodes, anchor, budget).len() <= budget,
{
}

/// Adds to `context` the short runs of text below the node at `node`, as
/// long as `context` holds fewer than `max_context_length` characters.
pub fn collect_text_recursive(
    page: &Page,
    node: usize,
    context: &mut String,
    max_context_length: usize,
)
    requires
        page.wf(),
        node < page@.nodes.len(),
    ensures
        final(context)@ == collected(
            page@.nodes,
            node as int,
            old(context)@,
            max_context_length as nat,
        ),
{
    let end = page.subtree_end(node);
    let mut at: usize = node + 1;
    while at < end && context.as_str().unicode_len() < max_context_length
        invariant
            at <= page@.nodes.len(),
            end <= page@.nodes.len(),
            collected(page@.nodes, node as int, old(context)@, max_context_length as nat)
                == gathered(
                page@.nodes,
                at as int,
                end as int,
                context@,
                max_context_length as nat,
            ),
        decreases page@.nodes.len() - at,
    {
        let after = page.subtree_end(at);
        match &page.node(at).kind {
            NodeKind::Text(text) => {
                if text.as_str().unicode_len() < FRAGMENT_LIMIT {
                    let ghost before = context@;
                    let fragment = trim(text.as_str());
                    context.append(fragment.as_str());
                    context.append(" ");
                    assert(context@ == with_fragment(before, text@));
                }
                at = after;
            },
            NodeKind::Element { name, .. } => {
                if same_text(name.as_str(), ANCHOR_TAG) {
                    at = after;
                } else {
                    at = at + 1;
                }
            },
            NodeKind::Other => {
                at = after;
            },
        }
    }
}

/// The text around the anchor at `node`, at most `max_context_length`
/// characters of it: what is gathered below the anchor, then below its
/// parent, and so on outwards, until `max_context_length` characters are
/// there or the outermost element has been searched. A position outside the
/// page, or one that holds no element, has no context.
pub fn extract_parent_content(page: &Page, node: usize, max_context_length: usize) -> (context:
    String)
    requires
        page.wf(),
    ensures
        context@ == context_of(page@.nodes, node as int, max_context_length as nat),
        context@.len() <= max_context_length,
{
    let mut context = String::new();
    let mut at: usize = node;
    let mut climbing = node < page.len();
    while climbing
        invariant
            climbing ==> at < page@.nodes.len(),
            page.wf(),
            climbed(page@.nodes, node as int, Seq::empty(), max_context_length as nat) == if climbing {
                climbed(page@.nodes, at as int, context@, max_context_length as nat)
            } else {
                context@
            },
        decreases
                if climbing {
                    at + 1
                } else {
                    0
                },
    {
        if context.as_str().unicode_len() >= max_context_length || !page.node(at).is_element() {
            climbing = false;
        } else {
            collect_text_recursive(page, at, &mut context, max_context_length);
            match page.parent(at) {
                Some(parent) => {
                    at = parent;
                },
                None => {
                    climbing = false;
                },
            }
        }
    }
    truncate(context.as_str(), max_context_length)
}

} // verus!
