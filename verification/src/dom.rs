//! Pages as outlines: the nodes of an HTML tree in document order, each with
//! its depth.

use crate::contact::opt_text;
use scraper::ElementRef;
use scraper::Html;
use scraper::Node;
use scraper::Selector;
use vstd::prelude::*;

verus! {

/// The longest text, in characters, that is handed to the parser.
pub const MAX_DOCUMENT_LENGTH: usize = 0x400_0000;

/// The attribute that carries a link's target.
pub const LINK_ATTRIBUTE: &'static str = "href";

/// The selector for anchors.
pub const ANCHOR_SELECTOR: &'static str = "a";

/// The selector for anchors whose target begins with `mailto:`.
pub const MAILTO_SELECTOR: &'static str = "a[href^='mailto:'";

/// Mathematical content of a [`NodeKind`].
pub enum NodeKindView {
    Text(Seq<char>),
    Element { name: Seq<char>, href: Option<Seq<char>> },
    Other,
}

/// Mathematical content of a [`DomNode`].
pub struct DomNodeView {
    pub depth: nat,
    pub kind: NodeKindView,
}

/// What a node of a page is.
#[derive(Debug, Clone, PartialEq, Eq)]
pub enum NodeKind {
    /// A run of text.
    Text(String),
    /// An element, with its tag name and its link target, if it has one.
    Element { name: String, href: Option<String> },
    /// Anything else: the document root, a comment, a doctype.
    Other,
}

/// A node of a page: the number of its ancestors, and what it is.
#[derive(Debug, Clone, PartialEq, Eq)]
pub struct DomNode {
    pub depth: usize,
    pub kind: NodeKind,
}

impl View for NodeKind {
    type V = NodeKindView;

    open spec fn view(&self) -> NodeKindView {
        match *self {
            NodeKind::Text(t) => NodeKindView::Text(t@),
            NodeKind::Element { name, href } => NodeKindView::Element {
                name: name@,
                href: opt_text(href),
            },
            NodeKind::Other => NodeKindView::Other,
        }
    }
}

impl View for DomNode {
    type V = DomNodeView;

    open spec fn view(&self) -> DomNodeView {
        DomNodeView { depth: self.depth as nat, kind: self.kind@ }
    }
}

/// The link target of a node, if it is an element that has one.
pub open spec fn href_of(node: DomNodeView) -> Option<Seq<char>> {
    match node.kind {
        NodeKindView::Element { href, .. } => href,
        _ => None,
    }
}

/// The views of `nodes`, in order.
pub open spec fn nodes_view(nodes: Seq<DomNode>) -> Seq<DomNodeView> {
    nodes.map_values(|n: DomNode| n@)
}

/// An outline is that of a tree: it begins with a root of depth 0, and every
/// later node lies below the root and at most one level below the node before it.
pub open spec fn valid_outline(nodes: Seq<DomNodeView>) -> bool {
    &&& nodes.len() > 0
    &&& nodes[0].depth == 0
    &&& forall|i: int|
        1 <= i < nodes.len() ==> 1 <= (#[trigger] nodes[i]).depth <= nodes[i - 1].depth + 1
}

/// The positions below `upto` that `marks` selects, in rising order: those
/// marked `Some(true)` that hold an element.
pub open spec fn selected(nodes: Seq<DomNodeView>, marks: Seq<Option<bool>>, upto: int) -> Seq<
    usize,
>
    decreases upto,
{
    if upto <= 0 {
        Seq::empty()
    } else {
        let before = selected(nodes, marks, upto - 1);
        if marks[upto - 1] == Some(true) && nodes[upto - 1].kind is Element {
            before.push((upto - 1) as usize)
        } else {
            before
        }
    }
}

/// The first position at or after `from` whose node lies no deeper than
/// `depth`, or the number of nodes if there is none.
pub open spec fn next_not_below(nodes: Seq<DomNodeView>, depth: nat, from: int) -> int
    decreases nodes.len() - from,
{
    if 0 <= from < nodes.len() && nodes[from].depth > depth {
        next_not_below(nodes, depth, from + 1)
    } else {
        from
    }
}

/// The position after the last node of the subtree that begins at `at`.
pub open spec fn subtree_end(nodes: Seq<DomNodeView>, at: int) -> int {
    next_not_below(nodes, nodes[at].depth, at + 1)
}

/// The last position before `before` whose node lies above `depth`.
pub open spec fn nearest_above(nodes: Seq<DomNodeView>, depth: nat, before: int) -> Option<int>
    decreases before,
{
    if before <= 0 || before > nodes.len() {
        None
    } else if nodes[before - 1].depth < depth {
        Some(before - 1)
    } else {
        nearest_above(nodes, depth, before - 1)
    }
}

/// The position of the parent of the node at `at`.
pub open spec fn parent_of(nodes: Seq<DomNodeView>, at: int) -> Option<int> {
    nearest_above(nodes, nodes[at].depth, at)
}

/// A subtree ends after its root and within the outline.
pub proof fn lemma_next_not_below_bounds(nodes: Seq<DomNodeView>, depth: nat, from: int)
    requires
        0 <= from <= nodes.len(),
    ensures
        from <= next_not_below(nodes, depth, from) <= nodes.len(),
    decreases nodes.len() - from,
{
    if from < nodes.len() && nodes[from].depth > depth {
        lemma_next_not_below_bounds(nodes, depth, from + 1);
    }
}

/// A parent stands before its child.
pub proof fn lemma_nearest_above_bounds(nodes: Seq<DomNodeView>, depth: nat, before: int)
    ensures
        nearest_above(nodes, depth, before) matches Some(p) ==> 0 <= p < before && p < nodes.len()
            && nodes[p].depth < depth,
    decreases before,
{
    if before <= 0 || before > nodes.len() {
    } else if nodes[before - 1].depth < depth {
    } else {
        lemma_nearest_above_bounds(nodes, depth, before - 1);
    }
}

/// Mathematical content of a [`Page`].
pub struct PageView {
    /// The nodes in document order.
    pub nodes: Seq<DomNodeView>,
    /// The positions of the anchors, rising.
    pub anchors: Seq<usize>,
    /// The positions of the anchors whose target begins with `mailto:`, rising.
    pub mail_anchors: Seq<usize>,
}

/// The page that an outline and the marks of the two selectors make, if they fit.
pub open spec fn page_of(
    nodes: Seq<DomNodeView>,
    anchor_marks: Option<Seq<Option<bool>>>,
    mail_marks: Option<Seq<Option<bool>>>,
) -> Option<PageView> {
    if valid_outline(nodes) && anchor_marks is Some && mail_marks is Some
        && anchor_marks->0.len() == nodes.len() && mail_marks->0.len() == nodes.len() {
        Some(
            PageView {
                nodes,
                anchors: selected(nodes, anchor_marks->0, nodes.len() as int),
                mail_anchors: selected(nodes, mail_marks->0, nodes.len() as int),
            },
        )
    } else {
        None
    }
}

/// Every position in `positions` lies in `nodes` and holds an element.
pub open spec fn element_positions(nodes: Seq<DomNodeView>, positions: Seq<usize>) -> bool {
    forall|k: int|
        0 <= k < positions.len() ==> (#[trigger] positions[k]) < nodes.len()
            && nodes[positions[k] as int].kind is Element
}

/// What holds of every page.
pub open spec fn valid_page(page: PageView) -> bool {
    &&& valid_outline(page.nodes)
    &&& element_positions(page.nodes, page.anchors)
    &&& element_positions(page.nodes, page.mail_anchors)
}

/// A parsed page.
#[derive(Debug, Clone, PartialEq, Eq)]
pub struct Page {
    nodes: Vec<DomNode>,
    anchors: Vec<usize>,
    mail_anchors: Vec<usize>,
}

impl View for Page {
    type V = PageView;

    closed spec fn view(&self) -> PageView {
        PageView {
            nodes: nodes_view(self.nodes@),
            anchors: self.anchors@,
            mail_anchors: self.mail_anchors@,
        }
    }
}

/// `scraper::Html`, a parsed HTML tree. Nothing is known of what is inside
/// one but what the functions below say.
#[verifier::external_type_specification]
#[verifier::external_body]
pub struct ExHtml(Html);

/// The tree that `scraper` parses `text` into.
pub uninterp spec fn parsed_html(text: Seq<char>) -> Html;

/// The nodes of `doc` in document order, each with the number of its
/// ancestors; an element with its tag name and the value of its attribute
/// `attr`.
pub uninterp spec fn dom_outline(doc: Html, attr: Seq<char>) -> Seq<DomNodeView>;

/// For each node of `doc` in document order, whether it is an element and,
/// if so, whether the selector `css` matches it; `None` where `css` is no
/// selector.
pub uninterp spec fn dom_marks(doc: Html, css: Seq<char>) -> Option<Seq<Option<bool>>>;

/// The HTML text that `scraper` writes for `doc`.
pub uninterp spec fn dom_html(doc: Html) -> Seq<char>;

/// Parses `text` as an HTML document.
///
/// Trusted: `scraper::Html::parse_document`, which builds the same tree from
/// the same text. It holds the text, and every text that it makes of parts
/// of it, in buffers of `tendril`, which panic where one is to grow beyond
/// 2^31 bytes. A text of [`MAX_DOCUMENT_LENGTH`] characters has at most 2^28
/// bytes, and no buffer comes near the limit; longer texts are left out.
#[verifier::external_body]
fn parse_html(text: &str) -> (doc: Html)
    requires
        text@.len() <= MAX_DOCUMENT_LENGTH,
    ensures
        doc == parsed_html(text@),
{
    Html::parse_document(text)
}

/// Lists the nodes of `doc`.
///
/// Trusted: walks the tree with `ego_tree`'s `NodeRef::descendants` from the
/// root, which yields the root and then every node below it in document
/// order; counts each node's `ancestors`; and copies from a
/// `scraper::Node::Text` its text, from a `Node::Element` its `name` and
/// what `Element::attr` gives for `attr`.
#[verifier::external_body]
fn html_outline(doc: &Html, attr: &str) -> (out: Vec<DomNode>)
    ensures
        nodes_view(out@) == dom_outline(*doc, attr@),
{
    doc.tree.root().descendants().map(|n| DomNode {
        depth: n.ancestors().count(),
        kind: match n.value() {
            Node::Text(t) => NodeKind::Text(t.to_string()),
            Node::Element(e) => NodeKind::Element {
                name: e.name().to_string(),
                href: e.attr(attr).map(String::from),
            },
            _ => NodeKind::Other,
        },
    }).collect()
}

/// Marks the nodes of `doc` that the selector `css` matches.
///
/// Trusted: parses `css` with `scraper::Selector::parse`, walks the tree as
/// [`html_outline`] does, and asks `Selector::matches` of each node that
/// `ElementRef::wrap` accepts as an element.
#[verifier::external_body]
fn html_marks(doc: &Html, css: &str) -> (out: Option<Vec<Option<bool>>>)
    ensures
        match out {
            Some(marks) => dom_marks(*doc, css@) == Some(marks@),
            None => dom_marks(*doc, css@) is None,
        },
{
    let selector = Selector::parse(css).ok()?;
    let nodes = doc.tree.root().descendants();
    Some(nodes.map(|n| ElementRef::wrap(n).map(|e| selector.matches(&e))).collect())
}

/// Writes `doc` out as HTML.
///
/// Trusted: `scraper::Html::html`, which serialises the whole tree; the
/// contract gives its outcome the name [`dom_html`].
#[verifier::external_body]
fn html_text(doc: &Html) -> (text: String)
    ensures
        text@ == dom_html(*doc),
{
    doc.html()
}

impl DomNode {
    /// Whether the node is an element.
    pub fn is_element(&self) -> (b: bool)
        ensures
            b == (self@.kind is Element),
    {
        match self.kind {
            NodeKind::Element { .. } => true,
            _ => false,
        }
    }

    /// The link target of the node, if it is an element that has one.
    pub fn href(&self) -> (r: Option<&String>)
        ensures
            match r {
                Some(h) => href_of(self@) == Some(h@),
                None => href_of(self@) is None,
            },
    {
        match &self.kind {
            NodeKind::Element { href: Some(h), .. } => Some(h),
            _ => None,
        }
    }
}

impl Page {
    /// What holds of every page.
    pub open spec fn wf(&self) -> bool {
        valid_page(self@)
    }

    /// Whether `nodes` is the outline of a tree.
    pub fn is_outline(nodes: &Vec<DomNode>) -> (b: bool)
        ensures
            b == valid_outline(nodes_view(nodes@)),
    {
        if nodes.len() == 0 || nodes[0].depth != 0 {
            return false;
        }
        let mut i: usize = 1;
        while i < nodes.len()
            invariant
                1 <= i <= nodes.len(),
                nodes@[0].depth == 0,
                forall|j: int|
                    1 <= j < i ==> 1 <= (#[trigger] nodes_view(nodes@)[j]).depth <= nodes_view(
                        nodes@,
                    )[j - 1].depth + 1,
            decreases nodes.len() - i,
        {
            let d = nodes[i].depth;
            if d == 0 || d - 1 > nodes[i - 1].depth {
                assert(nodes_view(nodes@)[i as int].depth == d);
                assert(nodes_view(nodes@)[i - 1].depth == nodes@[i - 1].depth);
                return false;
            }
            assert(nodes_view(nodes@)[i as int].depth == d);
            assert(nodes_view(nodes@)[i - 1].depth == nodes@[i - 1].depth);
            i += 1;
        }
        true
    }

    /// The positions that `marks` selects among `nodes`.
    pub fn select(nodes: &Vec<DomNode>, marks: &Vec<Option<bool>>) -> (out: Vec<usize>)
        requires
            marks.len() == nodes.len(),
        ensures
            out@ == selected(nodes_view(nodes@), marks@, nodes.len() as int),
            element_positions(nodes_view(nodes@), out@),
    {
        let mut out: Vec<usize> = Vec::new();
        let mut i: usize = 0;
        while i < nodes.len()
            invariant
                i <= nodes.len(),
                marks.len() == nodes.len(),
                out@ == selected(nodes_view(nodes@), marks@, i as int),
                element_positions(nodes_view(nodes@), out@),
            decreases nodes.len() - i,
        {
            let chosen = match marks[i] {
                Some(true) => match nodes[i].kind {
                    NodeKind::Element { .. } => true,
                    _ => false,
                },
                _ => false,
            };
            assert(nodes_view(nodes@)[i as int] == nodes@[i as int]@);
            if chosen {
                out.push(i);
            }
            i += 1;
        }
        out
    }

    /// Makes a page of an outline and of the marks that the two selectors
    /// leave on it, if the outline is that of a tree and the marks fit it.
    pub fn assemble(
        nodes: Vec<DomNode>,
        anchor_marks: Option<Vec<Option<bool>>>,
        mail_marks: Option<Vec<Option<bool>>>,
    ) -> (r: Option<Page>)
        ensures
            match r {
                Some(page) => page.wf() && Some(page@) == page_of(
                    nodes_view(nodes@),
                    marks_view(anchor_marks),
                    marks_view(mail_marks),
                ),
                None => page_of(
                    nodes_view(nodes@),
                    marks_view(anchor_marks),
                    marks_view(mail_marks),
                ) is None,
            },
    {
        if !Page::is_outline(&nodes) {
            return None;
        }
        match (anchor_marks, mail_marks) {
            (Some(a), Some(m)) => {
                if a.len() != nodes.len() || m.len() != nodes.len() {
                    return None;
                }
                let anchors = Page::select(&nodes, &a);
                let mail_anchors = Page::select(&nodes, &m);
                Some(Page { nodes, anchors, mail_anchors })
            },
            _ => None,
        }
    }

    /// The number of nodes.
    pub fn len(&self) -> (n: usize)
        ensures
            n == self@.nodes.len(),
    {
        self.nodes.len()
    }

    /// The node at `position`.
    pub fn node(&self, position: usize) -> (n: &DomNode)
        requires
            position < self@.nodes.len(),
        ensures
            n@ == self@.nodes[position as int],
    {
        &self.nodes[position]
    }

    /// The position after the last node of the subtree that begins at `at`.
    pub fn subtree_end(&self, at: usize) -> (end: usize)
        requires
            at < self@.nodes.len(),
        ensures
            end == subtree_end(self@.nodes, at as int),
            at < end <= self@.nodes.len(),
    {
        let count = self.nodes.len();
        assert(self@.nodes.len() == count);
        let depth = self.nodes[at].depth;
        let mut end: usize = at + 1;
        assert(self@.nodes[at as int] == self.nodes@[at as int]@);
        while end < self.nodes.len() && self.nodes[end].depth > depth
            invariant
                at < end <= self.nodes.len(),
                depth == self@.nodes[at as int].depth,
                subtree_end(self@.nodes, at as int) == next_not_below(
                    self@.nodes,
                    depth as nat,
                    end as int,
                ),
            decreases self.nodes.len() - end,
        {
            assert(self@.nodes[end as int] == self.nodes@[end as int]@);
            end += 1;
        }
        assert(end < self.nodes.len() ==> self@.nodes[end as int] == self.nodes@[end as int]@);
        end
    }

    /// The position of the parent of the node at `at`.
    pub fn parent(&self, at: usize) -> (r: Option<usize>)
        requires
            at < self@.nodes.len(),
        ensures
            match r {
                Some(p) => parent_of(self@.nodes, at as int) == Some(p as int) && p < at,
                None => parent_of(self@.nodes, at as int) is None,
            },
    {
        let depth = self.nodes[at].depth;
        let mut before: usize = at;
        assert(self@.nodes[at as int] == self.nodes@[at as int]@);
        while before > 0
            invariant
                before <= at < self.nodes.len(),
                depth == self@.nodes[at as int].depth,
                parent_of(self@.nodes, at as int) == nearest_above(
                    self@.nodes,
                    depth as nat,
                    before as int,
                ),
            decreases before,
        {
            assert(self@.nodes[before - 1] == self.nodes@[before - 1]@);
            if self.nodes[before - 1].depth < depth {
                return Some(before - 1);
            }
            before -= 1;
        }
        None
    }

    /// The positions of the anchors.
    pub fn anchors(&self) -> (a: &Vec<usize>)
        ensures
            a@ == self@.anchors,
    {
        &self.anchors
    }

    /// The positions of the anchors whose target begins with `mailto:`.
    pub fn mail_anchors(&self) -> (a: &Vec<usize>)
        ensures
            a@ == self@.mail_anchors,
    {
        &self.mail_anchors
    }
}

/// The view of marks that may be missing.
pub open spec fn marks_view(marks: Option<Vec<Option<bool>>>) -> Option<Seq<Option<bool>>> {
    match marks {
        Some(m) => Some(m@),
        None => None,
    }
}

/// The page that `scraper` reads from `text`; none from a text of more than
/// [`MAX_DOCUMENT_LENGTH`] characters.
pub open spec fn parsed_page(text: Seq<char>) -> Option<PageView> {
    if text.len() > MAX_DOCUMENT_LENGTH {
        None
    } else {
        let doc = parsed_html(text);
        page_of(
            dom_outline(doc, LINK_ATTRIBUTE@),
            dom_marks(doc, ANCHOR_SELECTOR@),
            dom_marks(doc, MAILTO_SELECTOR@),
        )
    }
}

/// Whether `text` is short enough to be parsed.
pub fn fits_parser(text: &str) -> (b: bool)
    ensures
        b == (text@.len() <= MAX_DOCUMENT_LENGTH),
{
    text.unicode_len() <= MAX_DOCUMENT_LENGTH
}

/// Parses `text` as an HTML document and lays it out as a page. A text of
/// more than [`MAX_DOCUMENT_LENGTH`] characters gives no page.
pub fn parse_document(text: &str) -> (r: Option<Page>)
    ensures
        match r {
            Some(page) => page.wf() && Some(page@) == parsed_page(text@),
            None => parsed_page(text@) is None,
        },
        text@.len() > MAX_DOCUMENT_LENGTH ==> r is None,
{
    if !fits_parser(text) {
        return None;
    }
    let doc = parse_html(text);
    let nodes = html_outline(&doc, LINK_ATTRIBUTE);
    let anchor_marks = html_marks(&doc, ANCHOR_SELECTOR);
    let mail_marks = html_marks(&doc, MAILTO_SELECTOR);
    Page::assemble(nodes, anchor_marks, mail_marks)
}

/// The link targets of the nodes at `positions`, in order.
pub open spec fn targets_at(nodes: Seq<DomNodeView>, positions: Seq<usize>) -> Seq<Option<Seq<char>>> {
    Seq::new(positions.len(), |k: int| href_of(nodes[positions[k] as int]))
}

/// The link targets of the elements that the selector `css` matches in what
/// `scraper` reads from `text`, in document order; `None` where `css` is no
/// selector or `text` is too long.
pub open spec fn selected_targets(text: Seq<char>, css: Seq<char>) -> Option<Seq<Option<Seq<char>>>> {
    match selection_in(text, css) {
        Some(positions) => Some(
            targets_at(dom_outline(parsed_html(text), LINK_ATTRIBUTE@), positions),
        ),
        None => None,
    }
}

/// The link targets of the nodes of `nodes` at `positions`, in order.
pub fn targets_of(nodes: &Vec<DomNode>, positions: &Vec<usize>) -> (targets: Vec<Option<String>>)
    requires
        forall|k: int| 0 <= k < positions.len() ==> (#[trigger] positions[k]) < nodes.len(),
    ensures
        targets.len() == positions.len(),
        forall|k: int|
            0 <= k < targets.len() ==> opt_text(#[trigger] targets[k]) == href_of(
                nodes[positions[k] as int]@,
            ),
{
    let mut targets: Vec<Option<String>> = Vec::new();
    let mut k: usize = 0;
    while k < positions.len()
        invariant
            k <= positions.len(),
            targets.len() == k,
            forall|j: int| 0 <= j < positions.len() ==> (#[trigger] positions[j]) < nodes.len(),
            forall|j: int|
                0 <= j < k ==> opt_text(#[trigger] targets[j]) == href_of(
                    nodes[positions[j] as int]@,
                ),
        decreases positions.len() - k,
    {
        let target = match nodes[positions[k]].href() {
            Some(h) => Some(h.clone()),
            None => None,
        };
        targets.push(target);
        k += 1;
    }
    targets
}

/// The link targets of the elements that the selector `css` matches in the
/// HTML document `text`, in document order; `None` where `css` is no selector
/// or `text` has more than [`MAX_DOCUMENT_LENGTH`] characters.
pub fn select_targets(text: &str, css: &str) -> (r: Option<Vec<Option<String>>>)
    ensures
        match r {
            Some(targets) => selected_targets(text@, css@) == Some(
                targets@.map_values(|t: Option<String>| opt_text(t)),
            ),
            None => selected_targets(text@, css@) is None,
        },
        text@.len() > MAX_DOCUMENT_LENGTH ==> r is None,
{
    if !fits_parser(text) {
        return None;
    }
    let doc = parse_html(text);
    let nodes = html_outline(&doc, LINK_ATTRIBUTE);
    match html_marks(&doc, css) {
        Some(marks) => {
            if marks.len() != nodes.len() {
                return None;
            }
            let positions = Page::select(&nodes, &marks);
            let targets = targets_of(&nodes, &positions);
            assert(targets@.map_values(|t: Option<String>| opt_text(t)) =~= targets_at(
                nodes_view(nodes@),
                positions@,
            )) by {
                assert forall|k: int| 0 <= k < positions.len() implies nodes_view(
                    nodes@,
                )[positions[k] as int] == nodes[positions[k] as int]@ by {}
            }
            Some(targets)
        },
        None => None,
    }
}

/// The positions of the elements that the selector `css` matches in what
/// `scraper` reads from `text`, rising; `None` where `css` is no selector or
/// `text` has more than [`MAX_DOCUMENT_LENGTH`] characters.
pub open spec fn selection_in(text: Seq<char>, css: Seq<char>) -> Option<Seq<usize>> {
    if text.len() > MAX_DOCUMENT_LENGTH {
        None
    } else {
        let doc = parsed_html(text);
        let nodes = dom_outline(doc, LINK_ATTRIBUTE@);
        match dom_marks(doc, css) {
            Some(marks) => if marks.len() == nodes.len() {
                Some(selected(nodes, marks, nodes.len() as int))
            } else {
                None
            },
            None => None,
        }
    }
}

/// The HTML document `text` as a page, and the positions in it of the
/// elements that the selector `css` matches; `None` where the page cannot be
/// laid out or `css` is no selector.
pub fn parse_selection(text: &str, css: &str) -> (r: Option<(Page, Vec<usize>)>)
    ensures
        match r {
            Some(found) => found.0.wf() && Some(found.0@) == parsed_page(text@) && Some(found.1@)
                == selection_in(text@, css@) && element_positions(found.0@.nodes, found.1@),
            None => parsed_page(text@) is None || selection_in(text@, css@) is None,
        },
        text@.len() > MAX_DOCUMENT_LENGTH ==> r is None,
{
    if !fits_parser(text) {
        return None;
    }
    let doc = parse_html(text);
    let nodes = html_outline(&doc, LINK_ATTRIBUTE);
    let positions = match html_marks(&doc, css) {
        Some(marks) => {
            if marks.len() != nodes.len() {
                return None;
            }
            Page::select(&nodes, &marks)
        },
        None => {
            return None;
        },
    };
    assert(Some(positions@) == selection_in(text@, css@));
    let ghost outline = nodes_view(nodes@);
    let anchor_marks = html_marks(&doc, ANCHOR_SELECTOR);
    let mail_marks = html_marks(&doc, MAILTO_SELECTOR);
    match Page::assemble(nodes, anchor_marks, mail_marks) {
        Some(page) => {
            assert(page@.nodes == outline);
            Some((page, positions))
        },
        None => None,
    }
}

/// The HTML text that `scraper` writes for the document it reads from
/// `text`; none for a text of more than [`MAX_DOCUMENT_LENGTH`] characters.
pub open spec fn normalized(text: Seq<char>) -> Option<Seq<char>> {
    if text.len() > MAX_DOCUMENT_LENGTH {
        None
    } else {
        Some(dom_html(parsed_html(text)))
    }
}

/// The HTML document `text`, parsed and written out again; `None` for a text
/// of more than [`MAX_DOCUMENT_LENGTH`] characters.
pub fn normalize_document(text: &str) -> (r: Option<String>)
    ensures
        opt_text(r) == normalized(text@),
{
    if !fits_parser(text) {
        return None;
    }
    let doc = parse_html(text);
    Some(html_text(&doc))
}

} // verus!
