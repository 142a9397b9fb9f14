//! Which links of a page lead to pages about personnel.

use crate::dom::{href_of, Page, PageView};
use crate::text::{
    contains, has_prefix, has_substring, holds_text, starts_with, strip_trailing, texts,
    without_trailing,
};
use vstd::prelude::*;
use vstd::string::*;

verus! {

/// The words that mark a link as one to a page about personnel.
pub open spec fn keywords() -> Seq<Seq<char>> {
    seq![
        "team"@,
        "people"@,
        "profession"@,
        "staff"@,
        "attorney"@,
        "associates"@,
        "our-firm"@,
    ]
}

/// A target is relevant if one of the keywords stands in it, in the very
/// same letters.
pub open spec fn relevant(href: Seq<char>) -> bool {
    exists|k: int| 0 <= k < keywords().len() && contains(href, #[trigger] keywords()[k])
}

/// A target is absolute if it begins with `http://` or `https://`.
pub open spec fn is_absolute(href: Seq<char>) -> bool {
    starts_with(href, "http://"@) || starts_with(href, "https://"@)
}

/// The address that a target stands for on `site`: an absolute target is
/// kept as it is; any other is appended to `site` without its final slashes.
pub open spec fn resolved(site: Seq<char>, href: Seq<char>) -> Seq<char> {
    if is_absolute(href) {
        href
    } else {
        without_trailing(site, '/') + href
    }
}

/// The addresses that the first `upto` of `hrefs` lead to: each relevant
/// target resolved against `site`, in order, each address once.
pub open spec fn team_links(hrefs: Seq<Option<Seq<char>>>, site: Seq<char>, upto: int) -> Seq<
    Seq<char>,
>
    decreases upto,
{
    if upto <= 0 {
        Seq::empty()
    } else {
        let before = team_links(hrefs, site, upto - 1);
        match hrefs[upto - 1] {
            Some(href) => if relevant(href) && !before.contains(resolved(site, href)) {
                before.push(resolved(site, href))
            } else {
                before
            },
            None => before,
        }
    }
}

/// The list of links holds no address twice.
pub proof fn lemma_team_links_distinct(hrefs: Seq<Option<Seq<char>>>, site: Seq<char>, upto: int)
    ensures
        team_links(hrefs, site, upto).no_duplicates(),
    decreases upto,
{
    if upto > 0 {
        lemma_team_links_distinct(hrefs, site, upto - 1);
        let before = team_links(hrefs, site, upto - 1);
        match hrefs[upto - 1] {
            Some(href) => {
                if relevant(href) && !before.contains(resolved(site, href)) {
                    let link = resolved(site, href);
                    let all = before.push(link);
                    assert forall|i: int, j: int|
                        0 <= i < all.len() && 0 <= j < all.len() && i != j implies all[i]
                        != all[j] by {
                        if i < before.len() && j < before.len() {
                        } else if i < before.len() {
                            assert(before.contains(before[i]));
                        } else {
                            assert(before.contains(before[j]));
                        }
                    }
                }
            },
            None => {},
        }
    }
}

/// The target at position `k` is relevant and resolves to `link`.
pub open spec fn leads_to(hrefs: Seq<Option<Seq<char>>>, site: Seq<char>, k: int, link: Seq<char>) -> bool {
    &&& 0 <= k < hrefs.len()
    &&& hrefs[k] is Some
    &&& relevant(hrefs[k]->0)
    &&& resolved(site, hrefs[k]->0) == link
}

/// The list of links holds exactly the addresses that the relevant targets
/// resolve to.
pub proof fn lemma_team_links_members(
    hrefs: Seq<Option<Seq<char>>>,
    site: Seq<char>,
    upto: int,
    link: Seq<char>,
)
    requires
        upto <= hrefs.len(),
    ensures
        team_links(hrefs, site, upto).contains(link) <==> exists|k: int|
            k < upto && leads_to(hrefs, site, k, link),
    decreases upto,
{
    if upto <= 0 {
        assert(team_links(hrefs, site, upto) =~= Seq::empty());
    } else {
        lemma_team_links_members(hrefs, site, upto - 1, link);
        let before = team_links(hrefs, site, upto - 1);
        let now = team_links(hrefs, site, upto);
        let last = hrefs[upto - 1];
        let adds = last is Some && relevant(last->0) && !before.contains(resolved(site, last->0));
        if now.contains(link) {
            let i = choose|i: int| 0 <= i < now.len() && now[i] == link;
            if adds && i == before.len() {
                assert(leads_to(hrefs, site, upto - 1, link));
            } else {
                assert(before[i] == link);
                assert(before.contains(link));
                let k = choose|k: int| k < upto - 1 && leads_to(hrefs, site, k, link);
                assert(k < upto && leads_to(hrefs, site, k, link));
            }
        }
        if exists|k: int| k < upto && leads_to(hrefs, site, k, link) {
            let k = choose|k: int| k < upto && leads_to(hrefs, site, k, link);
            if k < upto - 1 {
                assert(before.contains(link));
                let i = choose|i: int| 0 <= i < before.len() && before[i] == link;
                assert(now[i] == link);
            } else {
                if adds {
                    assert(now[before.len() as int] == link);
                } else {
                    assert(before.contains(link));
                    let i = choose|i: int| 0 <= i < before.len() && before[i] == link;
                    assert(now[i] == link);
                }
            }
        }
    }
}

/// The targets of the anchors of `page`, in document order.
pub open spec fn anchor_targets(page: PageView) -> Seq<Option<Seq<char>>> {
    Seq::new(page.anchors.len(), |k: int| href_of(page.nodes[page.anchors[k] as int]))
}

/// The keywords, for searching.
fn keyword_list() -> (list: Vec<&'static str>)
    ensures
        list@.len() == keywords().len(),
        forall|k: int| 0 <= k < list@.len() ==> (#[trigger] list@[k])@ == keywords()[k],
{
    let mut list: Vec<&'static str> = Vec::new();
    list.push("team");
    list.push("people");
    list.push("profession");
    list.push("staff");
    list.push("attorney");
    list.push("associates");
    list.push("our-firm");
    list
}

/// Whether one of the keywords stands in `href`.
pub fn is_relevant(href: &str) -> (b: bool)
    ensures
        b == relevant(href@),
{
    let list = keyword_list();
    let mut k: usize = 0;
    while k < list.len()
        invariant
            k <= list.len(),
            list@.len() == keywords().len(),
            forall|j: int| 0 <= j < list@.len() ==> (#[trigger] list@[j])@ == keywords()[j],
            forall|j: int| 0 <= j < k ==> !contains(href@, #[trigger] keywords()[j]),
        decreases list.len() - k,
    {
        if has_substring(href, list[k]) {
            assert(contains(href@, keywords()[k as int]));
            return true;
        }
        k += 1;
    }
    false
}

/// The address that `href` stands for on `site`.
pub fn resolve_link(site: &str, href: &str) -> (r: String)
    ensures
        r@ == resolved(site@, href@),
        is_absolute(href@) ==> r@ == href@,
{
    if has_prefix(href, "http://") || has_prefix(href, "https://") {
        href.to_owned()
    } else {
        let mut r = strip_trailing(site, '/');
        r.append(href);
        r
    }
}

/// The addresses of the pages about personnel that `hrefs` lead to from
/// `site`: each relevant target resolved, in order, each address once.
pub fn classify_links(hrefs: &Vec<Option<String>>, site: &str) -> (links: Vec<String>)
    ensures
        texts(links@) == team_links(targets_view(hrefs@), site@, hrefs.len() as int),
{
    let mut links: Vec<String> = Vec::new();
    let mut i: usize = 0;
    assert(texts(links@) =~= Seq::empty());
    while i < hrefs.len()
        invariant
            i <= hrefs.len(),
            texts(links@) == team_links(targets_view(hrefs@), site@, i as int),
        decreases hrefs.len() - i,
    {
        let ghost before = texts(links@);
        assert(targets_view(hrefs@)[i as int] == crate::contact::opt_text(hrefs@[i as int]));
        match &hrefs[i] {
            Some(href) => {
                if is_relevant(href.as_str()) {
                    let link = resolve_link(site, href.as_str());
                    if !holds_text(&links, link.as_str()) {
                        links.push(link);
                        assert(texts(links@) =~= before.push(link@));
                    }
                }
            },
            None => {},
        }
        i += 1;
    }
    links
}

/// The views of optional targets, in order.
pub open spec fn targets_view(hrefs: Seq<Option<String>>) -> Seq<Option<Seq<char>>> {
    hrefs.map_values(|h: Option<String>| crate::contact::opt_text(h))
}

/// The addresses of the pages about personnel that `page` links to, seen
/// from the site `url`.
pub fn parse_page_for_team_links(page: &Page, url: &str) -> (links: Vec<String>)
    requires
        page.wf(),
    ensures
        texts(links@) == team_links(anchor_targets(page@), url@, page@.anchors.len() as int),
{
    let anchors = page.anchors();
    let mut hrefs: Vec<Option<String>> = Vec::new();
    let mut k: usize = 0;
    while k < anchors.len()
        invariant
            k <= anchors.len(),
            page.wf(),
            anchors@ == page@.anchors,
            hrefs.len() == k,
            forall|j: int| 0 <= j < k ==> (#[trigger] targets_view(hrefs@)[j]) == anchor_targets(page@)[j],
        decreases anchors.len() - k,
    {
        let target = match page.node(anchors[k]).href() {
            Some(h) => Some(h.clone()),
            None => None,
        };
        let ghost earlier = hrefs@;
        hrefs.push(target);
        assert forall|j: int| 0 <= j < k + 1 implies (#[trigger] targets_view(hrefs@)[j])
            == anchor_targets(page@)[j] by {
            if j < k {
                assert(hrefs@[j] == earlier[j]);
                assert(targets_view(earlier)[j] == anchor_targets(page@)[j]);
            }
        }
        k += 1;
    }
    assert(targets_view(hrefs@) =~= anchor_targets(page@));
    classify_links(&hrefs, url)
}

} // verus!
