use contact_crawler::context::{collect_text_recursive, extract_parent_content};
use contact_crawler::dom::{parse_document, Page};
use contact_crawler::locator::find_mailto_links;

fn page_and_anchor(html: &str) -> (Page, usize) {
    let page = parse_document(html).expect("a page");
    let links = find_mailto_links(&page);
    let anchor = links[0];
    (page, anchor)
}

#[test]
fn context_grows_from_the_anchor_outwards() {
    let (page, anchor) = page_and_anchor(
        "<html><body><div><p>Jane Doe, Partner</p><a href=\"mailto:jane@acme.com\">Email</a></div></body></html>",
    );
    assert_eq!(
        extract_parent_content(&page, anchor, 1000),
        "Email Jane Doe, Partner Jane Doe, Partner Jane Doe, Partner "
    );
}

#[test]
fn context_never_exceeds_the_budget() {
    let (page, anchor) = page_and_anchor(
        "<html><body><div><p>Jane Doe, Partner</p><a href=\"mailto:jane@acme.com\">Email</a></div></body></html>",
    );
    assert_eq!(extract_parent_content(&page, anchor, 0), "");
    assert_eq!(extract_parent_content(&page, anchor, 3), "Ema");
    assert_eq!(extract_parent_content(&page, anchor, 6), "Email ");
    assert_eq!(extract_parent_content(&page, anchor, 7), "Email J");
    assert_eq!(extract_parent_content(&page, anchor, 24), "Email Jane Doe, Partner ");
    assert_eq!(extract_parent_content(&page, anchor, 25), "Email Jane Doe, Partner J");
    for budget in 0..80 {
        assert!(extract_parent_content(&page, anchor, budget).chars().count() <= budget);
    }
}

#[test]
fn long_runs_of_text_are_left_out() {
    let long = "x".repeat(50);
    let short = "y".repeat(49);
    let html = format!(
        "<div><p>{}</p><p>{}</p><a href=\"mailto:a@b.com\">M</a></div>",
        long, short
    );
    let (page, anchor) = page_and_anchor(&html);
    assert_eq!(extract_parent_content(&page, anchor, 52), format!("M {} ", short));
}

#[test]
fn length_of_a_run_counts_characters() {
    let run = "é".repeat(49);
    let html = format!("<div><p>{}</p><a href=\"mailto:a@b.com\">M</a></div>", run);
    let (page, anchor) = page_and_anchor(&html);
    assert_eq!(extract_parent_content(&page, anchor, 52), format!("M {} ", run));
}

#[test]
fn other_anchors_are_not_entered() {
    let (page, anchor) = page_and_anchor(
        "<div><a href=\"/x\">Skip <b>me</b></a><span>Keep</span><a href=\"mailto:a@b.com\">M<i>N</i></a></div>",
    );
    assert_eq!(extract_parent_content(&page, anchor, 1000), "M N Keep Keep Keep ");
}

#[test]
fn runs_are_trimmed_and_each_is_followed_by_a_space() {
    let (page, anchor) = page_and_anchor(
        "<div> <b>  Jane\n</b> <a href=\"mailto:a@b.com\">M</a></div>",
    );
    assert_eq!(extract_parent_content(&page, anchor, 9), "M  Jane  ");
}

#[test]
fn a_position_that_holds_no_element_has_no_context() {
    let (page, anchor) = page_and_anchor("<div>text<a href=\"mailto:a@b.com\">M</a></div>");
    assert_eq!(extract_parent_content(&page, 0, 100), "");
    assert_eq!(extract_parent_content(&page, anchor + 1, 100), "");
    assert_eq!(extract_parent_content(&page, page.len(), 100), "");
    assert_eq!(extract_parent_content(&page, usize::MAX, 100), "");
}

#[test]
fn collecting_adds_to_what_is_there_and_stops_at_the_limit() {
    let (page, anchor) = page_and_anchor(
        "<div><p>one</p><p>two</p><p>three</p><a href=\"mailto:a@b.com\">M</a></div>",
    );
    let div = anchor - 7;
    let mut context = String::from("so far: ");
    collect_text_recursive(&page, div, &mut context, 1000);
    assert_eq!(context, "so far: one two three ");
    let mut context = String::from("so far: ");
    collect_text_recursive(&page, div, &mut context, 12);
    assert_eq!(context, "so far: one ");
    let mut context = String::from("so far: ");
    collect_text_recursive(&page, div, &mut context, 13);
    assert_eq!(context, "so far: one two ");
    let mut context = String::from("full");
    collect_text_recursive(&page, div, &mut context, 4);
    assert_eq!(context, "full");
}
