use contact_crawler::dom::parse_document;
use contact_crawler::links::{classify_links, is_relevant, parse_page_for_team_links, resolve_link};

#[test]
fn relative_link_is_joined_to_the_site() {
    assert!(is_relevant("/our-team/bio"));
    assert_eq!(resolve_link("https://acme.com/", "/our-team/bio"), "https://acme.com/our-team/bio");
}

#[test]
fn absolute_link_passes_unchanged() {
    assert!(is_relevant("https://other.com/attorneys"));
    assert_eq!(
        resolve_link("https://acme.com/", "https://other.com/attorneys"),
        "https://other.com/attorneys"
    );
    assert_eq!(resolve_link("https://acme.com/", "http://other.com/x"), "http://other.com/x");
}

#[test]
fn resolving_only_concatenates() {
    assert_eq!(resolve_link("https://acme.com", "team"), "https://acme.comteam");
    assert_eq!(resolve_link("https://acme.com//", "../team?x=1"), "https://acme.com../team?x=1");
    assert_eq!(resolve_link("https://acme.com/", "HTTP://x.com/team"), "https://acme.comHTTP://x.com/team");
}

#[test]
fn every_keyword_marks_a_link() {
    for word in ["team", "people", "profession", "staff", "attorney", "associates", "our-firm"] {
        assert!(is_relevant(&format!("/x/{}/y", word)), "{}", word);
    }
    assert!(is_relevant("/professionals"));
    assert!(!is_relevant("/about"));
    assert!(!is_relevant("/Team"));
    assert!(!is_relevant(""));
    assert!(!is_relevant("/our_firm"));
}

#[test]
fn classify_keeps_each_address_once_in_order() {
    let hrefs = vec![
        Some("/team".to_string()),
        None,
        Some("/about".to_string()),
        Some("https://acme.com/team".to_string()),
        Some("/staff".to_string()),
        Some("/team".to_string()),
    ];
    assert_eq!(
        classify_links(&hrefs, "https://acme.com/"),
        vec!["https://acme.com/team".to_string(), "https://acme.com/staff".to_string()]
    );
    assert_eq!(classify_links(&Vec::new(), "https://acme.com/"), Vec::<String>::new());
}

#[test]
fn links_of_a_page() {
    let page = parse_document(
        "<a href=\"/our-team/bio\">a</a><a>none</a><a href=\"/contact\">b</a>\
         <div><a href=\"https://other.com/attorneys\">c</a></div><a href=\"/our-team/bio\">d</a>",
    )
    .expect("a page");
    assert_eq!(
        parse_page_for_team_links(&page, "https://acme.com/"),
        vec!["https://acme.com/our-team/bio".to_string(), "https://other.com/attorneys".to_string()]
    );
}
