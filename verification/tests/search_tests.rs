use contact_crawler::search::{company_website_in, pick_result, pick_user_agent, search_url};
use contact_crawler::text::remove_char;

#[test]
fn search_address_holds_the_encoded_name_without_full_stops() {
    assert_eq!(search_url("Acme Inc."), "https://duckduckgo.com/html/?q=Acme%20Inc");
    assert_eq!(search_url("A.B. & C"), "https://duckduckgo.com/html/?q=AB%20%26%20C");
    assert_eq!(search_url("Müller"), "https://duckduckgo.com/html/?q=M%C3%BCller");
    assert_eq!(search_url(""), "https://duckduckgo.com/html/?q=");
    assert_eq!(search_url("a-b_c~d"), "https://duckduckgo.com/html/?q=a-b_c~d");
}

#[test]
fn remove_char_drops_every_occurrence() {
    assert_eq!(remove_char("a.b..c.", '.'), "abc");
    assert_eq!(remove_char("...", '.'), "");
    assert_eq!(remove_char("é.ü", '.'), "éü");
    assert_eq!(remove_char("abc", '.'), "abc");
}

#[test]
fn user_agent_is_one_of_the_three() {
    let known = [
        "Mozilla/5.0 (Windows NT 10.0; Win64; x64) AppleWebKit/537.36 (KHTML, like Gecko) Chrome/91.0.4472.124 Safari/537.36",
        "Mozilla/5.0 (Macintosh; Intel Mac OS X 10_15_7) AppleWebKit/605.1.15 (KHTML, like Gecko) Version/14.0 Safari/605.1.15",
        "Mozilla/5.0 (Windows NT 10.0; Win64; x64; rv:89.0) Gecko/20100101 Firefox/89.0",
    ];
    for _ in 0..50 {
        assert!(known.contains(&pick_user_agent()));
    }
}

#[test]
fn first_acceptable_result_is_picked() {
    let hrefs = vec![
        None,
        Some("https://duckduckgo.com/y.js".to_string()),
        Some("https://en.wikipedia.org/wiki/Acme".to_string()),
        Some("https://acme.com".to_string()),
        Some("https://acme.org".to_string()),
    ];
    assert_eq!(pick_result(&hrefs), Some("https://acme.com".to_string()));
    assert_eq!(pick_result(&hrefs[..3].to_vec()), None);
    assert_eq!(pick_result(&Vec::new()), None);
}

#[test]
fn website_is_read_from_a_page_of_results() {
    let html = "<div><a class=\"result__url\" href=\"//duckduckgo.com/l/?x\">ad</a>\
                <a class=\"other\" href=\"https://wrong.com\">w</a>\
                <a class=\"result__url\" href=\"https://www.acme.com/\">acme.com</a>\
                <a class=\"result__url\" href=\"https://acme.net/\">acme.net</a></div>";
    assert_eq!(company_website_in(html), Some("https://www.acme.com/".to_string()));
    assert_eq!(company_website_in("<p>nothing</p>"), None);
    assert_eq!(company_website_in(""), None);
}
