use contact_crawler::contact::Contact;
use contact_crawler::reply::{contact_from_captures, mentions_none, parse_llm_reponse};

#[test]
fn tagged_reply_gives_name_and_title() {
    let got = parse_llm_reponse("<name>Jane Doe</name><title>Partner</title>", "jane@x.com");
    assert_eq!(
        got,
        Some(Contact {
            email: "jane@x.com".to_string(),
            name: Some("Jane Doe".to_string()),
            title: Some("Partner".to_string()),
            department: None,
            contacted: None,
        })
    );
}

#[test]
fn none_in_capital_or_small_letters_gives_no_contact() {
    assert_eq!(parse_llm_reponse("NONE", "jane@x.com"), None);
    assert_eq!(parse_llm_reponse("none", "jane@x.com"), None);
    assert_eq!(parse_llm_reponse("I found none.", "jane@x.com"), None);
    assert_eq!(parse_llm_reponse("<name>Jane</name> NONE", "jane@x.com"), None);
    assert_eq!(parse_llm_reponse("nonetheless <name>Jane</name>", "jane@x.com"), None);
    assert!(mentions_none("xxNONExx"));
    assert!(mentions_none("xxnonexx"));
    assert!(!mentions_none("non e"));
    assert!(!mentions_none(""));
    assert!(!mentions_none("nοne"));
}

#[test]
fn none_in_mixed_case_does_not_decline() {
    assert!(!mentions_none("None"));
    assert!(!mentions_none("xxNoNexx"));
    assert!(!mentions_none("nONE"));
    assert_eq!(
        parse_llm_reponse("None", "jane@x.com"),
        Some(Contact::new("jane@x.com".to_string()))
    );
    let got = parse_llm_reponse("None other than <name>Jane</name>", "jane@x.com").expect("a contact");
    assert_eq!(got.name, Some("Jane".to_string()));
}

#[test]
fn reply_without_tags_gives_the_address_alone() {
    assert_eq!(
        parse_llm_reponse("hello", "jane@x.com"),
        Some(Contact::new("jane@x.com".to_string()))
    );
    assert_eq!(parse_llm_reponse("", "jane@x.com"), Some(Contact::new("jane@x.com".to_string())));
}

#[test]
fn tags_are_read_one_by_one_and_trimmed() {
    let got = parse_llm_reponse("x <title>  Of Counsel \t</title> y", "a@b.com").expect("a contact");
    assert_eq!(got.name, None);
    assert_eq!(got.title, Some("Of Counsel".to_string()));
    let got = parse_llm_reponse("<name>A</name><name>B</name>", "a@b.com").expect("a contact");
    assert_eq!(got.name, Some("A".to_string()));
    assert_eq!(got.title, None);
    let got = parse_llm_reponse("<name></name><title>T</title>", "a@b.com").expect("a contact");
    assert_eq!(got.name, None);
    let got = parse_llm_reponse("<name>Jane\nDoe</name>", "a@b.com").expect("a contact");
    assert_eq!(got.name, None);
    let got = parse_llm_reponse("<Name>Jane</Name>", "a@b.com").expect("a contact");
    assert_eq!(got.name, None);
}

#[test]
fn contact_from_captures_trims_and_declines() {
    assert_eq!(contact_from_captures("a@b.com", true, Some("n".to_string()), None), None);
    let got = contact_from_captures("a@b.com", false, Some(" n ".to_string()), Some("\tt\n".to_string()))
        .expect("a contact");
    assert_eq!(got.email, "a@b.com");
    assert_eq!(got.name, Some("n".to_string()));
    assert_eq!(got.title, Some("t".to_string()));
    assert_eq!(got.department, None);
    assert_eq!(got.contacted, None);
}
