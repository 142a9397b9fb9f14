use contact_crawler::company::Company;
use contact_crawler::contact::Contact;
use contact_crawler::crawl::{Action, Crawl, CrawlError, Event, Phase, CONTEXT_BUDGET};
use contact_crawler::dom::{parse_document, Page};

fn page(html: &str) -> Option<Page> {
    Some(parse_document(html).expect("a page"))
}

fn fetch(action: Result<Action, CrawlError>) -> String {
    match action {
        Ok(Action::Fetch(url)) => url,
        other => panic!("expected a fetch, got {:?}", other),
    }
}

fn asked_about(action: Result<Action, CrawlError>) -> String {
    match action {
        Ok(Action::Extract(job)) => job.email,
        other => panic!("expected a question, got {:?}", other),
    }
}

#[test]
fn single_team_page_yields_one_contact() {
    let (mut crawl, first) = Crawl::start("https://acme.com/");
    assert_eq!(first, Action::Fetch("https://acme.com/".to_string()));
    assert_eq!(crawl.phase(), Phase::Seeding);
    let next = crawl.step(Event::Page(page("<html><body><a href=\"/team\">Our team</a></body></html>")));
    assert_eq!(next, Ok(Action::Fetch("https://acme.com/team".to_string())));
    assert_eq!(crawl.phase(), Phase::Fetching);
    let next = crawl.step(Event::Page(page(
        "<html><body><div>Jane Doe, Partner <a href=\"mailto:jane@acme.com\">write</a></div></body></html>",
    )));
    let job = match next {
        Ok(Action::Extract(job)) => job,
        other => panic!("expected a question, got {:?}", other),
    };
    assert_eq!(job.email, "jane@acme.com");
    assert_eq!(job.messages.len(), 2);
    assert!(job.messages[1].content.contains("jane@acme.com"));
    assert!(job.messages[1].content.contains("Jane Doe, Partner"));
    assert_eq!(crawl.phase(), Phase::Extracting);
    let next = crawl.step(Event::Reply(Some("<name>Jane Doe</name><title>Partner</title>".to_string())));
    assert_eq!(next, Ok(Action::Done));
    assert!(crawl.is_done());
    let expected = Contact {
        email: "jane@acme.com".to_string(),
        name: Some("Jane Doe".to_string()),
        title: Some("Partner".to_string()),
        department: None,
        contacted: None,
    };
    assert_eq!(crawl.contacts(), &vec![expected.clone()]);
    let mut company = Company::new("1".to_string(), "Acme".to_string());
    company.website = Some("https://acme.com/".to_string());
    let company = company.with_personnel(crawl.into_contacts());
    assert_eq!(company.personnel, Some(vec![expected]));
    assert!(!company.needs_crawl());
}

#[test]
fn an_address_is_put_to_the_model_once() {
    let (mut crawl, _) = Crawl::start("https://acme.com");
    let next = crawl.step(Event::Page(page("<a href=\"/team\">t</a><a href=\"/staff\">s</a>")));
    assert_eq!(fetch(next), "https://acme.com/team");
    let next = crawl.step(Event::Page(page(
        "<a href=\"mailto:jane@acme.com\">a</a><p><a href=\"mailto:jane@acme.com\">b</a></p>\
         <a href=\"mailto:bob@acme.com\">c</a><a href=\"mailto:jane@acme.com?x\">d</a>",
    )));
    assert_eq!(asked_about(next), "jane@acme.com");
    let next = crawl.step(Event::Reply(Some("NONE".to_string())));
    assert_eq!(asked_about(next), "bob@acme.com");
    let next = crawl.step(Event::Reply(None));
    assert_eq!(fetch(next), "https://acme.com/staff");
    let next = crawl.step(Event::Page(page(
        "<a href=\"mailto:bob@acme.com\">b</a><a href=\"mailto:eve@acme.com\">e</a><a href=\"mailto:jane@acme.com\">j</a>",
    )));
    assert_eq!(asked_about(next), "eve@acme.com");
    let next = crawl.step(Event::Reply(Some("<name>Eve</name>".to_string())));
    assert_eq!(next, Ok(Action::Done));
    assert_eq!(
        crawl.asked(),
        &vec!["jane@acme.com".to_string(), "bob@acme.com".to_string(), "eve@acme.com".to_string()]
    );
    let contacts = crawl.into_contacts();
    assert_eq!(contacts.len(), 1);
    assert_eq!(contacts[0].email, "eve@acme.com");
    assert_eq!(contacts[0].name, Some("Eve".to_string()));
    assert_eq!(contacts[0].title, None);
}

#[test]
fn an_address_is_fetched_once_and_in_order_of_discovery() {
    let (mut crawl, _) = Crawl::start("https://acme.com/");
    let next = crawl.step(Event::Page(page(
        "<a href=\"/team\">t</a><a href=\"/people\">p</a><a href=\"/team\">again</a>",
    )));
    assert_eq!(fetch(next), "https://acme.com/team");
    let next = crawl.step(Event::Page(page(
        "<a href=\"/team\">self</a><a href=\"/team/jane\">j</a><a href=\"/people\">p</a>",
    )));
    assert_eq!(fetch(next), "https://acme.com/people");
    let next = crawl.step(Event::Page(page("<a href=\"/team\">t</a><a href=\"/team/jane\">j</a><a href=\"/staff\">s</a>")));
    assert_eq!(fetch(next), "https://acme.com/team/jane");
    let next = crawl.step(Event::Page(page("<a href=\"https://acme.com/people\">p</a>")));
    assert_eq!(fetch(next), "https://acme.com/staff");
    let next = crawl.step(Event::Page(page("")));
    assert_eq!(next, Ok(Action::Done));
    assert_eq!(
        crawl.visited(),
        &vec![
            "https://acme.com/".to_string(),
            "https://acme.com/team".to_string(),
            "https://acme.com/people".to_string(),
            "https://acme.com/team/jane".to_string(),
            "https://acme.com/staff".to_string(),
        ]
    );
}

#[test]
fn addresses_of_other_sites_are_not_fetched() {
    let (mut crawl, _) = Crawl::start("https://acme.com/");
    let next = crawl.step(Event::Page(page(
        "<a href=\"https://other.com/attorneys\">o</a><a href=\"team\">bare</a><a href=\"/team\">t</a>",
    )));
    assert_eq!(fetch(next), "https://acme.com/team");
    let next = crawl.step(Event::Page(page("<a href=\"http://acme.com/staff\">plain</a>")));
    assert_eq!(next, Ok(Action::Done));
    assert_eq!(
        crawl.visited(),
        &vec!["https://acme.com/".to_string(), "https://acme.com/team".to_string()]
    );
}

#[test]
fn a_page_that_cannot_be_had_is_passed_over() {
    let (mut crawl, _) = Crawl::start("https://acme.com/");
    let next = crawl.step(Event::Page(page("<a href=\"/team\">t</a><a href=\"/staff\">s</a>")));
    assert_eq!(fetch(next), "https://acme.com/team");
    let next = crawl.step(Event::Page(None));
    assert_eq!(fetch(next), "https://acme.com/staff");
    let next = crawl.step(Event::Page(None));
    assert_eq!(next, Ok(Action::Done));
    assert_eq!(crawl.contacts().len(), 0);
}

#[test]
fn a_homepage_that_cannot_be_had_ends_the_crawl() {
    let (mut crawl, _) = Crawl::start("https://acme.com/");
    assert_eq!(crawl.step(Event::Page(None)), Ok(Action::Done));
    assert!(crawl.is_done());
    assert_eq!(crawl.visited(), &vec!["https://acme.com/".to_string()]);
}

#[test]
fn a_report_that_answers_nothing_is_refused() {
    let (mut crawl, _) = Crawl::start("https://acme.com/");
    assert_eq!(crawl.step(Event::Reply(None)), Err(CrawlError::UnexpectedEvent));
    assert_eq!(crawl.phase(), Phase::Seeding);
    let next = crawl.step(Event::Page(page("<a href=\"/team\">t</a>")));
    assert_eq!(fetch(next), "https://acme.com/team");
    assert_eq!(crawl.step(Event::Reply(Some("x".to_string()))), Err(CrawlError::UnexpectedEvent));
    let next = crawl.step(Event::Page(page("<a href=\"mailto:a@b.com\">a</a>")));
    assert_eq!(asked_about(next), "a@b.com");
    assert_eq!(crawl.step(Event::Page(None)), Err(CrawlError::UnexpectedEvent));
    assert_eq!(crawl.phase(), Phase::Extracting);
    assert_eq!(crawl.step(Event::Reply(None)), Ok(Action::Done));
    assert_eq!(crawl.step(Event::Reply(None)), Err(CrawlError::UnexpectedEvent));
    assert_eq!(crawl.step(Event::Page(None)), Err(CrawlError::UnexpectedEvent));
    assert!(crawl.is_done());
}

#[test]
fn context_of_a_question_is_a_thousand_characters_at_most() {
    assert_eq!(CONTEXT_BUDGET, 1000);
    let mut html = String::from("<div>");
    for i in 0..200 {
        html.push_str(&format!("<p>person number {}</p>", i));
    }
    html.push_str("<a href=\"mailto:a@b.com\">a</a></div>");
    let (mut crawl, _) = Crawl::start("https://acme.com/");
    let next = crawl.step(Event::Page(page("<a href=\"/team\">t</a>")));
    assert_eq!(fetch(next), "https://acme.com/team");
    let job = match crawl.step(Event::Page(page(&html))) {
        Ok(Action::Extract(job)) => job,
        other => panic!("expected a question, got {:?}", other),
    };
    let head = "<|user|>Extract the contact information for this email: a@b.com from this snippet: ";
    let question = &job.messages[1].content;
    assert!(question.starts_with(head));
    assert_eq!(question.chars().count(), head.chars().count() + 1000 + "</s>".len());
}

#[test]
fn the_homepage_is_not_fetched_again() {
    let (mut crawl, first) = Crawl::start("https://acme.com/team");
    assert_eq!(first, Action::Fetch("https://acme.com/team".to_string()));
    let next = crawl.step(Event::Page(page(
        "<a href=\"https://acme.com/team\">us</a><a href=\"https://acme.com/team/jane\">j</a>",
    )));
    assert_eq!(fetch(next), "https://acme.com/team/jane");
    let next = crawl.step(Event::Page(page("<a href=\"https://acme.com/team\">back</a>")));
    assert_eq!(next, Ok(Action::Done));
    assert_eq!(
        crawl.visited(),
        &vec!["https://acme.com/team".to_string(), "https://acme.com/team/jane".to_string()]
    );
}

#[test]
fn contacts_have_addresses_that_differ() {
    let (mut crawl, _) = Crawl::start("https://acme.com/");
    let next = crawl.step(Event::Page(page("<a href=\"/team\">t</a><a href=\"/staff\">s</a>")));
    assert_eq!(fetch(next), "https://acme.com/team");
    let next = crawl.step(Event::Page(page(
        "<a href=\"mailto:jane@acme.com\">a</a><a href=\"mailto:bob@acme.com\">b</a>",
    )));
    assert_eq!(asked_about(next), "jane@acme.com");
    let next = crawl.step(Event::Reply(Some("<name>Jane</name>".to_string())));
    assert_eq!(asked_about(next), "bob@acme.com");
    let next = crawl.step(Event::Reply(Some("<name>Bob</name>".to_string())));
    assert_eq!(fetch(next), "https://acme.com/staff");
    let next = crawl.step(Event::Page(page(
        "<a href=\"mailto:jane@acme.com\">a</a><a href=\"mailto:bob@acme.com\">b</a>",
    )));
    assert_eq!(next, Ok(Action::Done));
    let emails: Vec<String> = crawl.contacts().iter().map(|c| c.email.clone()).collect();
    assert_eq!(emails, vec!["jane@acme.com".to_string(), "bob@acme.com".to_string()]);
}
