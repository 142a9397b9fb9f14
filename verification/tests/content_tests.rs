use contact_crawler::content::{extract_text_content, join_text_below, page_content};
use contact_crawler::dom::{parse_document, parse_selection, DomNode, NodeKind, Page};

#[test]
fn body_text_is_tidied_and_set_one_run_to_a_line() {
    assert_eq!(
        extract_text_content(
            "<html><head><title>T</title></head><body><p> Hello\tWorld </p><div>x<a href=\"#\">y</a></div></body></html>"
        ),
        Some("HelloWorld\nx\ny".to_string())
    );
    assert_eq!(extract_text_content("<p> a </p> <p>\t</p>"), Some("a\n\n".to_string()));
    assert_eq!(extract_text_content(""), Some(String::new()));
    assert_eq!(extract_text_content("only"), Some("only".to_string()));
}

#[test]
fn text_below_a_node_keeps_document_order() {
    let page = parse_document("<div><p>a</p><p><b> b </b>c</p></div><span>d</span>").expect("a page");
    assert_eq!(join_text_below(&page, 4, ", ", false), "a,  b , c");
    assert_eq!(join_text_below(&page, 4, ", ", true), "a, b, c");
    assert_eq!(join_text_below(&page, 3, "", false), "a b cd");
    assert_eq!(join_text_below(&page, 2, "-", false), "");
    assert_eq!(join_text_below(&page, page.len() - 1, "-", false), "");
}

#[test]
fn without_a_body_the_outermost_element_is_read() {
    let root = DomNode { depth: 0, kind: NodeKind::Other };
    let element = |depth: usize, name: &str| DomNode {
        depth,
        kind: NodeKind::Element { name: name.to_string(), href: None },
    };
    let text = |depth: usize, t: &str| DomNode { depth, kind: NodeKind::Text(t.to_string()) };
    let nodes = vec![
        root.clone(),
        text(1, "stray"),
        element(1, "svg"),
        text(2, " a\t"),
        element(2, "g"),
        text(3, "b"),
        element(1, "p"),
        text(2, "c"),
    ];
    let marks = vec![None; 8];
    let page = Page::assemble(nodes, Some(marks.clone()), Some(marks)).expect("a page");
    assert_eq!(page_content(&page, &Vec::new()), " a\t b");
    assert_eq!(page_content(&page, &vec![6, 2]), "c");
    let bare = Page::assemble(vec![root], Some(vec![None]), Some(vec![None])).expect("a page");
    assert_eq!(page_content(&bare, &Vec::new()), "");
}

#[test]
fn selection_comes_with_the_page() {
    let (page, bodies) = parse_selection("<p>x</p>", "body").expect("a page");
    assert_eq!(bodies, vec![3]);
    assert_eq!(page.len(), 6);
    let (_, all) = parse_selection("<p>x</p>", "*").expect("a page");
    assert_eq!(all, vec![1, 2, 3, 4]);
    assert_eq!(parse_selection("<p>x</p>", "p >"), None);
}
