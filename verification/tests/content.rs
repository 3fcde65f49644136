use tasklist::markdown::{render, render_events, MarkdownEvent};
use tasklist::persistence::Content;

#[test]
fn item_content_without_any_markdown_should_be_transparently_rendered() {
    let content = Content::from("very normal text".to_string());

    assert_eq!(content.render(), "very normal text");
}

#[test]
fn can_render_code_blocks_in_item_content() {
    let content = Content::from("some `code` block".to_string());

    assert_eq!(content.render(), "some <code>code</code> block");
}

#[test]
fn other_markup_is_left_out() {
    assert_eq!(render("*very* **normal** text"), "very normal text");
    assert_eq!(render("# Title"), "Title");
    assert_eq!(render(""), "");
    assert_eq!(Content::from("`a` and `b`".to_string()).render(), "<code>a</code> and <code>b</code>");
}

#[test]
fn events_render_in_order() {
    let events = vec![
        MarkdownEvent::Other,
        MarkdownEvent::Text(String::from("some ")),
        MarkdownEvent::Code(String::from("code")),
        MarkdownEvent::Other,
        MarkdownEvent::Text(String::from(" block")),
        MarkdownEvent::Other,
    ];
    assert_eq!(render_events(&events), "some <code>code</code> block");
    assert_eq!(render_events(&Vec::new()), "");
    assert_eq!(render_events(&vec![MarkdownEvent::Code(String::new())]), "<code></code>");
}

#[test]
fn content_keeps_its_raw_text() {
    let content = Content::from("some `code` block".to_string());
    assert_eq!(content.as_str(), "some `code` block");
}
