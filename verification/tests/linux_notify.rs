//! What a notification says, and the buttons drawn on it.
use acrylius::linux::notify::{escape_markup, Button, Notifier};

#[test]
fn a_file_name_cannot_bring_its_own_markup() {
    // Peer-chosen name shown to someone deciding whether to accept a file.
    assert_eq!(
        escape_markup("<b>invoice.pdf</b>"),
        "&lt;b&gt;invoice.pdf&lt;/b&gt;"
    );
    assert_eq!(
        escape_markup(r#"a<a href="http://x">click</a>"#),
        "a&lt;a href=\"http://x\"&gt;click&lt;/a&gt;"
    );
    // Ampersands must escape first, or escaping `<`/`>` would re-escape via the `&` it wrote.
    assert_eq!(escape_markup("Q&A <notes>"), "Q&amp;A &lt;notes&gt;");
}

#[test]
fn an_ordinary_name_is_left_alone() {
    assert_eq!(
        escape_markup("holiday photo (2).jpg"),
        "holiday photo (2).jpg"
    );
    assert_eq!(escape_markup("отчёт.pdf"), "отчёт.pdf");
}

#[test]
fn a_desktop_gets_the_buttons_and_markup_it_reports() {
    let full = Notifier::new(&vec!["actions".to_string(), "body-markup".to_string()]);
    let bare = Notifier::new(&vec!["body".to_string()]);
    let buttons = vec![Button { key: "accept", label: "Accept" }];
    assert!(full.has_buttons() && !bare.has_buttons());
    assert_eq!(full.actions(&buttons), vec!["accept".to_string(), "Accept".to_string()]);
    assert!(bare.actions(&buttons).is_empty());
    assert_eq!(full.body("Q&A.pdf"), "Q&amp;A.pdf");
    assert_eq!(bare.body("Q&A.pdf"), "Q&A.pdf");
}
