use hecto::document::Document;
use hecto::editor::Position;

fn texts(doc: &Document) -> Vec<String> {
    let mut out = Vec::new();
    for i in 0..doc.len() {
        out.push(doc.row(i).unwrap().as_str().to_string());
    }
    out
}

#[test]
fn lines_become_rows() {
    let doc = Document::from_text("abc\nde\nfghij");
    assert_eq!(doc.len(), 3);
    assert_eq!(texts(&doc), vec!["abc", "de", "fghij"]);
}

#[test]
fn line_endings_follow_str_lines() {
    let cases = [
        "",
        "\n",
        "a\n",
        "a\n\n",
        "a\r\nb\r\n",
        "a\rb\n",
        "a\r",
        "\r\n\r\n",
        "x\r\r\ny",
        "\u{1F1F7}\u{1F1FA}\nz",
    ];
    for text in cases {
        let doc = Document::from_text(text);
        let expected: Vec<String> = text.lines().map(String::from).collect();
        assert_eq!(texts(&doc), expected, "text {:?}", text);
    }
}

#[test]
fn empty_document_has_no_rows() {
    let doc = Document::default();
    assert_eq!(doc.len(), 0);
    assert!(doc.row(0).is_none());
    assert!(doc.row(5).is_none());
}

#[test]
fn row_past_the_end_is_none() {
    let doc = Document::from_text("a\nb");
    assert!(doc.row(1).is_some());
    assert!(doc.row(2).is_none());
}

#[test]
fn insert_goes_to_the_addressed_row() {
    let mut doc = Document::from_text("abc\nde");
    doc.insert(&Position { x: 1, y: 1 }, 'q');
    assert_eq!(texts(&doc), vec!["abc", "dqe"]);
}

#[test]
fn insert_of_newline_is_ignored() {
    let mut doc = Document::from_text("abc");
    doc.insert(&Position { x: 1, y: 0 }, '\n');
    assert_eq!(texts(&doc), vec!["abc"]);
}

#[test]
fn insert_on_missing_row_is_ignored() {
    let mut doc = Document::from_text("abc");
    doc.insert(&Position { x: 0, y: 3 }, 'x');
    assert_eq!(texts(&doc), vec!["abc"]);
    let mut empty = Document::default();
    empty.insert(&Position::default(), 'x');
    assert_eq!(empty.len(), 0);
}
