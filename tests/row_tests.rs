use hecto::row::{Row, insert_before, join_range};

#[test]
fn flag_emoji_counts_as_one() {
    let row = Row::from_line("\u{1F1F7}\u{1F1FA}");
    assert_eq!(row.len(), 1);
}

#[test]
fn combining_marks_join_their_base() {
    let row = Row::from_line("e\u{301}a\u{310}o\u{308}\u{332}");
    assert_eq!(row.len(), 3);
    let row = Row::from_line("h\u{e9}llo");
    assert_eq!(row.len(), 5);
}

#[test]
fn empty_row_has_no_graphemes() {
    let row = Row::from_line("");
    assert_eq!(row.len(), 0);
    assert_eq!(row.render(0, 10), "");
}

#[test]
fn render_gives_the_requested_clusters() {
    let row = Row::from_line("abcdef");
    assert_eq!(row.render(1, 4), "bcd");
    assert_eq!(row.render(0, 6), "abcdef");
    assert_eq!(row.render(4, 100), "ef");
}

#[test]
fn render_clamps_out_of_range_input() {
    let row = Row::from_line("abc");
    assert_eq!(row.render(10, 20), "");
    assert_eq!(row.render(2, 1), "");
    assert_eq!(row.render(usize::MAX, usize::MAX), "");
    assert_eq!(row.render(0, usize::MAX), "abc");
}

#[test]
fn render_counts_in_clusters() {
    let row = Row::from_line("a\u{1F1F7}\u{1F1FA}e\u{301}z");
    assert_eq!(row.render(1, 3), "\u{1F1F7}\u{1F1FA}e\u{301}");
    assert_eq!(Row::from_line(&row.render(1, 3)).len(), 2);
}

#[test]
fn insert_before_a_cluster() {
    let mut row = Row::from_line("abc");
    row.insert(0, 'x');
    assert_eq!(row.as_str(), "xabc");
    assert_eq!(row.len(), 4);
    row.insert(2, 'y');
    assert_eq!(row.as_str(), "xaybc");
}

#[test]
fn insert_at_length_appends() {
    let mut row = Row::from_line("ab");
    row.insert(2, 'z');
    assert_eq!(row.as_str(), "abz");
    assert_eq!(row.len(), 3);
}

#[test]
fn insert_past_the_end_changes_nothing() {
    let mut row = Row::from_line("ab");
    row.insert(5, 'z');
    assert_eq!(row.as_str(), "ab");
    assert_eq!(row.len(), 2);
}

#[test]
fn insert_keeps_clusters_whole() {
    let mut row = Row::from_line("e\u{301}o");
    row.insert(1, 'x');
    assert_eq!(row.as_str(), "e\u{301}xo");
    assert_eq!(row.len(), 3);
}

#[test]
fn insert_recounts_clusters() {
    let mut row = Row::from_line("ab");
    row.insert(1, '\u{301}');
    assert_eq!(row.as_str(), "a\u{301}b");
    assert_eq!(row.len(), 2);
}

fn parts(items: &[&str]) -> Vec<String> {
    items.iter().map(|s| s.to_string()).collect()
}

#[test]
fn join_range_picks_clusters_by_index() {
    let p = parts(&["a", "\u{1F1F7}\u{1F1FA}", "e\u{301}", "z"]);
    assert_eq!(join_range(&p, 1, 3), "\u{1F1F7}\u{1F1FA}e\u{301}");
    assert_eq!(join_range(&p, 0, 1), "a");
    assert_eq!(join_range(&p, 3, 9), "z");
    assert_eq!(join_range(&p, 3, 1), "");
    assert_eq!(join_range(&p, 7, 9), "");
    assert_eq!(join_range(&parts(&[]), 0, 4), "");
}

#[test]
fn insert_before_places_the_character() {
    let p = parts(&["a", "e\u{301}", "c"]);
    assert_eq!(insert_before(&p, 0, 'x'), "xae\u{301}c");
    assert_eq!(insert_before(&p, 2, 'x'), "ae\u{301}xc");
    assert_eq!(insert_before(&p, 3, 'x'), "ae\u{301}cx");
    assert_eq!(insert_before(&parts(&[]), 0, 'x'), "x");
}
