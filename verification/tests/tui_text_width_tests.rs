use waves::tui::text_width::{
    display_width, pad_to_width, truncate_to_width, wrap_to_width, Align,
};

#[test]
fn display_width_handles_chinese_and_mixed_text() {
    assert_eq!(display_width("淡水"), 4);
    assert_eq!(display_width("Raft 耐久 -8"), 12);
    assert_eq!(display_width("Water +0.4"), 10);
}

#[test]
fn truncate_and_pad_use_terminal_width() {
    assert_eq!(truncate_to_width("AI 判断海浪较大", 8), "AI 判断…");
    assert_eq!(display_width(&pad_to_width("淡水", 8, Align::Left)), 8);
    assert_eq!(display_width(&pad_to_width("HP", 8, Align::Right)), 8);
}

#[test]
fn wrap_supports_chinese_without_spaces() {
    let lines = wrap_to_width("AI判断海浪较大选择先观察", 8);
    assert!(lines.len() > 1);
    assert!(lines.iter().all(|line| display_width(line) <= 8));
}

#[test]
fn truncate_edge_widths() {
    assert_eq!(truncate_to_width("hello", 0), "");
    assert_eq!(truncate_to_width("hello", 1), "…");
    assert_eq!(truncate_to_width("hello", 5), "hello");
    assert_eq!(truncate_to_width("hello world", 6), "hello…");
}

#[test]
fn pad_places_spaces_by_alignment() {
    assert_eq!(pad_to_width("HP", 5, Align::Left), "HP   ");
    assert_eq!(pad_to_width("HP", 5, Align::Right), "   HP");
    assert_eq!(pad_to_width("淡水", 4, Align::Left), "淡水");
}

#[test]
fn wrap_keeps_words_whole_and_honours_newlines() {
    assert_eq!(wrap_to_width("hello world", 8), vec!["hello ", "world"]);
    assert_eq!(wrap_to_width("ab\ncd", 8), vec!["ab", "cd"]);
    assert_eq!(wrap_to_width("anything", 0), vec![""]);
    assert_eq!(wrap_to_width("", 8), vec![""]);
    assert_eq!(wrap_to_width("abcdefghij", 4), vec!["abcd", "efgh", "ij"]);
}

#[test]
fn wrap_keeps_every_character_but_line_breaks() {
    let text = "Raft 耐久 -8\nAI 判断海浪较大，选择先观察 10 分钟。";
    let lines = wrap_to_width(text, 7);
    assert_eq!(lines.concat(), text.replace('\n', ""));
}

#[test]
fn wrapped_lines_fit_unless_a_piece_is_wider() {
    let lines = wrap_to_width("a bb ccc dddd 水面 平静", 4);
    assert!(lines.iter().all(|line| display_width(line) <= 4));
    assert_eq!(wrap_to_width("ab abcdefgh", 4), vec!["ab ", "abcd", "efgh"]);
    assert_eq!(wrap_to_width("ab 水", 1), vec!["a", "b", " ", "水"]);
}

#[test]
fn truncation_keeps_clusters_that_fit_before_the_ellipsis() {
    assert_eq!(truncate_to_width("淡水充足", 6), "淡水…");
    assert_eq!(truncate_to_width("淡水充足", 5), "淡水…");
    assert_eq!(truncate_to_width("a淡水", 3), "a…");
}
