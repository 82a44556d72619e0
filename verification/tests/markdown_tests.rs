use goose_tui::markdown::{
    parse_inline_markdown, render_markdown, split_words, truncate_str, wrap_text, StyledSpan,
};
use goose_tui::theme::{Style, Theme};

fn texts(spans: &[StyledSpan]) -> Vec<String> {
    spans.iter().map(|s| s.content.clone()).collect()
}

fn plain() -> Style {
    Style::new().fg(Theme::TEXT_PRIMARY)
}

#[test]
fn truncate_keeps_short_strings() {
    assert_eq!(truncate_str("hello", 5), "hello");
    assert_eq!(truncate_str("hello", 10), "hello");
}

#[test]
fn truncate_cuts_with_ellipsis() {
    assert_eq!(truncate_str("hello world", 5), "hell…");
    assert_eq!(truncate_str("héllo", 3), "hé…");
}

#[test]
fn truncate_to_one_or_zero() {
    assert_eq!(truncate_str("hello", 1), "…");
    assert_eq!(truncate_str("hello", 0), "…");
    assert_eq!(truncate_str("", 0), "");
}

#[test]
fn words_split_on_unicode_whitespace() {
    assert_eq!(split_words("  a\tbb\u{3000}c \n"), vec!["a", "bb", "c"]);
    assert!(split_words("   ").is_empty());
}

#[test]
fn wrap_greedy() {
    assert_eq!(wrap_text("the quick brown fox", 10), vec!["the quick", "brown fox"]);
    assert_eq!(wrap_text("a b c", 3), vec!["a b", "c"]);
}

#[test]
fn wrap_long_word_gets_own_line() {
    assert_eq!(wrap_text("hi extraordinarily ok", 5), vec!["hi", "extraordinarily", "ok"]);
}

#[test]
fn wrap_zero_width_keeps_text() {
    assert_eq!(wrap_text("  a  b ", 0), vec!["  a  b "]);
}

#[test]
fn wrap_empty_text_gives_one_empty_line() {
    assert_eq!(wrap_text("   ", 8), vec![""]);
}

#[test]
fn wrap_counts_bytes() {
    // "é" takes two bytes, so "é é" is five bytes wide.
    assert_eq!(wrap_text("é é", 4), vec!["é", "é"]);
    assert_eq!(wrap_text("é é", 5), vec!["é é"]);
}

#[test]
fn wrap_joined_keeps_words() {
    let lines = wrap_text("one  two   three four", 7);
    assert_eq!(lines.join(" "), "one two three four");
}

#[test]
fn inline_plain_text_is_one_span() {
    let spans = parse_inline_markdown("hello world");
    assert_eq!(spans.len(), 1);
    assert_eq!(spans[0].content, "hello world");
    assert_eq!(spans[0].style, plain());
}

#[test]
fn inline_empty_is_one_raw_span() {
    let spans = parse_inline_markdown("");
    assert_eq!(spans.len(), 1);
    assert_eq!(spans[0].content, "");
    assert_eq!(spans[0].style, Style::new());
}

#[test]
fn inline_code_bold_italic() {
    let spans = parse_inline_markdown("a `c` **b** *i* _j_");
    assert_eq!(texts(&spans), vec!["a ", "c", " ", "b", " ", "i", " ", "j"]);
    assert_eq!(spans[1].style, Style::new().fg(Theme::CODE).bg(Theme::BG_ELEVATED));
    assert_eq!(spans[3].style, Style::new().fg(Theme::TEXT_PRIMARY).bold());
    assert_eq!(spans[5].style, Style::new().fg(Theme::TEXT_SECONDARY).italic());
    assert_eq!(spans[7].style, Style::new().fg(Theme::TEXT_SECONDARY).italic());
}

#[test]
fn inline_link_drops_target() {
    let spans = parse_inline_markdown("see [docs](http://x.y) now");
    assert_eq!(texts(&spans), vec!["see ", "docs", " now"]);
    assert_eq!(spans[1].style, Style::new().fg(Theme::INFO).underlined());
}

#[test]
fn inline_link_without_target() {
    let spans = parse_inline_markdown("[a] b");
    assert_eq!(texts(&spans), vec!["a", " b"]);
}

#[test]
fn inline_unclosed_runs_to_end() {
    let spans = parse_inline_markdown("x **bold");
    assert_eq!(texts(&spans), vec!["x ", "bold"]);
    let spans = parse_inline_markdown("`code");
    assert_eq!(texts(&spans), vec!["code"]);
}

#[test]
fn inline_lone_star_inside_bold() {
    let spans = parse_inline_markdown("**a*b**c");
    assert_eq!(texts(&spans), vec!["a*b", "c"]);
}

#[test]
fn markdown_headings() {
    let lines = render_markdown("# One\n## Two\n### Three", 80);
    assert_eq!(lines.len(), 3);
    assert_eq!(lines[0][0].content, "One");
    assert_eq!(lines[0][0].style, Style::new().fg(Theme::CRANBERRY).bold());
    assert_eq!(lines[1][0].style, Style::new().fg(Theme::GOLD).bold());
    assert_eq!(lines[2][0].style, Style::new().fg(Theme::TEXT_PRIMARY).bold());
}

#[test]
fn markdown_heading_truncated() {
    let lines = render_markdown("# abcdef", 4);
    assert_eq!(lines[0][0].content, "abc…");
}

#[test]
fn markdown_bullets_and_numbers() {
    let lines = render_markdown("- a\n* **b**\n12. c\n1234. d", 80);
    assert_eq!(texts(&lines[0]), vec!["  • ", "a"]);
    assert_eq!(texts(&lines[1]), vec!["  • ", "b"]);
    assert_eq!(texts(&lines[2]), vec!["  12. ", "c"]);
    assert_eq!(texts(&lines[3]), vec!["1234. d"]);
    assert_eq!(lines[0][0].style, Style::new().fg(Theme::TEAL));
}

#[test]
fn markdown_code_block() {
    let lines = render_markdown("```rust\nlet x = 1;\n```\nafter", 6);
    assert_eq!(lines.len(), 2);
    assert_eq!(texts(&lines[0]), vec!["│ ", "let…"]);
    assert_eq!(lines[0][1].style, Style::new().fg(Theme::TEXT_SECONDARY).bg(Theme::BG_ELEVATED));
    assert_eq!(texts(&lines[1]), vec!["after"]);
}

#[test]
fn markdown_unclosed_code_block_still_shown() {
    let lines = render_markdown("```\n# not a heading", 80);
    assert_eq!(lines.len(), 1);
    assert_eq!(texts(&lines[0]), vec!["│ ", "# not a heading"]);
}

#[test]
fn markdown_empty_line_and_paragraph_wrap() {
    let lines = render_markdown("one two three\r\n\nfour", 8);
    assert_eq!(lines.len(), 4);
    assert_eq!(texts(&lines[0]), vec!["one two"]);
    assert_eq!(texts(&lines[1]), vec!["three"]);
    assert!(lines[2].is_empty());
    assert_eq!(texts(&lines[3]), vec!["four"]);
}

#[test]
fn markdown_trailing_newline_adds_no_line() {
    assert_eq!(render_markdown("a\n", 10).len(), 1);
    assert_eq!(render_markdown("", 10).len(), 0);
}
