use unicode_width::UnicodeWidthStr;
use vidio::layout::{width_of, Color, DisplayLine};
use vidio::markdown::{layout_events, parse_markdown_to_lines, Block, MdEvent};
use vidio::viewer::Viewer;
use vidio::table::{center_text, draw_border, pad_right, render_table};

fn text_of(l: &DisplayLine) -> String {
    l.spans.iter().map(|s| s.text.as_str()).collect()
}

fn cells(v: &[&str]) -> Vec<Vec<char>> {
    v.iter().map(|s| s.chars().collect()).collect()
}

#[test]
fn empty_input_gives_no_lines() {
    assert!(parse_markdown_to_lines("", 40).is_empty());
    assert!(layout_events(&vec![], 0).is_empty());
}

#[test]
fn rendering_is_deterministic() {
    let src = "# Title\n\nSome *text* with `code` and a [link](x).\n\n- one\n- two\n\n| a | b |\n|---|---|\n| 1 | 2 |\n";
    let a = parse_markdown_to_lines(src, 30);
    let b = parse_markdown_to_lines(src, 30);
    assert_eq!(a, b);
    assert!(!a.is_empty());
}

#[test]
fn headings_paragraphs_and_blank_separators() {
    let lines = parse_markdown_to_lines("# Title\n\nHello **world**", 40);
    assert_eq!(text_of(&lines[0]), "Title");
    let st = lines[0].spans[0].style;
    assert!(st.bold && st.underlined);
    assert_eq!(st.fg, Some(Color::Cyan));
    assert!(lines[1].spans.is_empty());
    assert_eq!(text_of(&lines[2]), "Hello world");
    assert!(lines[3].spans.is_empty());
    assert_eq!(lines.len(), 4);
}

#[test]
fn list_items_get_bullets_and_code_its_own_style() {
    let lines = parse_markdown_to_lines("- one\n- two", 40);
    assert_eq!(text_of(&lines[0]), "\u{2022} one");
    assert_eq!(text_of(&lines[1]), "\u{2022} two");
    let lines = parse_markdown_to_lines("say `x = 1` now", 40);
    assert_eq!(text_of(&lines[0]), "say");
    assert_eq!(text_of(&lines[1]), "x = 1");
    assert!(lines[1].spans[0].style.reversed);
    assert_eq!(lines[1].spans[0].style.fg, Some(Color::Yellow));
}

#[test]
fn words_wrap_at_the_width() {
    let lines = parse_markdown_to_lines("alpha beta gamma delta", 11);
    for l in &lines {
        assert!(UnicodeWidthStr::width(text_of(l).as_str()) <= 11);
    }
    assert_eq!(text_of(&lines[0]), "alpha beta");
    let zero = parse_markdown_to_lines("ab", 0);
    assert_eq!(text_of(&zero[0]), "a");
    assert_eq!(text_of(&zero[1]), "b");
}

#[test]
fn unterminated_styles_stop_applying() {
    let ev = vec![MdEvent::Start(Block::Strong), MdEvent::Text("bold".to_string())];
    let lines = layout_events(&ev, 20);
    assert_eq!(lines.len(), 1);
    assert_eq!(text_of(&lines[0]), "bold");
    assert!(lines[0].spans[0].style.bold);
}

#[test]
fn table_borders_and_alignment() {
    let lines = render_table(&cells(&["A", "Bb"]), &vec![cells(&["1", "22"]), cells(&["333"])], 80);
    let t: Vec<String> = lines.iter().map(text_of).collect();
    assert_eq!(t[0], "┌─────┬────┐");
    assert_eq!(t[1], "│  A  │ Bb │");
    assert_eq!(t[2], "├─────┼────┤");
    assert_eq!(t[3], "│ 1   │ 22 │");
    assert_eq!(t[4], "├─────┼────┤");
    assert_eq!(t[5], "│ 333 │    │");
    assert_eq!(t[6], "└─────┴────┘");
    assert_eq!(t.len(), 7);
    assert!(render_table(&vec![], &vec![], 10).is_empty());
}

#[test]
fn wide_tables_shrink_to_fit() {
    let header = cells(&["Name", "Description"]);
    let rows = vec![cells(&["alpha", "a rather long description of the thing"])];
    let lines = render_table(&header, &rows, 30);
    for l in &lines {
        assert!(UnicodeWidthStr::width(text_of(l).as_str()) <= 30, "{}", text_of(l));
    }
    // The widest column shrank first; the narrow one kept its natural width.
    assert_eq!(text_of(&lines[0]), "┌───────┬────────────────────┐");
}

#[test]
fn columns_never_go_below_their_floor() {
    let header = cells(&["abcdef", "ghijkl"]);
    let lines = render_table(&header, &vec![], 5);
    // Both columns stop at three columns: the table overflows instead.
    assert_eq!(text_of(&lines[0]), "┌─────┬─────┐");
}

#[test]
fn padding_helpers() {
    let s: Vec<char> = "ab".chars().collect();
    assert_eq!(center_text(&s, 5).iter().collect::<String>(), " ab  ");
    assert_eq!(pad_right(&s, 4).iter().collect::<String>(), "ab  ");
    assert_eq!(pad_right(&s, 1).iter().collect::<String>(), "ab");
    assert_eq!(draw_border('+', '+', '+', '-', &vec![1, 2]), "+---+----+");
    assert_eq!(width_of(&"日本".chars().collect()), 4);
    let mut v = Viewer::new("a &amp; b &lt;".to_string(), "t".to_string());
    v.ensure_layout(40, 10);
    assert_eq!(text_of(&v.wrapped_lines[0]), "a & b <");
}
