use oasis_ui::color::Color;
use oasis_ui::draw::DrawOp;
use oasis_ui::layout::HAlign;
use oasis_ui::rich_text::{RichText, Span, TextBlock};

#[test]
fn new_empty() {
    let rt = RichText::new();
    assert_eq!(rt.line_count(), 0);
}

#[test]
fn add_plain_line() {
    let mut rt = RichText::new();
    rt.add_plain("Hello");
    assert_eq!(rt.line_count(), 1);
    assert_eq!(rt.lines[0][0].text, "Hello");
    assert!(!rt.lines[0][0].bold);
}

#[test]
fn add_styled_line() {
    let mut rt = RichText::new();
    rt.add_line(vec![
        Span::plain("Hello "),
        Span::bold("world"),
        Span::colored("!", Color::rgb(255, 0, 0)),
    ]);
    assert_eq!(rt.line_count(), 1);
    assert_eq!(rt.lines[0].len(), 3);
    assert!(rt.lines[0][1].bold);
    assert_eq!(rt.lines[0][2].color, Some(Color::rgb(255, 0, 0)));
}

#[test]
fn span_constructors() {
    let p = Span::plain("a");
    assert!(!p.bold);
    assert!(p.color.is_none());

    let b = Span::bold("b");
    assert!(b.bold);

    let c = Span::colored("c", Color::white());
    assert_eq!(c.color, Some(Color::white()));
}

#[test]
fn text_block_defaults_and_height() {
    let mut tb = TextBlock::new("one two three");
    assert_eq!(tb.text, "one two three");
    assert_eq!(tb.font_size, 0);
    assert!(tb.color.is_none() && tb.max_lines.is_none());
    assert_eq!(tb.align, HAlign::Left);
    assert_eq!(tb.effective_font_size(8), 8);
    tb.font_size = 12;
    assert_eq!(tb.effective_font_size(8), 12);
    assert_eq!(tb.height_for(5, 8), 40);
    tb.max_lines = Some(3);
    assert_eq!(tb.height_for(5, 8), 24);
    tb.line_height = 10;
    assert_eq!(tb.height_for(2, 8), 20);
}

#[test]
fn text_block_measure_wraps_greedily() {
    let tb = TextBlock::new("hello world foo");
    // "hello" and "world" are 40 wide, "foo" 24, a space 8.
    let words = vec![vec![40, 40, 24]];
    assert_eq!(tb.measure(&words, 8, 100, 10), (88, 20));
    assert_eq!(tb.measure(&words, 8, 200, 10), (120, 10));
}

#[test]
fn text_block_measure_counts_empty_paragraphs_and_long_words() {
    let tb = TextBlock::new("a\n\nb");
    assert_eq!(tb.measure(&vec![vec![8], vec![], vec![8]], 8, 100, 10), (8, 30));
    let long = TextBlock::new("abcdefghijklmnopqrstuvwxy");
    assert_eq!(long.measure(&vec![vec![200]], 8, 100, 10), (200, 10));
}

#[test]
fn text_block_measure_respects_line_limit_and_line_height() {
    let mut tb = TextBlock::new("one two three");
    tb.max_lines = Some(1);
    tb.line_height = 14;
    assert_eq!(tb.measure(&vec![vec![24, 24, 40]], 8, 30, 10), (40, 14));
}

#[test]
fn rich_text_draw_ops_places_spans_and_doubles_bold() {
    let mut rt = RichText::new();
    rt.add_line(vec![Span::plain("ab"), Span::bold("cd")]);
    rt.add_plain("e");
    let theme = oasis_ui::theme::Theme::dark();
    let fs = theme.font_size_md;
    let c = theme.text_primary;
    let widths = vec![vec![10, 12], vec![5]];
    let ops = rt.draw(&theme, 0, 0, 10, &widths);
    let expected = vec![
        DrawOp::Text { text: "ab".into(), x: 0, y: 0, font_size: fs, color: c },
        DrawOp::Text { text: "cd".into(), x: 10, y: 0, font_size: fs, color: c },
        DrawOp::Text { text: "cd".into(), x: 11, y: 0, font_size: fs, color: c },
        DrawOp::Text { text: "e".into(), x: 0, y: 12, font_size: fs, color: c },
    ];
    assert_eq!(ops, expected);
    assert_eq!(rt.measure(&widths, 10), (22, 22));
    assert_eq!(RichText::new().measure(&Vec::new(), 10), (0, 0));
}

#[test]
fn text_block_draw_ops_wraps_with_theme_defaults() {
    let tb = TextBlock::new("hello world");
    let theme = oasis_ui::theme::Theme::dark();
    assert_eq!(
        tb.draw(&theme, 3, 4, 120, 10),
        vec![DrawOp::TextWrapped {
            text: "hello world".into(),
            x: 3,
            y: 4,
            font_size: theme.font_size_md,
            color: theme.text_primary,
            max_w: 120,
            line_h: 10,
        }]
    );
    let mut styled = TextBlock::new("x");
    styled.font_size = 20;
    styled.line_height = 24;
    styled.color = Some(Color::rgb(1, 2, 3));
    assert_eq!(
        styled.draw(&theme, 0, 0, 50, 10),
        vec![DrawOp::TextWrapped {
            text: "x".into(),
            x: 0,
            y: 0,
            font_size: 20,
            color: Color::rgb(1, 2, 3),
            max_w: 50,
            line_h: 24,
        }]
    );
}

#[test]
fn text_block_paragraph_words_split_lines_then_white_space() {
    let words = |t: &str| TextBlock::new(t).paragraph_words();
    assert_eq!(words("a\n\nb c"), vec![vec!["a".to_string()], vec![], vec!["b".to_string(), "c".to_string()]]);
    assert_eq!(words("  hello\t world \n"), vec![vec!["hello".to_string(), "world".to_string()], vec![]]);
    assert_eq!(words(""), vec![Vec::<String>::new()]);
    assert_eq!(words("x\u{3000}y"), vec![vec!["x".to_string(), "y".to_string()]]);
}

#[test]
fn text_block_measure_counts_every_line() {
    let tb = TextBlock::new("a\nb\nc");
    let widths: Vec<Vec<u32>> = tb.paragraph_words().iter().map(|p| p.iter().map(|_| 8).collect()).collect();
    assert_eq!(tb.measure(&widths, 8, 100, 10), (8, 30));
}
