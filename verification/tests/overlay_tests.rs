use fresh::lsp_overlay::{
    diagnostic_to_overlay, line_char_to_byte, Diagnostic, DiagnosticPosition, DiagnosticSeverity,
    OverlayFace, Rgb, UnderlineStyle,
};
use fresh::styled::{color_to_css, render_styled_html, Color, HighlightSpan, Theme};

#[test]
fn test_line_char_to_byte() {
    let text = "hello\nworld\ntest";
    assert_eq!(line_char_to_byte(text, 0, 0), Some(0));
    assert_eq!(line_char_to_byte(text, 0, 5), Some(5));
    assert_eq!(line_char_to_byte(text, 1, 0), Some(6));
    assert_eq!(line_char_to_byte(text, 1, 5), Some(11));
    assert_eq!(line_char_to_byte(text, 2, 0), Some(12));
    assert_eq!(line_char_to_byte(text, 10, 0), None);
}

fn diagnostic(
    start: (usize, usize),
    end: (usize, usize),
    severity: Option<DiagnosticSeverity>,
    message: &str,
) -> Diagnostic {
    Diagnostic {
        start: DiagnosticPosition { line: start.0, character: start.1 },
        end: DiagnosticPosition { line: end.0, character: end.1 },
        severity,
        message: message.to_string(),
    }
}

#[test]
fn test_diagnostic_to_overlay_error() {
    let text = "hello world";
    let diag = diagnostic((0, 0), (0, 5), Some(DiagnosticSeverity::Error), "Test error");
    let (range, face, priority) = diagnostic_to_overlay(&diag, text).unwrap();
    assert_eq!(range, (0, 5));
    assert_eq!(priority, 100);
    match face {
        OverlayFace::Underline { color, style } => {
            assert_eq!(color, Rgb { r: 255, g: 0, b: 0 });
            assert_eq!(style, UnderlineStyle::Wavy);
        }
    }
}

#[test]
fn test_diagnostic_to_overlay_warning() {
    let text = "hello world";
    let diag = diagnostic((0, 6), (0, 11), Some(DiagnosticSeverity::Warning), "Test warning");
    let (range, face, priority) = diagnostic_to_overlay(&diag, text).unwrap();
    assert_eq!(range, (6, 11));
    assert_eq!(priority, 50);
    match face {
        OverlayFace::Underline { color, style } => {
            assert_eq!(color, Rgb { r: 255, g: 255, b: 0 });
            assert_eq!(style, UnderlineStyle::Wavy);
        }
    }
}

#[test]
fn test_diagnostic_to_overlay_multiline() {
    let text = "line1\nline2\nline3";
    let diag = diagnostic((0, 3), (1, 2), Some(DiagnosticSeverity::Error), "Multi-line error");
    let (range, _, _) = diagnostic_to_overlay(&diag, text).unwrap();
    assert_eq!(range.0, 3);
    assert_eq!(range.1, 8);
}

#[test]
fn test_diagnostic_out_of_bounds_is_none() {
    let diag = diagnostic((5, 0), (5, 1), Some(DiagnosticSeverity::Hint), "gone");
    assert!(diagnostic_to_overlay(&diag, "one line").is_none());
}

#[test]
fn test_color_to_css() {
    assert_eq!(color_to_css(Color::Rgb(255, 128, 0), "#fff"), "#ff8000");
    assert_eq!(color_to_css(Color::Black, "#fff"), "#000000");
    assert_eq!(color_to_css(Color::Reset, "#default"), "#default");
}

fn plain_theme() -> Theme {
    Theme { editor_bg: Color::Rgb(30, 30, 30), editor_fg: Color::Rgb(212, 212, 212) }
}

#[test]
fn test_render_html_simple() {
    let html = render_styled_html("Hello, World!", &Vec::new(), &plain_theme());
    assert!(html.contains("Hello, World!"));
    assert!(html.starts_with("<pre style=\""));
    assert!(html.ends_with("</pre>"));
}

#[test]
fn test_render_html_escapes_special_chars() {
    let html = render_styled_html("<script>&test</script>", &Vec::new(), &plain_theme());
    assert!(html.contains("&lt;script&gt;"));
    assert!(html.contains("&amp;test"));
    assert!(!html.contains("<script>"));
}

#[test]
fn test_render_html_with_highlights() {
    let spans = vec![HighlightSpan { start: 0, end: 2, color: Color::Blue }];
    let html = render_styled_html("fn main()", &spans, &plain_theme());
    assert!(html.contains("<span style=\"color:#2472c8;\">fn</span>"));
    assert!(html.contains("main()"));
}

#[test]
fn test_render_html_later_span_wins() {
    let spans = vec![
        HighlightSpan { start: 0, end: 4, color: Color::Red },
        HighlightSpan { start: 0, end: 4, color: Color::Green },
    ];
    let html = render_styled_html("text", &spans, &plain_theme());
    assert!(html.contains("#0dbc79"));
    assert!(!html.contains("#cd3131"));
}
