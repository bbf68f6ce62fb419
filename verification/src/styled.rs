//! Styled text for clipboard copy: terminal colors, their CSS form, and a
//! rendering of highlighted text as markup with inline styles.

use vstd::prelude::*;
use crate::script::{spec_hex_digit, push_hex_digit};

verus! {

/// A terminal color.
#[derive(Debug, Clone, Copy, PartialEq, Eq, Structural)]
pub enum Color {
    Reset,
    Black,
    Red,
    Green,
    Yellow,
    Blue,
    Magenta,
    Cyan,
    Gray,
    DarkGray,
    LightRed,
    LightGreen,
    LightYellow,
    LightBlue,
    LightMagenta,
    LightCyan,
    White,
    Rgb(u8, u8, u8),
    Indexed(u8),
}

/// A theme's colors, as far as styled copying reads them.
#[derive(Debug, Clone, Copy, PartialEq, Eq, Structural)]
pub struct Theme {
    pub editor_bg: Color,
    pub editor_fg: Color,
}

/// A highlighted span: a character range of the text and its color.
#[derive(Debug, Clone, Copy, PartialEq, Eq, Structural)]
pub struct HighlightSpan {
    pub start: usize,
    pub end: usize,
    pub color: Color,
}

/// Two lowercase hexadecimal digits.
pub open spec fn spec_hex2(n: int) -> Seq<char> {
    seq![spec_hex_digit(n / 16), spec_hex_digit(n % 16)]
}

/// The CSS hex form of a color: named colors map to fixed hex values, an RGB
/// triple renders as lowercase hex, and reset or indexed colors fall back to
/// the given default.
pub open spec fn spec_color_css(color: Color, default: Seq<char>) -> Seq<char> {
    match color {
        Color::Rgb(r, g, b) => seq!['#'] + spec_hex2(r as int) + spec_hex2(g as int) + spec_hex2(
            b as int,
        ),
        Color::Black => "#000000"@,
        Color::Red => "#cd3131"@,
        Color::Green => "#0dbc79"@,
        Color::Yellow => "#e5e510"@,
        Color::Blue => "#2472c8"@,
        Color::Magenta => "#bc3fbc"@,
        Color::Cyan => "#11a8cd"@,
        Color::Gray => "#808080"@,
        Color::DarkGray => "#505050"@,
        Color::LightRed => "#f14c4c"@,
        Color::LightGreen => "#23d18b"@,
        Color::LightYellow => "#f5f543"@,
        Color::LightBlue => "#3b8eea"@,
        Color::LightMagenta => "#d670d6"@,
        Color::LightCyan => "#29b8db"@,
        Color::White => "#e5e5e5"@,
        Color::Reset => default,
        Color::Indexed(_) => default,
    }
}

/// Converts a color to its CSS hex string, with a default for colors that
/// have no fixed value.
pub fn color_to_css(color: Color, default: &str) -> (r: String)
    ensures
        r@ == spec_color_css(color, default@),
{
    match color {
        Color::Rgb(red, green, blue) => {
            let mut out = "#".to_owned();
            proof {
                reveal_strlit("#");
            }
            push_hex_digit(&mut out, (red as u32) / 16);
            push_hex_digit(&mut out, (red as u32) % 16);
            push_hex_digit(&mut out, (green as u32) / 16);
            push_hex_digit(&mut out, (green as u32) % 16);
            push_hex_digit(&mut out, (blue as u32) / 16);
            push_hex_digit(&mut out, (blue as u32) % 16);
            proof {
                assert(out@ =~= spec_color_css(color, default@));
            }
            out
        },
        Color::Black => "#000000".to_owned(),
        Color::Red => "#cd3131".to_owned(),
        Color::Green => "#0dbc79".to_owned(),
        Color::Yellow => "#e5e510".to_owned(),
        Color::Blue => "#2472c8".to_owned(),
        Color::Magenta => "#bc3fbc".to_owned(),
        Color::Cyan => "#11a8cd".to_owned(),
        Color::Gray => "#808080".to_owned(),
        Color::DarkGray => "#505050".to_owned(),
        Color::LightRed => "#f14c4c".to_owned(),
        Color::LightGreen => "#23d18b".to_owned(),
        Color::LightYellow => "#f5f543".to_owned(),
        Color::LightBlue => "#3b8eea".to_owned(),
        Color::LightMagenta => "#d670d6".to_owned(),
        Color::LightCyan => "#29b8db".to_owned(),
        Color::White => "#e5e5e5".to_owned(),
        Color::Reset => default.to_owned(),
        Color::Indexed(_) => default.to_owned(),
    }
}

/// The color the last covering span gives a character position, spans later
/// in the list overriding earlier ones; span bounds are clamped to the text.
pub open spec fn spec_color_at(spans: Seq<HighlightSpan>, i: int, tlen: int) -> Option<Color>
    decreases spans.len(),
{
    if spans.len() == 0 {
        None
    } else {
        let last = spans.last();
        let st = if last.start <= tlen {
            last.start as int
        } else {
            tlen
        };
        let en = if last.end <= tlen {
            last.end as int
        } else {
            tlen
        };
        if st <= i < en {
            Some(last.color)
        } else {
            spec_color_at(spans.drop_last(), i, tlen)
        }
    }
}

/// The escape of one character in markup text.
pub open spec fn spec_html_escape_char(c: char) -> Seq<char> {
    if c == '<' {
        "&lt;"@
    } else if c == '>' {
        "&gt;"@
    } else if c == '&' {
        "&amp;"@
    } else if c == '"' {
        "&quot;"@
    } else if c == '\'' {
        "&#39;"@
    } else {
        seq![c]
    }
}

/// The rendered body from position `i` on, given the currently open color.
pub open spec fn spec_render_body(
    text: Seq<char>,
    spans: Seq<HighlightSpan>,
    fg: Seq<char>,
    i: int,
    current: Option<Color>,
    open: bool,
) -> Seq<char>
    decreases text.len() - i,
{
    if i < 0 || i >= text.len() {
        if open {
            "</span>"@
        } else {
            Seq::empty()
        }
    } else {
        let cc = spec_color_at(spans, i, text.len() as int);
        if cc == current {
            spec_html_escape_char(text[i]) + spec_render_body(text, spans, fg, i + 1, current, open)
        } else {
            (if open {
                "</span>"@
            } else {
                Seq::empty()
            }) + (match cc {
                Some(col) => "<span style=\"color:"@ + spec_color_css(col, fg) + ";\">"@,
                None => Seq::empty(),
            }) + spec_html_escape_char(text[i]) + spec_render_body(
                text,
                spans,
                fg,
                i + 1,
                cc,
                cc is Some,
            )
        }
    }
}

/// The rendered markup: a preformatted block styled with the theme's colors,
/// holding the text with every character escaped and each colored run wrapped
/// in a span with its color inline.
pub open spec fn spec_render_html(
    text: Seq<char>,
    spans: Seq<HighlightSpan>,
    theme: Theme,
) -> Seq<char> {
    let bg = spec_color_css(theme.editor_bg, "#1e1e1e"@);
    let fg = spec_color_css(theme.editor_fg, "#d4d4d4"@);
    "<pre style=\"background-color:"@ + bg + ";color:"@ + fg
        + ";font-family:'Fira Mono','Fira Code',Consolas,'Courier New',monospace;font-size:14px;padding:12px 16px;border-radius:6px;margin:0;white-space:pre;overflow-x:auto;\">"@
        + spec_render_body(text, spans, fg, 0, None, false) + "</pre>"@
}

/// Whether two optional colors coincide.
fn opt_color_eq(a: &Option<Color>, b: &Option<Color>) -> (r: bool)
    ensures
        r == (*a == *b),
{
    match (a, b) {
        (None, None) => true,
        (Some(x), Some(y)) => x == y,
        _ => false,
    }
}

/// Renders highlighted text as markup with inline styles, for pasting into
/// rich text editors.
pub fn render_styled_html(text: &str, highlight_spans: &Vec<HighlightSpan>, theme: &Theme) -> (r:
    String)
    ensures
        r@ == spec_render_html(text@, highlight_spans@, *theme),
{
    let fg = color_to_css(theme.editor_fg, "#d4d4d4");
    let bg = color_to_css(theme.editor_bg, "#1e1e1e");
    let mut out = "<pre style=\"background-color:".to_owned();
    out.append(bg.as_str());
    out.append(";color:");
    out.append(fg.as_str());
    out.append(
        ";font-family:'Fira Mono','Fira Code',Consolas,'Courier New',monospace;font-size:14px;padding:12px 16px;border-radius:6px;margin:0;white-space:pre;overflow-x:auto;\">",
    );
    let ghost prefix = out@;
    let tlen = text.unicode_len();
    let mut i: usize = 0;
    let mut current: Option<Color> = None;
    let mut open = false;
    while i < tlen
        invariant
            0 <= i <= tlen,
            tlen == text@.len(),
            fg@ == spec_color_css(theme.editor_fg, "#d4d4d4"@),
            prefix + spec_render_body(text@, highlight_spans@, fg@, 0, None, false) == out@
                + spec_render_body(text@, highlight_spans@, fg@, i as int, current, open),
            open == (current is Some),
        decreases tlen - i,
    {
        let cc = color_at(highlight_spans, i, tlen);
        if !opt_color_eq(&cc, &current) {
            if open {
                out.append("</span>");
            }
            match cc {
                Some(col) => {
                    out.append("<span style=\"color:");
                    let css = color_to_css(col, fg.as_str());
                    out.append(css.as_str());
                    out.append(";\">");
                    open = true;
                },
                None => {
                    open = false;
                },
            }
            current = cc;
        }
        push_html_escaped(&mut out, text, i);
        i += 1;
    }
    if open {
        out.append("</span>");
    }
    out.append("</pre>");
    proof {
        assert(out@ =~= spec_render_html(text@, highlight_spans@, *theme));
    }
    out
}

/// The color the spans give one character position.
fn color_at(spans: &Vec<HighlightSpan>, i: usize, tlen: usize) -> (r: Option<Color>)
    ensures
        r == spec_color_at(spans@, i as int, tlen as int),
{
    let n = spans.len();
    let mut k: usize = n;
    proof {
        assert(spans@.subrange(0, n as int) =~= spans@);
    }
    while k > 0
        invariant
            0 <= k <= n,
            n == spans@.len(),
            spec_color_at(spans@, i as int, tlen as int) == spec_color_at(
                spans@.subrange(0, k as int),
                i as int,
                tlen as int,
            ),
        decreases k,
    {
        let ghost part = spans@.subrange(0, k as int);
        proof {
            assert(part.last() == spans@[k - 1]);
            assert(part.drop_last() =~= spans@.subrange(0, k as int - 1));
        }
        let span = &spans[k - 1];
        let st = if span.start <= tlen {
            span.start
        } else {
            tlen
        };
        let en = if span.end <= tlen {
            span.end
        } else {
            tlen
        };
        if st <= i && i < en {
            return Some(span.color);
        }
        k -= 1;
    }
    proof {
        assert(spans@.subrange(0, 0) =~= Seq::<HighlightSpan>::empty());
    }
    None
}

/// Appends the markup escape of one character of `s` to `out`.
fn push_html_escaped(out: &mut String, s: &str, i: usize)
    requires
        i < s@.len(),
    ensures
        final(out)@ == old(out)@ + spec_html_escape_char(s@[i as int]),
{
    let slen = s.unicode_len();
    let c = s.get_char(i);
    if c == '<' {
        out.append("&lt;");
    } else if c == '>' {
        out.append("&gt;");
    } else if c == '&' {
        out.append("&amp;");
    } else if c == '"' {
        out.append("&quot;");
    } else if c == '\'' {
        out.append("&#39;");
    } else {
        let piece = s.substring_char(i, i + 1);
        out.append(piece);
        proof {
            assert(s@.subrange(i as int, i as int + 1) =~= seq![s@[i as int]]);
        }
    }
}

} // verus!
