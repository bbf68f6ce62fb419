//! Turning language-server diagnostics into visual overlays: colored
//! underlines whose color and priority follow the diagnostic's severity.

use vstd::prelude::*;
use crate::text::{find_from, spec_find_from};

verus! {

/// The severity a diagnostic carries.
#[derive(Debug, Clone, Copy, PartialEq, Eq, Structural)]
pub enum DiagnosticSeverity {
    Error,
    Warning,
    Information,
    Hint,
}

/// A diagnostic position: a line and a character offset within it, both
/// starting at zero.
#[derive(Debug, Clone, Copy, PartialEq, Eq, Structural)]
pub struct DiagnosticPosition {
    pub line: usize,
    pub character: usize,
}

/// A diagnostic as the language server reports it: a range and an optional
/// severity. The message is carried alongside and does not affect the
/// overlay.
#[derive(Debug, Clone)]
pub struct Diagnostic {
    pub start: DiagnosticPosition,
    pub end: DiagnosticPosition,
    pub severity: Option<DiagnosticSeverity>,
    pub message: String,
}

/// How an underline is drawn.
#[derive(Debug, Clone, Copy, PartialEq, Eq, Structural)]
pub enum UnderlineStyle {
    Wavy,
    Dotted,
}

/// An eight-bit color.
#[derive(Debug, Clone, Copy, PartialEq, Eq, Structural)]
pub struct Rgb {
    pub r: u8,
    pub g: u8,
    pub b: u8,
}

/// The visual face of an overlay.
#[derive(Debug, Clone, Copy, PartialEq, Eq, Structural)]
pub enum OverlayFace {
    Underline { color: Rgb, style: UnderlineStyle },
}

/// The offset of a line/character position in a text: the character offset is
/// clamped to the line's length, and a line past the end of the text has no
/// offset.
pub open spec fn spec_line_char_to_byte(s: Seq<char>, line: int, character: int) -> Option<int>
    decreases s.len(), line,
    via spec_line_char_to_byte_dec
{
    let line_end = match spec_find_from(s, seq!['\n'], 0) {
        Some(i) => i,
        None => s.len() as int,
    };
    if line <= 0 {
        if line < 0 {
            None
        } else if character <= line_end {
            Some(character)
        } else {
            Some(line_end)
        }
    } else {
        match spec_find_from(s, seq!['\n'], 0) {
            None => None,
            Some(i) => {
                match spec_line_char_to_byte(
                    s.subrange(i + 1, s.len() as int),
                    line - 1,
                    character,
                ) {
                    Some(off) => Some(i + 1 + off),
                    None => None,
                }
            },
        }
    }
}

#[via_fn]
proof fn spec_line_char_to_byte_dec(s: Seq<char>, line: int, character: int) {
    crate::text::lemma_find_is_occurrence(s, seq!['\n'], 0);
}

/// Converts a line and character position into an offset of the text.
/// The character offset is clamped to the line's length; a line that does
/// not exist yields nothing.
pub fn line_char_to_byte(text: &str, line: usize, character: usize) -> (r: Option<usize>)
    ensures
        match r {
            Some(b) => spec_line_char_to_byte(text@, line as int, character as int) == Some(
                b as int,
            ),
            None => spec_line_char_to_byte(text@, line as int, character as int) is None,
        },
    decreases text@.len(),
{
    proof {
        reveal_strlit("\n");
        assert("\n"@ =~= seq!['\n']);
    }
    let tlen = text.unicode_len();
    let newline = find_from(text, "\n", 0);
    if line == 0 {
        let line_end = match newline {
            Some(i) => i,
            None => tlen,
        };
        if character <= line_end {
            Some(character)
        } else {
            Some(line_end)
        }
    } else {
        match newline {
            None => None,
            Some(i) => {
                let rest = text.substring_char(i + 1, tlen);
                match line_char_to_byte(rest, line - 1, character) {
                    Some(off) => {
                        if off <= usize::MAX - i - 1 {
                            Some(i + 1 + off)
                        } else {
                            proof {
                                lemma_line_char_in_range(
                                    rest@,
                                    line as int - 1,
                                    character as int,
                                );
                            }
                            None
                        }
                    },
                    None => None,
                }
            },
        }
    }
}

/// A found offset lies within the text.
proof fn lemma_line_char_in_range(s: Seq<char>, line: int, character: int)
    requires
        character >= 0,
    ensures
        match spec_line_char_to_byte(s, line, character) {
            Some(b) => 0 <= b <= s.len(),
            None => true,
        },
    decreases s.len(), line,
{
    crate::text::lemma_find_is_occurrence(s, seq!['\n'], 0);
    if line > 0 {
        match spec_find_from(s, seq!['\n'], 0) {
            Some(i) => {
                lemma_line_char_in_range(s.subrange(i + 1, s.len() as int), line - 1, character);
            },
            None => {},
        }
    }
}

/// The face and priority of a severity: errors underline red with the highest
/// priority, warnings yellow, information blue, and hints — or a missing
/// severity — gray and dotted with the lowest.
pub open spec fn spec_severity_face(severity: Option<DiagnosticSeverity>) -> (OverlayFace, i32) {
    match severity {
        Some(DiagnosticSeverity::Error) => (
            OverlayFace::Underline { color: Rgb { r: 255, g: 0, b: 0 }, style: UnderlineStyle::Wavy },
            100,
        ),
        Some(DiagnosticSeverity::Warning) => (
            OverlayFace::Underline { color: Rgb { r: 255, g: 255, b: 0 }, style: UnderlineStyle::Wavy },
            50,
        ),
        Some(DiagnosticSeverity::Information) => (
            OverlayFace::Underline { color: Rgb { r: 0, g: 150, b: 255 }, style: UnderlineStyle::Wavy },
            30,
        ),
        _ => (
            OverlayFace::Underline { color: Rgb { r: 128, g: 128, b: 128 }, style: UnderlineStyle::Dotted },
            10,
        ),
    }
}

/// Converts a diagnostic to an overlay over the given text: the byte range
/// its positions name, a face for its severity, and a priority. A diagnostic
/// whose positions fall outside the text converts to nothing.
pub fn diagnostic_to_overlay(diagnostic: &Diagnostic, text: &str) -> (r: Option<
    ((usize, usize), OverlayFace, i32),
>)
    ensures
        match r {
            Some(((s, e), face, priority)) => {
                &&& spec_line_char_to_byte(
                    text@,
                    diagnostic.start.line as int,
                    diagnostic.start.character as int,
                ) == Some(s as int)
                &&& spec_line_char_to_byte(
                    text@,
                    diagnostic.end.line as int,
                    diagnostic.end.character as int,
                ) == Some(e as int)
                &&& (face, priority) == spec_severity_face(diagnostic.severity)
            },
            None => spec_line_char_to_byte(
                text@,
                diagnostic.start.line as int,
                diagnostic.start.character as int,
            ) is None || spec_line_char_to_byte(
                text@,
                diagnostic.end.line as int,
                diagnostic.end.character as int,
            ) is None,
        },
{
    let start_byte = match line_char_to_byte(text, diagnostic.start.line, diagnostic.start.character) {
        Some(b) => b,
        None => {
            return None;
        },
    };
    let end_byte = match line_char_to_byte(text, diagnostic.end.line, diagnostic.end.character) {
        Some(b) => b,
        None => {
            return None;
        },
    };
    let (face, priority): (OverlayFace, i32) = match diagnostic.severity {
        Some(DiagnosticSeverity::Error) => (
            OverlayFace::Underline { color: Rgb { r: 255, g: 0, b: 0 }, style: UnderlineStyle::Wavy },
            100,
        ),
        Some(DiagnosticSeverity::Warning) => (
            OverlayFace::Underline { color: Rgb { r: 255, g: 255, b: 0 }, style: UnderlineStyle::Wavy },
            50,
        ),
        Some(DiagnosticSeverity::Information) => (
            OverlayFace::Underline { color: Rgb { r: 0, g: 150, b: 255 }, style: UnderlineStyle::Wavy },
            30,
        ),
        _ => (
            OverlayFace::Underline { color: Rgb { r: 128, g: 128, b: 128 }, style: UnderlineStyle::Dotted },
            10,
        ),
    };
    Some(((start_byte, end_byte), face, priority))
}

} // verus!
