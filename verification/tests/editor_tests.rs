use fresh::composite::{CompositeLayout, Editor, LineAlignment, SourcePane};
use fresh::input::KeyContext;
use fresh::language::Language;
use fresh::mapping::{source_to_view_pos, view_pos_to_source, Layout};
use fresh::menu::MenuContext;
use fresh::protocol::{BufferId, SplitId};
use fresh::selection::{Selection, ViewPosition};

#[test]
fn test_language_detection() {
    assert!(matches!(Language::from_path("test.rs"), Some(Language::Rust)));
    assert!(matches!(Language::from_path("test.py"), Some(Language::Python)));
    assert!(matches!(Language::from_path("test.js"), Some(Language::JavaScript)));
    assert!(matches!(Language::from_path("test.jsx"), Some(Language::JavaScript)));
    assert!(matches!(Language::from_path("test.ts"), Some(Language::TypeScript)));
    assert!(matches!(Language::from_path("test.tsx"), Some(Language::TypeScript)));
    assert!(matches!(Language::from_path("test.html"), Some(Language::HTML)));
    assert!(matches!(Language::from_path("test.css"), Some(Language::CSS)));
    assert!(matches!(Language::from_path("test.c"), Some(Language::C)));
    assert!(matches!(Language::from_path("test.h"), Some(Language::C)));
    assert!(matches!(Language::from_path("test.cpp"), Some(Language::Cpp)));
    assert!(matches!(Language::from_path("test.hpp"), Some(Language::Cpp)));
    assert!(matches!(Language::from_path("test.cc"), Some(Language::Cpp)));
    assert!(matches!(Language::from_path("test.hh"), Some(Language::Cpp)));
    assert!(matches!(Language::from_path("test.cxx"), Some(Language::Cpp)));
    assert!(matches!(Language::from_path("test.hxx"), Some(Language::Cpp)));
    assert!(matches!(Language::from_path("test.go"), Some(Language::Go)));
    assert!(matches!(Language::from_path("test.json"), Some(Language::Json)));
    assert!(matches!(Language::from_path("test.java"), Some(Language::Java)));
    assert!(matches!(Language::from_path("test.cs"), Some(Language::CSharp)));
    assert!(matches!(Language::from_path("test.php"), Some(Language::Php)));
    assert!(matches!(Language::from_path("test.rb"), Some(Language::Ruby)));
    assert!(matches!(Language::from_path("test.sh"), Some(Language::Bash)));
    assert!(matches!(Language::from_path("test.bash"), Some(Language::Bash)));
    assert!(matches!(Language::from_path("test.lua"), Some(Language::Lua)));
    assert!(matches!(Language::from_path("test.pas"), Some(Language::Pascal)));
    assert!(matches!(Language::from_path("test.p"), Some(Language::Pascal)));
    assert!(Language::from_path("test.txt").is_none());
}

#[test]
fn test_key_context_round_trip() {
    let all = [
        KeyContext::Global,
        KeyContext::Normal,
        KeyContext::Prompt,
        KeyContext::Popup,
        KeyContext::FileExplorer,
        KeyContext::Menu,
        KeyContext::Terminal,
        KeyContext::Settings,
    ];
    for ctx in all {
        assert_eq!(KeyContext::from_when_clause(ctx.to_when_clause()), Some(ctx));
    }
    assert_eq!(KeyContext::from_when_clause(" file_explorer "), Some(KeyContext::FileExplorer));
    assert_eq!(KeyContext::from_when_clause("unknown"), None);
    assert!(KeyContext::Normal.allows_text_input());
    assert!(KeyContext::Prompt.allows_text_input());
    assert!(!KeyContext::Menu.allows_text_input());
}

#[test]
fn test_menu_context_states() {
    let mut ctx = MenuContext::new();
    assert!(!ctx.get("line_numbers"));
    ctx.set("line_numbers", true);
    assert!(ctx.get("line_numbers"));
    ctx.set("line_numbers", false);
    assert!(!ctx.get("line_numbers"));
    let ctx2 = MenuContext::new().with("line_wrap", true);
    assert!(ctx2.get("line_wrap"));
    assert!(!ctx2.get("line_numbers"));
}

fn pos(line: usize, col: usize) -> ViewPosition {
    ViewPosition { view_line: line, column: col, source_byte: None }
}

#[test]
fn test_selection_normalized_and_empty() {
    let sel = Selection::new(pos(3, 4), pos(1, 2));
    let norm = sel.normalized();
    assert_eq!(norm.start.view_line, 1);
    assert_eq!(norm.end.view_line, 3);
    assert!(!sel.is_empty());
    assert!(Selection::new(pos(2, 2), pos(2, 2)).is_empty());
    let tup = sel.to_tuple();
    let back = Selection::from_tuple(tup);
    assert_eq!(back.start.view_line, 3);
}

#[test]
fn test_selection_len() {
    assert_eq!(Selection::new(pos(1, 2), pos(1, 10)).len(), 8);
    assert_eq!(Selection::new(pos(1, 5), pos(3, 4)).len(), 2 * 80 + 4);
}

#[test]
fn test_layout_mapping_round_trip() {
    let layout = Layout::new(vec![vec![0, 1, 2], vec![10, 11]]);
    let p = pos(1, 1);
    assert_eq!(view_pos_to_source(&layout, &p), Some(11));
    assert_eq!(view_pos_to_source(&layout, &pos(2, 0)), None);
    let vp = source_to_view_pos(&layout, 11, None);
    assert_eq!(vp.view_line, 1);
    assert_eq!(vp.column, 1);
    assert_eq!(vp.source_byte, Some(11));
    let vp2 = source_to_view_pos(&layout, 11, Some(7));
    assert_eq!(vp2.column, 7);
    let missing = source_to_view_pos(&layout, 99, None);
    assert_eq!(missing.view_line, 0);
    assert_eq!(missing.column, 0);
}

fn two_pane_editor() -> (Editor, BufferId) {
    let mut editor = Editor::new();
    let sources = vec![
        SourcePane { buffer_id: BufferId(100), line_count: 12 },
        SourcePane { buffer_id: BufferId(101), line_count: 14 },
    ];
    let id = editor.create_composite_buffer(
        "diff".to_string(),
        "diff-view".to_string(),
        CompositeLayout::SideBySide,
        sources,
    );
    (editor, id)
}

#[test]
fn test_composite_buffer_lifecycle() {
    let (mut editor, id) = two_pane_editor();
    assert!(editor.is_composite_buffer(id));
    assert!(!editor.is_composite_buffer(BufferId(9999)));
    let c = editor.get_composite(id).unwrap();
    assert_eq!(c.pane_count(), 2);
    assert_eq!(c.focused_pane, 0);
    editor.close_composite_buffer(id);
    assert!(!editor.is_composite_buffer(id));
    assert!(editor.get_composite(id).is_none());
}

#[test]
fn test_composite_focus_wraps() {
    let (mut editor, id) = two_pane_editor();
    editor.composite_focus_next(id);
    assert_eq!(editor.get_composite(id).unwrap().focused_pane, 1);
    editor.composite_focus_next(id);
    assert_eq!(editor.get_composite(id).unwrap().focused_pane, 0);
    editor.composite_focus_prev(id);
    assert_eq!(editor.get_composite(id).unwrap().focused_pane, 1);
}

#[test]
fn test_composite_hunk_navigation_and_scrolling() {
    let (mut editor, id) = two_pane_editor();
    let split = SplitId(1);
    let alignment = LineAlignment { row_count: 40, hunk_rows: vec![5, 12, 30] };
    editor.set_composite_alignment(id, alignment);
    let vs = editor.get_composite_view_state(split, id).unwrap();
    assert_eq!(vs.scroll_row, 0);
    assert!(editor.composite_next_hunk(split, id));
    assert_eq!(editor.get_composite_view_state(split, id).unwrap().scroll_row, 5);
    assert!(editor.composite_next_hunk(split, id));
    assert_eq!(editor.get_composite_view_state(split, id).unwrap().scroll_row, 12);
    assert!(editor.composite_prev_hunk(split, id));
    assert_eq!(editor.get_composite_view_state(split, id).unwrap().scroll_row, 5);
    editor.composite_scroll(split, id, 100);
    assert_eq!(editor.get_composite_view_state(split, id).unwrap().scroll_row, 39);
    editor.composite_scroll(split, id, -2);
    assert_eq!(editor.get_composite_view_state(split, id).unwrap().scroll_row, 37);
    editor.composite_scroll_to(split, id, 7);
    assert_eq!(editor.get_composite_view_state(split, id).unwrap().scroll_row, 7);
    editor.composite_scroll_to(split, id, 500);
    assert_eq!(editor.get_composite_view_state(split, id).unwrap().scroll_row, 39);
}

#[test]
fn test_composite_view_state_missing_for_plain_buffer() {
    let mut editor = Editor::new();
    assert!(editor.get_composite_view_state(SplitId(1), BufferId(5)).is_none());
}

#[test]
fn test_backend_metadata() {
    assert_eq!(fresh::api::backend_name(), "QuickJS + oxc");
    assert!(fresh::api::check_runtime_available().is_ok());
}

use fresh::language::{
    resolve_language_id, DetectedLanguage, GrammarRegistry, HighlightEngine, LanguageConfig,
    Syntax,
};

fn registry() -> GrammarRegistry {
    GrammarRegistry {
        syntaxes: vec![
            Syntax { name: "Rust".to_string(), extensions: vec![".rs".to_string()] },
            Syntax { name: "INI".to_string(), extensions: vec![".ini".to_string(), ".cfg".to_string()] },
        ],
    }
}

fn languages() -> Vec<(String, LanguageConfig)> {
    vec![
        (
            "rust".to_string(),
            LanguageConfig { grammar: "Rust".to_string(), extensions: vec![".rs".to_string()] },
        ),
        (
            "ini".to_string(),
            LanguageConfig { grammar: "INI".to_string(), extensions: vec![".ini".to_string()] },
        ),
    ]
}

#[test]
fn test_resolve_language_id() {
    assert_eq!(
        resolve_language_id("Rust", &registry(), &languages()),
        Some("rust".to_string())
    );
    assert_eq!(resolve_language_id("Nothing", &registry(), &languages()), None);
}

#[test]
fn test_detected_language_from_path() {
    let d = DetectedLanguage::from_path("src/main.rs", &registry(), &languages());
    assert_eq!(d.name, "rust");
    assert!(matches!(d.ts_language, Some(Language::Rust)));
    let plain = DetectedLanguage::from_path("notes.txt", &registry(), &languages());
    assert_eq!(plain.name, "text");
    assert!(plain.ts_language.is_none());
}

#[test]
fn test_detected_language_builtin_and_syntect_fallback() {
    let d = DetectedLanguage::from_path_builtin("conf.ini", &registry());
    assert_eq!(d.name, "text");
    assert!(matches!(d.highlighter, HighlightEngine::Syntect(ref g) if g == "INI"));
    let t = DetectedLanguage::from_path_builtin("lib.ts", &registry());
    assert!(matches!(t.ts_language, Some(Language::TypeScript)));
}

#[test]
fn test_detected_language_from_syntax_name() {
    let d = DetectedLanguage::from_syntax_name("Rust", &registry(), &languages()).unwrap();
    assert_eq!(d.name, "rust");
    assert!(matches!(d.ts_language, Some(Language::Rust)));
    assert!(DetectedLanguage::from_syntax_name("Unknown", &registry(), &languages()).is_none());
}

#[test]
fn test_detected_language_from_virtual_name() {
    let d = DetectedLanguage::from_virtual_name("*OLD:test.ts*", &registry());
    assert!(matches!(d.ts_language, Some(Language::TypeScript)));
    let e = DetectedLanguage::from_virtual_name("*scratch*", &registry());
    assert!(e.ts_language.is_none());
}

#[test]
fn test_plain_text_detection() {
    let d = DetectedLanguage::plain_text();
    assert_eq!(d.name, "text");
    assert!(d.ts_language.is_none());
}

#[test]
fn test_get_composite_mut_allows_edits() {
    let (mut editor, id) = two_pane_editor();
    {
        let c = editor.get_composite_mut(id).unwrap();
        c.focus_next();
    }
    assert_eq!(editor.get_composite(id).unwrap().focused_pane, 1);
    assert!(editor.get_composite_mut(BufferId(777)).is_none());
}

#[test]
fn test_close_composite_buffer_removes_everything_and_spares_others() {
    let (mut editor, first) = two_pane_editor();
    let second = editor.create_composite_buffer(
        "other".to_string(),
        "diff-view".to_string(),
        CompositeLayout::Stacked,
        vec![SourcePane { buffer_id: BufferId(200), line_count: 3 }],
    );
    let split = SplitId(1);
    editor.set_composite_alignment(first, LineAlignment { row_count: 10, hunk_rows: vec![2] });
    editor.set_composite_alignment(second, LineAlignment { row_count: 5, hunk_rows: vec![1] });
    editor.get_composite_view_state(split, first).unwrap();
    editor.get_composite_view_state(split, second).unwrap();
    assert!(editor.get_metadata(first).is_some());

    editor.close_composite_buffer(first);
    assert!(!editor.is_composite_buffer(first));
    assert!(editor.get_metadata(first).is_none());
    // Everything belonging to the other buffer is untouched.
    assert!(editor.is_composite_buffer(second));
    assert!(editor.get_metadata(second).is_some());
    assert_eq!(editor.get_composite_view_state(split, second).unwrap().scroll_row, 0);
    // A second close changes nothing these lookups can observe.
    editor.close_composite_buffer(first);
    assert!(!editor.is_composite_buffer(first));
    assert!(editor.is_composite_buffer(second));
}
