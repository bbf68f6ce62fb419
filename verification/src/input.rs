//! Key contexts and editor actions.

use vstd::prelude::*;
use crate::text::{spec_trim, str_eq, trim_str};

verus! {

/// The context in which a keybinding is active.
#[derive(Debug, Clone, Copy, PartialEq, Eq, Hash, Structural)]
pub enum KeyContext {
    /// Bindings that work in all contexts, checked first.
    Global,
    /// Normal editing.
    Normal,
    /// A prompt or minibuffer is active.
    Prompt,
    /// A popup window is visible.
    Popup,
    /// The file explorer has focus.
    FileExplorer,
    /// The menu bar is active.
    Menu,
    /// A terminal has focus.
    Terminal,
    /// The settings modal is active.
    Settings,
}

/// The context a `when` clause names, if any: the clause is trimmed first,
/// and the file explorer accepts two spellings.
pub open spec fn spec_context_from_when(s: Seq<char>) -> Option<KeyContext> {
    if s == "global"@ {
        Some(KeyContext::Global)
    } else if s == "prompt"@ {
        Some(KeyContext::Prompt)
    } else if s == "popup"@ {
        Some(KeyContext::Popup)
    } else if s == "fileExplorer"@ || s == "file_explorer"@ {
        Some(KeyContext::FileExplorer)
    } else if s == "normal"@ {
        Some(KeyContext::Normal)
    } else if s == "menu"@ {
        Some(KeyContext::Menu)
    } else if s == "terminal"@ {
        Some(KeyContext::Terminal)
    } else if s == "settings"@ {
        Some(KeyContext::Settings)
    } else {
        None
    }
}

/// The `when` clause spelling of a context.
pub open spec fn spec_when_of_context(c: KeyContext) -> Seq<char> {
    match c {
        KeyContext::Global => "global"@,
        KeyContext::Normal => "normal"@,
        KeyContext::Prompt => "prompt"@,
        KeyContext::Popup => "popup"@,
        KeyContext::FileExplorer => "fileExplorer"@,
        KeyContext::Menu => "menu"@,
        KeyContext::Terminal => "terminal"@,
        KeyContext::Settings => "settings"@,
    }
}

impl KeyContext {
    /// Whether the context accepts ordinary text input: only normal editing
    /// and an active prompt do.
    pub fn allows_text_input(&self) -> (r: bool)
        ensures
            r == (*self == KeyContext::Normal || *self == KeyContext::Prompt),
    {
        match self {
            KeyContext::Normal => true,
            KeyContext::Prompt => true,
            _ => false,
        }
    }

    /// Parses a context from a `when` clause, tolerating surrounding
    /// whitespace.
    pub fn from_when_clause(when: &str) -> (r: Option<KeyContext>)
        ensures
            r == spec_context_from_when(spec_trim(when@)),
    {
        let t = trim_str(when);
        let ts = t.as_str();
        if str_eq(ts, "global") {
            Some(KeyContext::Global)
        } else if str_eq(ts, "prompt") {
            Some(KeyContext::Prompt)
        } else if str_eq(ts, "popup") {
            Some(KeyContext::Popup)
        } else if str_eq(ts, "fileExplorer") || str_eq(ts, "file_explorer") {
            Some(KeyContext::FileExplorer)
        } else if str_eq(ts, "normal") {
            Some(KeyContext::Normal)
        } else if str_eq(ts, "menu") {
            Some(KeyContext::Menu)
        } else if str_eq(ts, "terminal") {
            Some(KeyContext::Terminal)
        } else if str_eq(ts, "settings") {
            Some(KeyContext::Settings)
        } else {
            None
        }
    }

    /// The `when` clause spelling of this context.
    pub fn to_when_clause(self) -> (r: &'static str)
        ensures
            r@ == spec_when_of_context(self),
    {
        match self {
            KeyContext::Global => "global",
            KeyContext::Normal => "normal",
            KeyContext::Prompt => "prompt",
            KeyContext::Popup => "popup",
            KeyContext::FileExplorer => "fileExplorer",
            KeyContext::Menu => "menu",
            KeyContext::Terminal => "terminal",
            KeyContext::Settings => "settings",
        }
    }
}

/// A high-level editor action.
#[derive(Debug, Clone, PartialEq, Eq)]
pub enum Action {
    InsertChar(char),
    InsertNewline,
    InsertTab,
    MoveLeft,
    MoveRight,
    MoveUp,
    MoveDown,
    MoveWordLeft,
    MoveWordRight,
    MoveLineStart,
    MoveLineEnd,
    MovePageUp,
    MovePageDown,
    MoveDocumentStart,
    MoveDocumentEnd,
    SelectLeft,
    SelectRight,
    SelectUp,
    SelectDown,
    SelectWordLeft,
    SelectWordRight,
    SelectLineStart,
    SelectLineEnd,
    SelectDocumentStart,
    SelectDocumentEnd,
    SelectPageUp,
    SelectPageDown,
    SelectAll,
    SelectWord,
    SelectLine,
    ExpandSelection,
    BlockSelectLeft,
    BlockSelectRight,
    BlockSelectUp,
    BlockSelectDown,
    DeleteBackward,
    DeleteForward,
    DeleteWordBackward,
    DeleteWordForward,
    DeleteLine,
    DeleteToLineEnd,
    DeleteToLineStart,
    TransposeChars,
    OpenLine,
    Recenter,
    SetMark,
    Copy,
    CopyWithTheme(String),
    Cut,
    Paste,
    YankWordForward,
    YankWordBackward,
    YankToLineEnd,
    YankToLineStart,
    AddCursorAbove,
    AddCursorBelow,
    AddCursorNextMatch,
    RemoveSecondaryCursors,
    Save,
    SaveAs,
    Open,
    SwitchProject,
    New,
    Close,
    CloseTab,
    Quit,
    Revert,
    ToggleAutoRevert,
    FormatBuffer,
    GotoLine,
    GoToMatchingBracket,
    JumpToNextError,
    JumpToPreviousError,
    SmartHome,
    DedentSelection,
    ToggleComment,
    SetBookmark(char),
    JumpToBookmark(char),
    ClearBookmark(char),
    ListBookmarks,
    ToggleSearchCaseSensitive,
    ToggleSearchWholeWord,
    ToggleSearchRegex,
    ToggleSearchConfirmEach,
    StartMacroRecording,
    StopMacroRecording,
    PlayMacro(char),
    ToggleMacroRecording(char),
    ShowMacro(char),
    ListMacros,
    PromptRecordMacro,
    PromptPlayMacro,
    PlayLastMacro,
    PromptSetBookmark,
    PromptJumpToBookmark,
    Undo,
    Redo,
    ScrollUp,
    ScrollDown,
    ShowHelp,
    ShowKeyboardShortcuts,
    ShowWarnings,
    ShowLspStatus,
    ClearWarnings,
    CommandPalette,
    ToggleLineWrap,
    ToggleComposeMode,
    SetComposeWidth,
    SelectTheme,
    SelectKeybindingMap,
    SelectCursorStyle,
    SelectLocale,
    NextBuffer,
    PrevBuffer,
    SwitchToPreviousTab,
    SwitchToTabByName,
    ScrollTabsLeft,
    ScrollTabsRight,
    NavigateBack,
    NavigateForward,
    SplitHorizontal,
    SplitVertical,
    CloseSplit,
    NextSplit,
    PrevSplit,
    IncreaseSplitSize,
    DecreaseSplitSize,
    ToggleMaximizeSplit,
    PromptConfirm,
    PromptCancel,
    PromptBackspace,
    PromptDelete,
    PromptMoveLeft,
    PromptMoveRight,
    PromptMoveStart,
    PromptMoveEnd,
    PromptSelectPrev,
    PromptSelectNext,
    PromptPageUp,
    PromptPageDown,
    PromptAcceptSuggestion,
    PromptMoveWordLeft,
    PromptMoveWordRight,
    PromptDeleteWordForward,
    PromptDeleteWordBackward,
    PromptDeleteToLineEnd,
    PromptCopy,
    PromptCut,
    PromptPaste,
    PromptMoveLeftSelecting,
    PromptMoveRightSelecting,
    PromptMoveHomeSelecting,
    PromptMoveEndSelecting,
    PromptSelectWordLeft,
    PromptSelectWordRight,
    PromptSelectAll,
    FileBrowserToggleHidden,
    PopupSelectNext,
    PopupSelectPrev,
    PopupPageUp,
    PopupPageDown,
    PopupConfirm,
    PopupCancel,
    ToggleFileExplorer,
    ToggleMenuBar,
    FocusFileExplorer,
    FocusEditor,
    FileExplorerUp,
    FileExplorerDown,
    FileExplorerPageUp,
    FileExplorerPageDown,
    FileExplorerExpand,
    FileExplorerCollapse,
    FileExplorerOpen,
    FileExplorerRefresh,
    FileExplorerNewFile,
    FileExplorerNewDirectory,
    FileExplorerDelete,
    FileExplorerRename,
    FileExplorerToggleHidden,
    FileExplorerToggleGitignored,
    LspCompletion,
    LspGotoDefinition,
    LspReferences,
    LspRename,
    LspHover,
    LspSignatureHelp,
    LspCodeActions,
    LspRestart,
    LspStop,
    ToggleInlayHints,
    ToggleMouseHover,
    ToggleLineNumbers,
    ToggleMouseCapture,
    ToggleDebugHighlights,
    SetBackground,
    SetBackgroundBlend,
    SetTabSize,
    SetLineEnding,
    ToggleIndentationStyle,
    ToggleTabIndicators,
    ResetBufferSettings,
    DumpConfig,
    Search,
    FindInSelection,
    FindNext,
    FindPrevious,
    FindSelectionNext,
    FindSelectionPrevious,
    Replace,
    QueryReplace,
    MenuActivate,
    MenuClose,
    MenuLeft,
    MenuRight,
    MenuUp,
    MenuDown,
    MenuExecute,
    MenuOpen(String),
    SwitchKeybindingMap(String),
    PluginAction(String),
    OpenSettings,
    CloseSettings,
    SettingsSave,
    SettingsReset,
    SettingsToggleFocus,
    SettingsActivate,
    SettingsSearch,
    SettingsHelp,
    SettingsIncrement,
    SettingsDecrement,
    OpenTerminal,
    CloseTerminal,
    FocusTerminal,
    TerminalEscape,
    ToggleKeyboardCapture,
    TerminalPaste,
    ShellCommand,
    ShellCommandReplace,
    ToUpperCase,
    ToLowerCase,
    CalibrateInput,
    Nothing,
}

} // verus!
