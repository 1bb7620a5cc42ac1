//! The actions a key press stands for, and the key presses themselves.
use vstd::prelude::*;

verus! {

/// What the user asked for; each key press maps to one action.
#[derive(Debug, Clone, Copy, PartialEq, Eq, Structural)]
pub enum Action {
    Quit,
    NextTab,
    PrevTab,
    MoveUp,
    MoveDown,
    MoveLeft,
    MoveRight,
    Select,
    Back,
    GoToDashboard,
    GoToRunDetail(i64),
    GoToCompare,
    GoToGpuMonitor,
    CycleDetailSubView,
    DeleteRun,
    ConfirmDelete,
    CancelDelete,
    ToggleRunStatus,
    OpenTagList,
    OpenTagInput,
    ConfirmTagInput,
    RemoveSelectedTag,
    OpenNotesEditor,
    ConfirmNotesInput,
    ToggleCompareSelection,
    CycleCompareMetric,
    OpenRunDialog,
    ConfirmRunDialog,
    RunDialogNextField,
    RunDialogToggleGpu,
    StopContainer,
    EnterSearchMode,
    ExitSearchMode,
    SearchInput(char),
    SearchBackspace,
    SearchClear,
    InputChar(char),
    InputBackspace,
    InputConfirm,
    InputCancel,
    CycleMetric,
    ExportMarkdown,
    ExportCsv,
    ExportLatex,
    MenuSelect(usize),
    SplashDismiss,
    Refresh,
    ToggleHelp,
    NoOp,
}

/// A key of the keyboard, as far as the tracker tells keys apart.
#[derive(Debug, Clone, Copy, PartialEq, Eq, Structural)]
pub enum KeyCode {
    Char(char),
    Enter,
    Esc,
    Backspace,
    Tab,
    BackTab,
    Up,
    Down,
    Left,
    Right,
    Delete,
    Other,
}

/// A key press: the key, and whether Control was held.
#[derive(Debug, Clone, Copy, PartialEq, Eq, Structural)]
pub struct KeyPress {
    pub code: KeyCode,
    pub ctrl: bool,
}

} // verus!
