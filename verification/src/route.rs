//! From a key press to what the text shell does with it, by the panel that
//! has the focus.

use vstd::prelude::*;

verus! {

/// The keys that routing tells apart.
#[derive(Clone, Copy, Debug, PartialEq, Eq, Structural)]
pub enum KeyCode {
    Tab,
    Enter,
    Backspace,
    Delete,
    Left,
    Right,
    Home,
    End,
    Up,
    Down,
    PageUp,
    PageDown,
    Esc,
    Char(char),
    /// Any other key.
    Other,
}

/// A key press with the one modifier that routing looks at.
#[derive(Clone, Copy, Debug, PartialEq, Eq, Structural)]
pub struct KeyPress {
    pub code: KeyCode,
    pub control: bool,
}

/// Which panel has focus.
#[derive(Clone, Copy, Debug, PartialEq, Eq, Structural)]
pub enum ActivePanel {
    Input,
    Feed,
    Sidebar,
}

/// Actions that the shell can perform in response to input.
#[derive(Clone, Copy, Debug, PartialEq, Eq, Structural)]
pub enum AppAction {
    Quit,
    SwitchPanel,
    ReturnToInput,
    TypeChar(char),
    Backspace,
    Delete,
    Submit,
    CursorLeft,
    CursorRight,
    CursorHome,
    CursorEnd,
    HistoryUp,
    HistoryDown,
    FeedSelectPrev,
    FeedSelectNext,
    FeedToggleCollapse,
    FeedDismiss,
    FeedPageUp,
    FeedPageDown,
    PageUp,
    PageDown,
    TriggerSysinfo,
    TriggerWorldModel,
    Noop,
}

impl ActivePanel {
    /// The panel that takes the focus next: input, feed, sidebar, and
    /// round again.
    pub fn next(&self) -> (panel: ActivePanel)
        ensures
            panel == (match *self {
                ActivePanel::Input => ActivePanel::Feed,
                ActivePanel::Feed => ActivePanel::Sidebar,
                ActivePanel::Sidebar => ActivePanel::Input,
            }),
    {
        match self {
            ActivePanel::Input => ActivePanel::Feed,
            ActivePanel::Feed => ActivePanel::Sidebar,
            ActivePanel::Sidebar => ActivePanel::Input,
        }
    }
}

/// The selection when the feed takes the focus: the newest of the
/// `visible` items, or nothing where none is shown.
pub fn select_newest(visible: usize) -> (selected: Option<usize>)
    ensures
        selected == (if visible > 0 {
            Some((visible - 1) as usize)
        } else {
            None
        }),
{
    if visible > 0 {
        Some(visible - 1)
    } else {
        None
    }
}

/// The selection one item up; the first item and no selection stay.
pub fn select_prev(selected: Option<usize>) -> (moved: Option<usize>)
    ensures
        moved == (match selected {
            Some(i) => if i > 0 {
                Some((i - 1) as usize)
            } else {
                Some(i)
            },
            None => None,
        }),
{
    match selected {
        Some(i) => if i > 0 {
            Some(i - 1)
        } else {
            Some(i)
        },
        None => None,
    }
}

/// The selection one item down among `visible` items; the last item and
/// no selection stay.
pub fn select_next(selected: Option<usize>, visible: usize) -> (moved: Option<usize>)
    ensures
        moved == (match selected {
            Some(i) => if i + 1 < visible {
                Some((i + 1) as usize)
            } else {
                Some(i)
            },
            None => None,
        }),
{
    match selected {
        Some(i) => if visible > 0 && i < visible - 1 {
            Some(i + 1)
        } else {
            Some(i)
        },
        None => None,
    }
}

/// The selection after the selected item was dismissed and `visible` items
/// are left: nothing where none is left, the last item where the selection
/// would point past it, else as it was.
pub fn select_after_dismiss(selected: usize, visible: usize) -> (moved: Option<usize>)
    ensures
        moved == (if visible == 0 {
            None
        } else if selected >= visible {
            Some((visible - 1) as usize)
        } else {
            Some(selected)
        }),
        moved matches Some(i) ==> i < visible,
{
    if visible == 0 {
        None
    } else if selected >= visible {
        Some(visible - 1)
    } else {
        Some(selected)
    }
}

/// What a key does in the input panel. While an answer is pending, typing,
/// deleting and submitting are held back; moving about is not.
pub open spec fn route_input_spec(code: KeyCode, thinking: bool) -> AppAction {
    match code {
        KeyCode::Tab => AppAction::SwitchPanel,
        KeyCode::Left => AppAction::CursorLeft,
        KeyCode::Right => AppAction::CursorRight,
        KeyCode::Home => AppAction::CursorHome,
        KeyCode::End => AppAction::CursorEnd,
        KeyCode::Up => AppAction::HistoryUp,
        KeyCode::Down => AppAction::HistoryDown,
        KeyCode::PageUp => AppAction::PageUp,
        KeyCode::PageDown => AppAction::PageDown,
        KeyCode::Enter => if thinking {
            AppAction::Noop
        } else {
            AppAction::Submit
        },
        KeyCode::Backspace => if thinking {
            AppAction::Noop
        } else {
            AppAction::Backspace
        },
        KeyCode::Delete => if thinking {
            AppAction::Noop
        } else {
            AppAction::Delete
        },
        KeyCode::Char(c) => if thinking {
            AppAction::Noop
        } else {
            AppAction::TypeChar(c)
        },
        _ => AppAction::Noop,
    }
}

/// What a key does in the feed panel.
pub open spec fn route_feed_spec(code: KeyCode) -> AppAction {
    match code {
        KeyCode::Tab => AppAction::SwitchPanel,
        KeyCode::Esc => AppAction::ReturnToInput,
        KeyCode::Up => AppAction::FeedSelectPrev,
        KeyCode::Down => AppAction::FeedSelectNext,
        KeyCode::Enter => AppAction::FeedToggleCollapse,
        KeyCode::PageUp => AppAction::FeedPageUp,
        KeyCode::PageDown => AppAction::FeedPageDown,
        KeyCode::Char(c) => if c == 'k' {
            AppAction::FeedSelectPrev
        } else if c == 'j' {
            AppAction::FeedSelectNext
        } else if c == 'd' {
            AppAction::FeedDismiss
        } else {
            AppAction::Noop
        },
        _ => AppAction::Noop,
    }
}

/// What a key does in the sidebar.
pub open spec fn route_sidebar_spec(code: KeyCode) -> AppAction {
    match code {
        KeyCode::Tab => AppAction::SwitchPanel,
        KeyCode::Esc => AppAction::ReturnToInput,
        _ => AppAction::Noop,
    }
}

/// What a key press does. With control held, `c` quits, `s` asks for the
/// system information and `w` for the world model, whatever panel has the
/// focus; every other press goes by the panel.
pub open spec fn route_spec(key: KeyPress, panel: ActivePanel, thinking: bool) -> AppAction {
    if key.control && key.code == KeyCode::Char('c') {
        AppAction::Quit
    } else if key.control && key.code == KeyCode::Char('s') {
        AppAction::TriggerSysinfo
    } else if key.control && key.code == KeyCode::Char('w') {
        AppAction::TriggerWorldModel
    } else {
        match panel {
            ActivePanel::Input => route_input_spec(key.code, thinking),
            ActivePanel::Feed => route_feed_spec(key.code),
            ActivePanel::Sidebar => route_sidebar_spec(key.code),
        }
    }
}

fn route_input(code: KeyCode, thinking: bool) -> (action: AppAction)
    ensures
        action == route_input_spec(code, thinking),
{
    match code {
        KeyCode::Tab => AppAction::SwitchPanel,
        KeyCode::Enter => if !thinking {
            AppAction::Submit
        } else {
            AppAction::Noop
        },
        KeyCode::Backspace => if !thinking {
            AppAction::Backspace
        } else {
            AppAction::Noop
        },
        KeyCode::Delete => if !thinking {
            AppAction::Delete
        } else {
            AppAction::Noop
        },
        KeyCode::Left => AppAction::CursorLeft,
        KeyCode::Right => AppAction::CursorRight,
        KeyCode::Home => AppAction::CursorHome,
        KeyCode::End => AppAction::CursorEnd,
        KeyCode::Up => AppAction::HistoryUp,
        KeyCode::Down => AppAction::HistoryDown,
        KeyCode::PageUp => AppAction::PageUp,
        KeyCode::PageDown => AppAction::PageDown,
        KeyCode::Char(c) => if !thinking {
            AppAction::TypeChar(c)
        } else {
            AppAction::Noop
        },
        _ => AppAction::Noop,
    }
}

fn route_feed(code: KeyCode) -> (action: AppAction)
    ensures
        action == route_feed_spec(code),
{
    match code {
        KeyCode::Tab => AppAction::SwitchPanel,
        KeyCode::Esc => AppAction::ReturnToInput,
        KeyCode::Up => AppAction::FeedSelectPrev,
        KeyCode::Down => AppAction::FeedSelectNext,
        KeyCode::Enter => AppAction::FeedToggleCollapse,
        KeyCode::PageUp => AppAction::FeedPageUp,
        KeyCode::PageDown => AppAction::FeedPageDown,
        KeyCode::Char(c) => {
            if c == 'k' {
                AppAction::FeedSelectPrev
            } else if c == 'j' {
                AppAction::FeedSelectNext
            } else if c == 'd' {
                AppAction::FeedDismiss
            } else {
                AppAction::Noop
            }
        },
        _ => AppAction::Noop,
    }
}

fn route_sidebar(code: KeyCode) -> (action: AppAction)
    ensures
        action == route_sidebar_spec(code),
{
    match code {
        KeyCode::Tab => AppAction::SwitchPanel,
        KeyCode::Esc => AppAction::ReturnToInput,
        _ => AppAction::Noop,
    }
}

fn is_char(code: KeyCode, wanted: char) -> (yes: bool)
    ensures
        yes == (code == KeyCode::Char(wanted)),
{
    match code {
        KeyCode::Char(c) => c == wanted,
        _ => false,
    }
}

/// Routes a key press to an action based on the active panel.
pub fn route(key: KeyPress, panel: &ActivePanel, thinking: bool) -> (action: AppAction)
    ensures
        action == route_spec(key, *panel, thinking),
{
    if key.control {
        if is_char(key.code, 'c') {
            return AppAction::Quit;
        }
        if is_char(key.code, 's') {
            return AppAction::TriggerSysinfo;
        }
        if is_char(key.code, 'w') {
            return AppAction::TriggerWorldModel;
        }
    }
    match panel {
        ActivePanel::Input => route_input(key.code, thinking),
        ActivePanel::Feed => route_feed(key.code),
        ActivePanel::Sidebar => route_sidebar(key.code),
    }
}

/// Control-C quits from anywhere, and the tab key changes the panel from
/// anywhere unless control makes it a shortcut.
pub proof fn lemma_global_keys(key: KeyPress, panel: ActivePanel, thinking: bool)
    ensures
        key.control && key.code == KeyCode::Char('c') ==> route_spec(key, panel, thinking)
            == AppAction::Quit,
        key.code == KeyCode::Tab ==> route_spec(key, panel, thinking) == AppAction::SwitchPanel,
        route_spec(key, panel, thinking) == AppAction::Quit ==> key.control && key.code
            == KeyCode::Char('c'),
        thinking && panel == ActivePanel::Input ==> !(route_spec(key, panel, thinking) is TypeChar)
            && route_spec(key, panel, thinking) != AppAction::Submit && route_spec(
            key,
            panel,
            thinking,
        ) != AppAction::Backspace && route_spec(key, panel, thinking) != AppAction::Delete,
{
}

} // verus!
