//! Key bindings: which action a key stands for, given where the focus is.
use vstd::prelude::*;

use crate::tui::app::{ActivePane, RequestTab, SidebarTab};

verus! {

/// A key, as the key bindings see it.
#[derive(Debug, Clone, Copy, PartialEq, Eq, Structural)]
pub enum KeyCode {
    Char(char),
    F(u8),
    Tab,
    BackTab,
    Enter,
    Esc,
    Backspace,
    Up,
    Down,
    Left,
    Right,
    PageUp,
    PageDown,
    Other,
}

/// A key press with its modifiers.
#[derive(Debug, Clone, Copy, PartialEq, Eq, Structural)]
pub struct Key {
    pub code: KeyCode,
    pub ctrl: bool,
    pub shift: bool,
}

/// Everything a key can ask for.
#[derive(Debug, Clone, Copy, PartialEq, Eq, Structural)]
pub enum Action {
    SwitchPane(u8),
    NextPane,
    PrevPane,
    WindowPrefix,
    Quit,
    SaveRequest,
    ExportCollection,
    NewCollection,
    NewRequest,
    ShowHelp,
    ShowHistory,
    ShowBookmarks,
    SidebarNext,
    SidebarPrev,
    SidebarExpand,
    SidebarCollapse,
    SidebarLoad,
    SidebarDelete,
    SidebarRename,
    SidebarTabCollections,
    SidebarTabEnvironments,
    CycleMethodNext,
    CycleMethodPrev,
    EditUrl,
    EditRequestName,
    SendRequest,
    SwitchTabParams,
    SwitchTabHeaders,
    SwitchTabBody,
    SwitchTabAuth,
    TabNext,
    TabPrev,
    AddRow,
    DeleteRow,
    ToggleEnabled,
    RowNext,
    RowPrev,
    EditKey,
    EditValue,
    CycleBodyType,
    CycleAuthType,
    ScrollUp,
    ScrollDown,
    PageUp,
    PageDown,
    ScrollHalfPageUp,
    ScrollHalfPageDown,
    ScrollTop,
    ScrollBottom,
    CopyBody,
    ToggleResponseTab,
    NoAction,
}

/// The global bindings: F1 to F4, Ctrl+1 to Ctrl+4 and the prefix key choose a pane; 1, 2 and 3
/// show collections, history and environments; Tab; the Ctrl shortcuts (Ctrl+N opens the
/// new-collection dialog); help.
pub open spec fn global_action(key: Key) -> Action {
    match key.code {
        KeyCode::F(n) => if 1 <= n <= 4 {
            Action::SwitchPane(n)
        } else {
            Action::NoAction
        },
        KeyCode::Char(c) => if c == 'x' {
            Action::WindowPrefix
        } else if key.ctrl && c == '1' {
            Action::SwitchPane(1)
        } else if key.ctrl && c == '2' {
            Action::SwitchPane(2)
        } else if key.ctrl && c == '3' {
            Action::SwitchPane(3)
        } else if key.ctrl && c == '4' {
            Action::SwitchPane(4)
        } else if c == '1' {
            Action::SidebarTabCollections
        } else if c == '2' {
            Action::ShowHistory
        } else if c == '3' {
            Action::SidebarTabEnvironments
        } else if c == 'q' && key.ctrl {
            Action::Quit
        } else if c == 's' && key.ctrl {
            Action::SaveRequest
        } else if c == 'e' && key.ctrl {
            Action::ExportCollection
        } else if c == 'n' && key.ctrl {
            Action::NewCollection
        } else if c == 'r' && key.ctrl {
            Action::ShowHistory
        } else if c == '?' {
            Action::ShowHelp
        } else {
            Action::NoAction
        },
        KeyCode::Tab => if key.shift {
            Action::PrevPane
        } else {
            Action::NextPane
        },
        _ => Action::NoAction,
    }
}

/// Reads a global binding.
pub fn parse_global(key: Key) -> (r: Action)
    ensures
        r == global_action(key),
{
    match key.code {
        KeyCode::F(n) => if 1 <= n && n <= 4 {
            Action::SwitchPane(n)
        } else {
            Action::NoAction
        },
        KeyCode::Char(c) => if c == 'x' {
            Action::WindowPrefix
        } else if key.ctrl && c == '1' {
            Action::SwitchPane(1)
        } else if key.ctrl && c == '2' {
            Action::SwitchPane(2)
        } else if key.ctrl && c == '3' {
            Action::SwitchPane(3)
        } else if key.ctrl && c == '4' {
            Action::SwitchPane(4)
        } else if c == '1' {
            Action::SidebarTabCollections
        } else if c == '2' {
            Action::ShowHistory
        } else if c == '3' {
            Action::SidebarTabEnvironments
        } else if c == 'q' && key.ctrl {
            Action::Quit
        } else if c == 's' && key.ctrl {
            Action::SaveRequest
        } else if c == 'e' && key.ctrl {
            Action::ExportCollection
        } else if c == 'n' && key.ctrl {
            Action::NewCollection
        } else if c == 'r' && key.ctrl {
            Action::ShowHistory
        } else if c == '?' {
            Action::ShowHelp
        } else {
            Action::NoAction
        },
        KeyCode::Tab => if key.shift {
            Action::PrevPane
        } else {
            Action::NextPane
        },
        _ => Action::NoAction,
    }
}

/// The sidebar bindings.
pub open spec fn sidebar_action(key: Key, tab: SidebarTab) -> Action {
    let colls = tab == SidebarTab::Collections;
    match key.code {
        KeyCode::Down => Action::SidebarNext,
        KeyCode::Up => Action::SidebarPrev,
        KeyCode::Right => Action::SidebarExpand,
        KeyCode::Left => Action::SidebarCollapse,
        KeyCode::Enter => Action::SidebarLoad,
        KeyCode::Char(c) => if c == 'd' && colls {
            Action::SidebarDelete
        } else if c == 'n' && colls {
            Action::SidebarRename
        } else if c == 'i' && colls {
            Action::NewRequest
        } else if c == 'f' && colls {
            Action::NewCollection
        } else if c == 'c' {
            Action::SidebarTabCollections
        } else if c == 'e' {
            Action::SidebarTabEnvironments
        } else {
            Action::NoAction
        },
        _ => Action::NoAction,
    }
}

/// Reads a sidebar binding.
pub fn parse_sidebar(key: Key, tab: SidebarTab) -> (r: Action)
    ensures
        r == sidebar_action(key, tab),
{
    let colls = tab == SidebarTab::Collections;
    match key.code {
        KeyCode::Down => Action::SidebarNext,
        KeyCode::Up => Action::SidebarPrev,
        KeyCode::Right => Action::SidebarExpand,
        KeyCode::Left => Action::SidebarCollapse,
        KeyCode::Enter => Action::SidebarLoad,
        KeyCode::Char(c) => if c == 'd' && colls {
            Action::SidebarDelete
        } else if c == 'n' && colls {
            Action::SidebarRename
        } else if c == 'i' && colls {
            Action::NewRequest
        } else if c == 'f' && colls {
            Action::NewCollection
        } else if c == 'c' {
            Action::SidebarTabCollections
        } else if c == 'e' {
            Action::SidebarTabEnvironments
        } else {
            Action::NoAction
        },
        _ => Action::NoAction,
    }
}

/// The URL bar bindings.
pub open spec fn urlbar_action(key: Key) -> Action {
    match key.code {
        KeyCode::Up => Action::CycleMethodPrev,
        KeyCode::Down => Action::CycleMethodNext,
        KeyCode::Char(c) => if c == 'u' {
            Action::EditUrl
        } else if c == 'm' {
            Action::CycleMethodNext
        } else if c == 'n' {
            Action::EditRequestName
        } else {
            Action::NoAction
        },
        KeyCode::Enter => Action::SendRequest,
        _ => Action::NoAction,
    }
}

/// Reads a URL bar binding.
pub fn parse_urlbar(key: Key) -> (r: Action)
    ensures
        r == urlbar_action(key),
{
    match key.code {
        KeyCode::Up => Action::CycleMethodPrev,
        KeyCode::Down => Action::CycleMethodNext,
        KeyCode::Char(c) => if c == 'u' {
            Action::EditUrl
        } else if c == 'm' {
            Action::CycleMethodNext
        } else if c == 'n' {
            Action::EditRequestName
        } else {
            Action::NoAction
        },
        KeyCode::Enter => Action::SendRequest,
        _ => Action::NoAction,
    }
}

/// The request tab bindings.
pub open spec fn request_tabs_action(key: Key, tab: RequestTab) -> Action {
    match key.code {
        KeyCode::Char(c) => if c == 'p' {
            Action::SwitchTabParams
        } else if c == 'h' {
            Action::SwitchTabHeaders
        } else if c == 'b' {
            Action::SwitchTabBody
        } else if c == 'a' {
            Action::SwitchTabAuth
        } else if c == 'i' || c == 'n' {
            Action::AddRow
        } else if c == 'd' {
            Action::DeleteRow
        } else if c == ' ' {
            Action::ToggleEnabled
        } else if c == 'e' {
            Action::EditKey
        } else if c == 'v' {
            Action::EditValue
        } else if c == 't' {
            match tab {
                RequestTab::Body => Action::CycleBodyType,
                RequestTab::Auth => Action::CycleAuthType,
                _ => Action::NoAction,
            }
        } else {
            Action::NoAction
        },
        KeyCode::Left => Action::TabPrev,
        KeyCode::Right => Action::TabNext,
        KeyCode::Up => Action::RowPrev,
        KeyCode::Down => Action::RowNext,
        _ => Action::NoAction,
    }
}

/// Reads a request tab binding.
pub fn parse_request_tabs(key: Key, tab: RequestTab) -> (r: Action)
    ensures
        r == request_tabs_action(key, tab),
{
    match key.code {
        KeyCode::Char(c) => if c == 'p' {
            Action::SwitchTabParams
        } else if c == 'h' {
            Action::SwitchTabHeaders
        } else if c == 'b' {
            Action::SwitchTabBody
        } else if c == 'a' {
            Action::SwitchTabAuth
        } else if c == 'i' || c == 'n' {
            Action::AddRow
        } else if c == 'd' {
            Action::DeleteRow
        } else if c == ' ' {
            Action::ToggleEnabled
        } else if c == 'e' {
            Action::EditKey
        } else if c == 'v' {
            Action::EditValue
        } else if c == 't' {
            match tab {
                RequestTab::Body => Action::CycleBodyType,
                RequestTab::Auth => Action::CycleAuthType,
                _ => Action::NoAction,
            }
        } else {
            Action::NoAction
        },
        KeyCode::Left => Action::TabPrev,
        KeyCode::Right => Action::TabNext,
        KeyCode::Up => Action::RowPrev,
        KeyCode::Down => Action::RowNext,
        _ => Action::NoAction,
    }
}

/// The response pane bindings.
pub open spec fn response_action(key: Key) -> Action {
    match key.code {
        KeyCode::Up => Action::ScrollUp,
        KeyCode::Down => Action::ScrollDown,
        KeyCode::PageUp => Action::PageUp,
        KeyCode::PageDown => Action::PageDown,
        KeyCode::Char(c) => if c == 'd' && key.ctrl {
            Action::ScrollHalfPageDown
        } else if c == 'u' && key.ctrl {
            Action::ScrollHalfPageUp
        } else if c == 'g' {
            Action::ScrollTop
        } else if c == 'G' {
            Action::ScrollBottom
        } else if c == 'y' {
            Action::CopyBody
        } else {
            Action::NoAction
        },
        KeyCode::Left => Action::ToggleResponseTab,
        KeyCode::Right => Action::ToggleResponseTab,
        _ => Action::NoAction,
    }
}

/// Reads a response pane binding.
pub fn parse_response(key: Key) -> (r: Action)
    ensures
        r == response_action(key),
{
    match key.code {
        KeyCode::Up => Action::ScrollUp,
        KeyCode::Down => Action::ScrollDown,
        KeyCode::PageUp => Action::PageUp,
        KeyCode::PageDown => Action::PageDown,
        KeyCode::Char(c) => if c == 'd' && key.ctrl {
            Action::ScrollHalfPageDown
        } else if c == 'u' && key.ctrl {
            Action::ScrollHalfPageUp
        } else if c == 'g' {
            Action::ScrollTop
        } else if c == 'G' {
            Action::ScrollBottom
        } else if c == 'y' {
            Action::CopyBody
        } else {
            Action::NoAction
        },
        KeyCode::Left => Action::ToggleResponseTab,
        KeyCode::Right => Action::ToggleResponseTab,
        _ => Action::NoAction,
    }
}

/// The binding of the focused pane, after the global ones.
pub open spec fn normal_action(key: Key, pane: ActivePane, stab: SidebarTab, rtab: RequestTab) -> Action {
    let g = global_action(key);
    if g != Action::NoAction {
        g
    } else {
        match pane {
            ActivePane::Sidebar => sidebar_action(key, stab),
            ActivePane::UrlBar => urlbar_action(key),
            ActivePane::RequestTabs => request_tabs_action(key, rtab),
            ActivePane::Response => response_action(key),
        }
    }
}

/// Reads the binding of the focused pane, after the global ones.
pub fn parse_normal(key: Key, pane: ActivePane, stab: SidebarTab, rtab: RequestTab) -> (r: Action)
    ensures
        r == normal_action(key, pane, stab, rtab),
{
    let g = parse_global(key);
    if g != Action::NoAction {
        return g;
    }
    match pane {
        ActivePane::Sidebar => parse_sidebar(key, stab),
        ActivePane::UrlBar => parse_urlbar(key),
        ActivePane::RequestTabs => parse_request_tabs(key, rtab),
        ActivePane::Response => parse_response(key),
    }
}

/// What a key asks for, and whether the window prefix is armed afterwards: with the prefix
/// armed, 1 to 4 choose a pane and any other key is read normally; otherwise the prefix key
/// arms it.
pub open spec fn key_action(
    key: Key,
    pane: ActivePane,
    stab: SidebarTab,
    rtab: RequestTab,
    pending_prefix: bool,
) -> (Action, bool) {
    if pending_prefix {
        match key.code {
            KeyCode::Char(c) => if '1' <= c <= '4' {
                (Action::SwitchPane(((c as u32) - 48) as u8), false)
            } else {
                (normal_action(key, pane, stab, rtab), false)
            },
            _ => (normal_action(key, pane, stab, rtab), false),
        }
    } else {
        let g = global_action(key);
        if g == Action::WindowPrefix {
            (Action::WindowPrefix, true)
        } else {
            (normal_action(key, pane, stab, rtab), false)
        }
    }
}

/// Reads a key press: the action and whether the window prefix stays armed.
pub fn parse(key: Key, pane: ActivePane, stab: SidebarTab, rtab: RequestTab, pending_prefix: bool) -> (r:
    (Action, bool))
    ensures
        r == key_action(key, pane, stab, rtab, pending_prefix),
{
    if pending_prefix {
        match key.code {
            KeyCode::Char(c) => {
                if c == '1' {
                    return (Action::SwitchPane(1), false);
                } else if c == '2' {
                    return (Action::SwitchPane(2), false);
                } else if c == '3' {
                    return (Action::SwitchPane(3), false);
                } else if c == '4' {
                    return (Action::SwitchPane(4), false);
                }
            },
            _ => {},
        }
        return (parse_normal(key, pane, stab, rtab), false);
    }
    let g = parse_global(key);
    if g == Action::WindowPrefix {
        return (Action::WindowPrefix, true);
    }
    (parse_normal(key, pane, stab, rtab), false)
}

/// The help line for where the focus is.
pub fn help_text(pane: ActivePane, stab: SidebarTab, rtab: RequestTab, pending_prefix: bool) -> (r:
    &'static str)
    ensures
        pending_prefix ==> r@ == "Press 1/2/3/4 to switch pane │ Enter=send │ Ctrl+Q=quit"@,
        !pending_prefix ==> r@ == match pane {
            ActivePane::Sidebar => if stab == SidebarTab::Collections {
                "x+1/2/3/4 switch pane │ Enter load │ d delete │ n rename │ i new req │ f new coll │ →/← expand │ c=coll │ e=env"@
            } else {
                "x+1/2/3/4 switch pane │ Enter activate │ ↑/↓ navigate │ c=coll │ e=env"@
            },
            ActivePane::UrlBar => "m/↑/↓ method │ u URL │ n name │ Enter send │ Tab next"@,
            ActivePane::RequestTabs => match rtab {
                RequestTab::Params => "n/i add │ ↑/↓ select │ d delete │ Space toggle │ e/v edit │ ←/→ tab"@,
                RequestTab::Headers => "n/i add │ ↑/↓ select │ d delete │ Space toggle │ e/v cycle │ ←/→ tab"@,
                RequestTab::Body => "t cycle type │ e edit body │ ←/→ tab"@,
                RequestTab::Auth => "t cycle type │ e edit token │ ←/→ tab"@,
            },
            ActivePane::Response => "↑/↓ scroll │ PgUp/PgDn page │ y copy │ ←/→ tab"@,
        },
{
    if pending_prefix {
        return "Press 1/2/3/4 to switch pane │ Enter=send │ Ctrl+Q=quit";
    }
    match pane {
        ActivePane::Sidebar => if stab == SidebarTab::Collections {
            "x+1/2/3/4 switch pane │ Enter load │ d delete │ n rename │ i new req │ f new coll │ →/← expand │ c=coll │ e=env"
        } else {
            "x+1/2/3/4 switch pane │ Enter activate │ ↑/↓ navigate │ c=coll │ e=env"
        },
        ActivePane::UrlBar => "m/↑/↓ method │ u URL │ n name │ Enter send │ Tab next",
        ActivePane::RequestTabs => match rtab {
            RequestTab::Params => "n/i add │ ↑/↓ select │ d delete │ Space toggle │ e/v edit │ ←/→ tab",
            RequestTab::Headers => "n/i add │ ↑/↓ select │ d delete │ Space toggle │ e/v cycle │ ←/→ tab",
            RequestTab::Body => "t cycle type │ e edit body │ ←/→ tab",
            RequestTab::Auth => "t cycle type │ e edit token │ ←/→ tab",
        },
        ActivePane::Response => "↑/↓ scroll │ PgUp/PgDn page │ y copy │ ←/→ tab",
    }
}

} // verus!
