//! How a key press changes the state of the interface.
//!
//! What a key asks of the outside world (copying text, writing an export, quitting) is
//! returned as an [`Effect`] for the caller to carry out.
use vstd::prelude::*;

use crate::config::WINDOW_PREFIX_TIMEOUT_TICKS;
use crate::text::{copy_str, str_before, str_less, utf8_len};
use crate::models::{AuthView, Collection, KeyValueView, RequestView};
use crate::tui::app::{
    all_ids, clamp_selection, common_headers, default_header_value, field_text, header_presets,
    lemma_rows_within_total, next_body_type, next_in, next_method, next_pane, other_id,
    prev_method, prev_pane, remove_id, row_position, ActivePane, App, DialogType, EditingField,
    InputMode, RequestTab, ResponseTab, SidebarRow, SidebarTab, delete_asked, load_selected_done,
    saved_request, selected_request_row, apply_edit, char_pos, DeleteTarget, MAX_TICK,
};
use crate::text::{char_utf8_len, is_char_boundary_at, replace};
use crate::models::empty_request;
use crate::cli::find_collection_from;
use crate::tui::shortcuts::{help_text, key_action, parse, Action, Key, KeyCode};

verus! {

/// What the caller has to do after a key press.
#[derive(Debug, Clone, PartialEq, Eq)]
pub enum Effect {
    NoEffect,
    /// Stop the interface.
    Quit,
    /// Put this text on the clipboard, then report with `App::copy_done`.
    Copy(String),
    /// Export collection `collection` (as Postman when `postman`) into the file `file_name`,
    /// then report with `App::export_done`.
    Export { collection: usize, postman: bool, file_name: String },
}

/// The action a key stands for in the state `a`, and whether the window prefix stays armed.
pub open spec fn pressed(a: App, key: Key) -> (Action, bool) {
    key_action(key, a.active_pane, a.sidebar_tab, a.request_tab, a.pending_window_prefix)
}

/// The pane that `F1`..`F4` (or the prefix and `1`..`4`) chooses.
pub open spec fn numbered_pane(n: u8) -> ActivePane {
    if n == 1 {
        ActivePane::Sidebar
    } else if n == 2 {
        ActivePane::UrlBar
    } else if n == 3 {
        ActivePane::RequestTabs
    } else {
        ActivePane::Response
    }
}

/// The request tab after `t`, cyclically.
pub open spec fn next_tab(t: RequestTab) -> RequestTab {
    match t {
        RequestTab::Params => RequestTab::Headers,
        RequestTab::Headers => RequestTab::Body,
        RequestTab::Body => RequestTab::Auth,
        RequestTab::Auth => RequestTab::Params,
    }
}

/// The request tab before `t`, cyclically.
pub open spec fn prev_tab(t: RequestTab) -> RequestTab {
    match t {
        RequestTab::Params => RequestTab::Auth,
        RequestTab::Headers => RequestTab::Params,
        RequestTab::Body => RequestTab::Headers,
        RequestTab::Auth => RequestTab::Body,
    }
}

/// The response scroll line after a scroll action, saturating at both ends.
pub open spec fn scrolled(line: u16, act: Action) -> u16 {
    match act {
        Action::ScrollUp => if line >= 1 { (line - 1) as u16 } else { 0 },
        Action::ScrollDown => if line + 1 <= u16::MAX { (line + 1) as u16 } else { u16::MAX },
        Action::PageUp => if line >= 10 { (line - 10) as u16 } else { 0 },
        Action::PageDown => if line + 10 <= u16::MAX { (line + 10) as u16 } else { u16::MAX },
        Action::ScrollHalfPageUp => if line >= 20 { (line - 20) as u16 } else { 0 },
        Action::ScrollHalfPageDown => if line + 20 <= u16::MAX { (line + 20) as u16 } else { u16::MAX },
        Action::ScrollTop => 0,
        Action::ScrollBottom => u16::MAX,
        _ => line,
    }
}

/// The actions that move the response view.
pub open spec fn is_scroll(act: Action) -> bool {
    ||| act == Action::ScrollUp
    ||| act == Action::ScrollDown
    ||| act == Action::PageUp
    ||| act == Action::PageDown
    ||| act == Action::ScrollHalfPageUp
    ||| act == Action::ScrollHalfPageDown
    ||| act == Action::ScrollTop
    ||| act == Action::ScrollBottom
}

/// The selected row as a collection title: its collection.
pub open spec fn selected_title(a: App) -> Option<nat> {
    if a.sidebar_tab == SidebarTab::Collections && a.sidebar_selected < a.rows().len() {
        match a.rows()[a.sidebar_selected as int] {
            SidebarRow::Collection(ci) => Some(ci),
            SidebarRow::Request(_, _) => None,
        }
    } else {
        None
    }
}

/// What the actions that only move, switch or toggle do to the state `a`.
pub open spec fn simple_action_result(a: App, act: Action) -> App {
    match act {
        Action::SwitchPane(n) => if 1 <= n <= 4 {
            App { active_pane: numbered_pane(n), ..a }
        } else {
            a
        },
        Action::NextPane => App { active_pane: next_pane(a.active_pane), ..a },
        Action::PrevPane => App { active_pane: prev_pane(a.active_pane), ..a },
        Action::WindowPrefix => App {
            pending_window_prefix: true,
            pending_window_expiry: (a.tick + WINDOW_PREFIX_TIMEOUT_TICKS) as u64,
            ..a
        },
        Action::Quit => App { running: false, ..a },
        Action::SendRequest => App { pending_send: true, ..a },
        Action::SidebarTabCollections => App { sidebar_tab: SidebarTab::Collections, ..a },
        Action::SidebarTabEnvironments => App { sidebar_tab: SidebarTab::Environments, ..a },
        Action::SwitchTabParams => App { request_tab: RequestTab::Params, ..a },
        Action::SwitchTabHeaders => App { request_tab: RequestTab::Headers, ..a },
        Action::SwitchTabBody => App { request_tab: RequestTab::Body, ..a },
        Action::SwitchTabAuth => App { request_tab: RequestTab::Auth, ..a },
        Action::TabNext => App { request_tab: next_tab(a.request_tab), ..a },
        Action::TabPrev => App { request_tab: prev_tab(a.request_tab), ..a },
        _ => if is_scroll(act) {
            App { response_scroll: (a.response_scroll.0, scrolled(a.response_scroll.1, act)), ..a }
        } else {
            a
        },
    }
}

/// The actions `simple_action_result` describes.
pub open spec fn is_simple(act: Action) -> bool {
    ||| act is SwitchPane
    ||| act == Action::NextPane
    ||| act == Action::PrevPane
    ||| act == Action::WindowPrefix
    ||| act == Action::Quit
    ||| act == Action::SendRequest
    ||| act == Action::SidebarTabCollections
    ||| act == Action::SidebarTabEnvironments
    ||| act == Action::SwitchTabParams
    ||| act == Action::SwitchTabHeaders
    ||| act == Action::SwitchTabBody
    ||| act == Action::SwitchTabAuth
    ||| act == Action::TabNext
    ||| act == Action::TabPrev
    ||| is_scroll(act)
    ||| act == Action::NoAction
    ||| act == Action::SidebarRename
}

/// Carries out an action that only moves, switches or toggles.
#[verifier::rlimit(60)]
fn apply_simple_action(app: &mut App, act: Action)
    requires
        old(app).within_limits(),
        is_simple(act),
    ensures
        *final(app) == simple_action_result(*old(app), act),
        final(app).within_limits(),
{
    match act {
        Action::SwitchPane(n) => {
            if n == 1 {
                app.active_pane = ActivePane::Sidebar;
            } else if n == 2 {
                app.active_pane = ActivePane::UrlBar;
            } else if n == 3 {
                app.active_pane = ActivePane::RequestTabs;
            } else if n == 4 {
                app.active_pane = ActivePane::Response;
            }
        },
        Action::NextPane => app.move_focus_next(),
        Action::PrevPane => app.move_focus_prev(),
        Action::WindowPrefix => app.activate_window_prefix(),
        Action::Quit => app.running = false,
        Action::SendRequest => app.pending_send = true,
        Action::SidebarTabCollections => app.sidebar_tab = SidebarTab::Collections,
        Action::SidebarTabEnvironments => app.sidebar_tab = SidebarTab::Environments,
        Action::SwitchTabParams | Action::SwitchTabHeaders | Action::SwitchTabBody
        | Action::SwitchTabAuth | Action::TabNext | Action::TabPrev => switch_request_tab(app, act),
        Action::ScrollUp | Action::ScrollDown | Action::PageUp | Action::PageDown
        | Action::ScrollHalfPageUp | Action::ScrollHalfPageDown | Action::ScrollTop
        | Action::ScrollBottom => scroll_response(app, act),
        _ => {},
    }
}

/// Switches the request tab.
fn switch_request_tab(app: &mut App, act: Action)
    ensures
        *final(app) == (App {
            request_tab: match act {
                Action::SwitchTabParams => RequestTab::Params,
                Action::SwitchTabHeaders => RequestTab::Headers,
                Action::SwitchTabBody => RequestTab::Body,
                Action::SwitchTabAuth => RequestTab::Auth,
                Action::TabNext => next_tab(old(app).request_tab),
                Action::TabPrev => prev_tab(old(app).request_tab),
                _ => old(app).request_tab,
            },
            ..*old(app)
        }),
{
    let t = app.request_tab;
    app.request_tab = match act {
        Action::SwitchTabParams => RequestTab::Params,
        Action::SwitchTabHeaders => RequestTab::Headers,
        Action::SwitchTabBody => RequestTab::Body,
        Action::SwitchTabAuth => RequestTab::Auth,
        Action::TabNext => match t {
            RequestTab::Params => RequestTab::Headers,
            RequestTab::Headers => RequestTab::Body,
            RequestTab::Body => RequestTab::Auth,
            RequestTab::Auth => RequestTab::Params,
        },
        Action::TabPrev => match t {
            RequestTab::Params => RequestTab::Auth,
            RequestTab::Headers => RequestTab::Params,
            RequestTab::Body => RequestTab::Headers,
            RequestTab::Auth => RequestTab::Body,
        },
        _ => t,
    };
}

/// Moves the response view.
fn scroll_response(app: &mut App, act: Action)
    requires
        is_scroll(act),
    ensures
        *final(app) == (App {
            response_scroll: (old(app).response_scroll.0, scrolled(old(app).response_scroll.1, act)),
            ..*old(app)
        }),
{
    let line = app.response_scroll.1;
    let new_line = match act {
        Action::ScrollUp => line.saturating_sub(1),
        Action::ScrollDown => line.saturating_add(1),
        Action::PageUp => line.saturating_sub(10),
        Action::PageDown => line.saturating_add(10),
        Action::ScrollHalfPageUp => line.saturating_sub(20),
        Action::ScrollHalfPageDown => line.saturating_add(20),
        Action::ScrollTop => 0,
        Action::ScrollBottom => u16::MAX,
        _ => line,
    };
    app.response_scroll.1 = new_line;
}

/// A new row: empty and disabled.
pub open spec fn blank_row() -> KeyValueView {
    KeyValueView { key: Seq::empty(), value: Seq::empty(), enabled: false }
}

/// The selection one row down: the first row when none is selected, unchanged on the last.
pub open spec fn next_row(sel: Option<usize>, n: nat) -> Option<usize> {
    match sel {
        Some(i) => if i + 1 < n {
            Some((i + 1) as usize)
        } else {
            sel
        },
        None => if n > 0 {
            Some(0usize)
        } else {
            None
        },
    }
}

/// The selection one row up, unchanged on the first row.
pub open spec fn prev_row(sel: Option<usize>) -> Option<usize> {
    match sel {
        Some(i) => if i > 0 {
            Some((i - 1) as usize)
        } else {
            sel
        },
        None => None,
    }
}

/// The rows and the selection after a row action on the parameter or header table.
pub open spec fn rows_after(rows: Seq<KeyValueView>, sel: Option<usize>, act: Action, headers: bool) -> (
    Seq<KeyValueView>,
    Option<usize>,
) {
    match act {
        Action::AddRow => (rows.push(blank_row()), Some(rows.len() as usize)),
        Action::DeleteRow => match sel {
            Some(i) => if i < rows.len() {
                (rows.remove(i as int), Some(clamp_selection(sel, (rows.len() - 1) as nat)))
            } else {
                (rows, sel)
            },
            None => (rows, sel),
        },
        Action::RowNext => (rows, next_row(sel, rows.len())),
        Action::RowPrev => (rows, prev_row(sel)),
        Action::ToggleEnabled => match sel {
            Some(i) => if i < rows.len() {
                (rows.update(i as int, KeyValueView { enabled: !rows[i as int].enabled, ..rows[i as int] }), sel)
            } else {
                (rows, sel)
            },
            None => (rows, sel),
        },
        Action::EditKey => match sel {
            Some(i) => if headers && i < rows.len() {
                let name = next_in(common_headers(), rows[i as int].key);
                (rows.update(i as int, KeyValueView { key: name, value: default_header_value(name), ..rows[i as int] }), sel)
            } else {
                (rows, sel)
            },
            None => (rows, sel),
        },
        Action::EditValue => match sel {
            Some(i) => if headers && i < rows.len() {
                let h = rows[i as int];
                (rows.update(i as int, KeyValueView { value: next_in(header_presets(h.key), h.value), ..h }), sel)
            } else {
                (rows, sel)
            },
            None => (rows, sel),
        },
        _ => (rows, sel),
    }
}

/// The field an editing action starts on, in the state `a`; `None` when the action edits in
/// place or does nothing there.
pub open spec fn field_to_edit(a: App, act: Action) -> Option<EditingField> {
    match act {
        Action::EditUrl => Some(EditingField::Url),
        Action::EditRequestName => Some(EditingField::RequestName),
        Action::EditKey => match a.request_tab {
            RequestTab::Params => match a.param_selected {
                Some(i) => Some(EditingField::ParamKey(i)),
                None => None,
            },
            RequestTab::Body => Some(EditingField::Body),
            RequestTab::Auth => Some(EditingField::AuthToken),
            RequestTab::Headers => None,
        },
        Action::EditValue => match a.request_tab {
            RequestTab::Params => match a.param_selected {
                Some(i) => Some(EditingField::ParamValue(i)),
                None => None,
            },
            _ => None,
        },
        _ => None,
    }
}

/// Editing of field `f` started from `a`: the buffer holds the field's text, the cursor is at
/// its end, and nothing else changed.
pub open spec fn started_editing(a: App, b: App, f: EditingField) -> bool {
    &&& b.edit_buffer@ == field_text(a.current_request@, f)
    &&& b.cursor_pos == utf8_len(b.edit_buffer@)
    &&& b == (App {
        input_mode: InputMode::Editing,
        editing_field: Some(f),
        edit_buffer: b.edit_buffer,
        cursor_pos: b.cursor_pos,
        ..a
    })
}

/// The actions that edit the current request.
pub open spec fn is_request_action(act: Action) -> bool {
    ||| act == Action::CycleMethodNext
    ||| act == Action::CycleMethodPrev
    ||| act == Action::EditUrl
    ||| act == Action::EditRequestName
    ||| act == Action::AddRow
    ||| act == Action::DeleteRow
    ||| act == Action::ToggleEnabled
    ||| act == Action::RowNext
    ||| act == Action::RowPrev
    ||| act == Action::EditKey
    ||| act == Action::EditValue
    ||| act == Action::CycleBodyType
    ||| act == Action::CycleAuthType
}

/// What a request-editing action does to the state `a`, when it starts no editing.
pub open spec fn request_action_done(a: App, b: App, act: Action) -> bool {
    let r = a.current_request@;
    match act {
        Action::CycleMethodNext => b.current_request@ == (RequestView { method: next_method(r.method), ..r })
            && b == (App { current_request: b.current_request, ..a }),
        Action::CycleMethodPrev => b.current_request@ == (RequestView { method: prev_method(r.method), ..r })
            && b == (App { current_request: b.current_request, ..a }),
        Action::CycleBodyType => b.current_request@ == (RequestView { body_type: next_body_type(r.body_type), ..r })
            && b == (App { current_request: b.current_request, ..a }),
        Action::CycleAuthType => b.current_request@ == (RequestView {
            auth: match r.auth {
                AuthView::NoAuth => AuthView::Bearer { token: Seq::empty() },
                AuthView::Bearer { token: _ } => AuthView::Basic { username: Seq::empty(), password: Seq::empty() },
                AuthView::Basic { username: _, password: _ } => AuthView::NoAuth,
            },
            ..r
        }) && b == (App { current_request: b.current_request, ..a }),
        _ => match a.request_tab {
            RequestTab::Params => {
                let (rows, sel) = rows_after(r.params, a.param_selected, act, false);
                &&& b.current_request@ == (RequestView { params: rows, ..r })
                &&& b == (App { current_request: b.current_request, param_selected: sel, ..a })
            },
            RequestTab::Headers => {
                let (rows, sel) = rows_after(r.headers, a.header_selected, act, true);
                &&& b.current_request@ == (RequestView { headers: rows, ..r })
                &&& b == (App { current_request: b.current_request, header_selected: sel, ..a })
            },
            _ => b == a,
        },
    }
}

/// The selection one row down: see `next_row`.
fn next_row_exec(sel: Option<usize>, n: usize) -> (r: Option<usize>)
    ensures
        r == next_row(sel, n as nat),
{
    match sel {
        Some(i) => if i < n && i + 1 < n {
            Some(i + 1)
        } else {
            sel
        },
        None => if n > 0 {
            Some(0)
        } else {
            None
        },
    }
}

/// The selection one row up: see `prev_row`.
fn prev_row_exec(sel: Option<usize>) -> (r: Option<usize>)
    ensures
        r == prev_row(sel),
{
    match sel {
        Some(i) => if i > 0 {
            Some(i - 1)
        } else {
            sel
        },
        None => None,
    }
}

/// Carries out an action that edits the current request.
#[verifier::rlimit(60)]
fn apply_request_action(app: &mut App, act: Action)
    requires
        old(app).within_limits(),
        is_request_action(act),
    ensures
        final(app).within_limits(),
        field_to_edit(*old(app), act) matches Some(f) ==> if utf8_len(field_text(old(app).current_request@, f)) < usize::MAX - 8 {
            started_editing(*old(app), *final(app), f)
        } else {
            *final(app) == *old(app)
        },
        field_to_edit(*old(app), act) is None ==> request_action_done(*old(app), *final(app), act),
{
    match act {
        Action::CycleMethodNext => app.cycle_method(),
        Action::CycleMethodPrev => app.cycle_method_prev(),
        Action::CycleBodyType => app.cycle_body_type(),
        Action::CycleAuthType => app.cycle_auth_type(),
        Action::EditUrl => start_editing_if_fits(app, EditingField::Url),
        Action::EditRequestName => start_editing_if_fits(app, EditingField::RequestName),
        Action::AddRow => match app.request_tab {
            RequestTab::Params => app.add_param(),
            RequestTab::Headers => app.add_header(),
            _ => {},
        },
        Action::DeleteRow => match app.request_tab {
            RequestTab::Params => {
                if let Some(i) = app.param_selected {
                    app.remove_param(i);
                }
            },
            RequestTab::Headers => {
                if let Some(i) = app.header_selected {
                    app.remove_header(i);
                }
            },
            _ => {},
        },
        Action::RowNext => match app.request_tab {
            RequestTab::Params => {
                app.param_selected = next_row_exec(app.param_selected, app.current_request.params.len());
            },
            RequestTab::Headers => {
                app.header_selected = next_row_exec(app.header_selected, app.current_request.headers.len());
            },
            _ => {},
        },
        Action::RowPrev => match app.request_tab {
            RequestTab::Params => {
                app.param_selected = prev_row_exec(app.param_selected);
            },
            RequestTab::Headers => {
                app.header_selected = prev_row_exec(app.header_selected);
            },
            _ => {},
        },
        Action::ToggleEnabled => match app.request_tab {
            RequestTab::Params => {
                if let Some(i) = app.param_selected {
                    app.toggle_param(i);
                }
            },
            RequestTab::Headers => {
                if let Some(i) = app.header_selected {
                    app.toggle_header(i);
                }
            },
            _ => {},
        },
        Action::EditKey => match app.request_tab {
            RequestTab::Params => {
                if let Some(i) = app.param_selected {
                    start_editing_if_fits(app, EditingField::ParamKey(i));
                }
            },
            RequestTab::Headers => {
                if let Some(i) = app.header_selected {
                    app.cycle_header_key(i);
                }
            },
            RequestTab::Body => start_editing_if_fits(app, EditingField::Body),
            RequestTab::Auth => start_editing_if_fits(app, EditingField::AuthToken),
        },
        Action::EditValue => match app.request_tab {
            RequestTab::Params => {
                if let Some(i) = app.param_selected {
                    start_editing_if_fits(app, EditingField::ParamValue(i));
                }
            },
            RequestTab::Headers => {
                if let Some(i) = app.header_selected {
                    app.cycle_header_value(i);
                }
            },
            _ => {},
        },
        _ => {},
    }
}

/// Starts editing a field, unless its text is too long to be counted in the edit buffer.
fn start_editing_if_fits(app: &mut App, f: EditingField)
    requires
        old(app).within_limits(),
    ensures
        final(app).within_limits(),
        if utf8_len(field_text(old(app).current_request@, f)) < usize::MAX - 8 {
            started_editing(*old(app), *final(app), f)
        } else {
            *final(app) == *old(app)
        },
{
    if app.field_fits(f) {
        app.start_editing(f);
        assert(app.edit_buffer@.take(app.edit_buffer@.len() as int) =~= app.edit_buffer@);
    }
}

/// The sidebar selection after moving down one row, wrapping around.
pub open spec fn next_index(a: App) -> usize {
    if a.item_count() > 0 {
        ((a.sidebar_selected + 1) % a.item_count() as int) as usize
    } else {
        a.sidebar_selected
    }
}

/// The sidebar selection after moving up one row, wrapping around.
pub open spec fn prev_index(a: App) -> usize {
    if a.item_count() > 0 {
        ((a.sidebar_selected + a.item_count() - 1) % a.item_count() as int) as usize
    } else {
        a.sidebar_selected
    }
}

/// The actions of the sidebar.
pub open spec fn is_sidebar_action(act: Action) -> bool {
    ||| act == Action::SidebarNext
    ||| act == Action::SidebarPrev
    ||| act == Action::SidebarExpand
    ||| act == Action::SidebarCollapse
    ||| act == Action::SidebarLoad
    ||| act == Action::SidebarDelete
}

/// What a sidebar action does to the state `a`.
pub open spec fn sidebar_action_done(a: App, b: App, act: Action) -> bool {
    match act {
        Action::SidebarNext => load_selected_done(App { sidebar_selected: next_index(a), ..a }, b),
        Action::SidebarPrev => load_selected_done(App { sidebar_selected: prev_index(a), ..a }, b),
        Action::SidebarExpand => match selected_title(a) {
            Some(ci) => {
                let id = a.data.collections@[ci as int].id@;
                &&& b.expanded_ids() == if a.expanded_ids().contains(id) {
                    a.expanded_ids()
                } else {
                    a.expanded_ids().push(id)
                }
                &&& b == (App { collection_expanded: b.collection_expanded, ..a })
            },
            None => b == a,
        },
        Action::SidebarCollapse => match selected_title(a) {
            Some(ci) => {
                &&& b.expanded_ids() == a.expanded_ids().filter(other_id(a.data.collections@[ci as int].id@))
                &&& b == (App { collection_expanded: b.collection_expanded, ..a })
            },
            None => b == a,
        },
        Action::SidebarLoad => match a.sidebar_tab {
            SidebarTab::Collections => if selected_request_row(a) {
                load_selected_done(a, App { active_pane: a.active_pane, ..b }) && b.active_pane
                    == ActivePane::UrlBar
            } else {
                b == a
            },
            SidebarTab::Environments => if a.sidebar_selected < a.data.environments@.len() {
                let env = a.data.environments@[a.sidebar_selected as int];
                &&& b.data.active_env_id matches Some(id) && id@ == env.id@
                &&& b.status_message matches Some((m, _)) && m@ == "Activated environment '"@ + env.name@
                    + "'"@
                &&& b == (App {
                    data: crate::models::AppData { active_env_id: b.data.active_env_id, ..a.data },
                    needs_save: true,
                    status_message: b.status_message,
                    ..a
                })
            } else {
                b == a
            },
        },
        Action::SidebarDelete => delete_asked(a, b),
        _ => b == a,
    }
}

/// Carries out a sidebar action.
#[verifier::rlimit(60)]
fn apply_sidebar_action(app: &mut App, act: Action)
    requires
        old(app).within_limits(),
        is_sidebar_action(act),
    ensures
        final(app).within_limits(),
        sidebar_action_done(*old(app), *final(app), act),
{
    match act {
        Action::SidebarNext => {
            app.next_sidebar_item();
            app.try_load_selected_collection_request();
        },
        Action::SidebarPrev => {
            app.prev_sidebar_item();
            app.try_load_selected_collection_request();
        },
        Action::SidebarExpand => {
            if let Some(ci) = app.get_selected_collection_index() {
                let id = app.data.collections[ci].id.clone();
                if !app.is_expanded_id(id.as_str()) {
                    let ghost e0 = app.collection_expanded;
                    app.collection_expanded.push(id);
                    proof {
                        crate::text::lemma_deep_view_push(e0, app.collection_expanded, id);
                    }
                }
                proof {
                    lemma_rows_within_total(app.data.collections@, app.expanded_ids());
                }
            }
        },
        Action::SidebarCollapse => {
            if let Some(ci) = app.get_selected_collection_index() {
                let id = app.data.collections[ci].id.clone();
                app.collection_expanded = remove_id(&app.collection_expanded, id.as_str());
                proof {
                    lemma_rows_within_total(app.data.collections@, app.expanded_ids());
                }
            }
        },
        Action::SidebarLoad => match app.sidebar_tab {
            SidebarTab::Collections => {
                if app.try_load_selected_collection_request() {
                    app.active_pane = ActivePane::UrlBar;
                }
            },
            SidebarTab::Environments => {
                let sel = app.sidebar_selected;
                app.activate_environment(sel);
            },
        },
        Action::SidebarDelete => {
            app.delete_selected_item();
            proof {
                if app.dialog_type == DialogType::DeleteConfirm {
                    assert(utf8_len(app.dialog_buffer@.take(0)) == 0);
                }
            }
        },
        _ => {},
    }
}

/// `x` placed before the first pair whose name does not come before its name.
pub open spec fn insert_by_name(s: Seq<(Seq<char>, Seq<char>)>, x: (Seq<char>, Seq<char>)) -> Seq<
    (Seq<char>, Seq<char>),
>
    decreases s.len(),
{
    if s.len() == 0 {
        seq![x]
    } else if !str_before(s[0].0, x.0) {
        seq![x] + s
    } else {
        seq![s[0]] + insert_by_name(s.drop_first(), x)
    }
}

/// The pairs ordered by name; pairs with the same name keep their order.
pub open spec fn sort_by_name(s: Seq<(Seq<char>, Seq<char>)>) -> Seq<(Seq<char>, Seq<char>)>
    decreases s.len(),
{
    if s.len() == 0 {
        s
    } else {
        insert_by_name(sort_by_name(s.drop_first()), s[0])
    }
}

/// The pairs ordered by name, pairs with the same name keeping their order.
pub fn sort_pairs_by_name(v: &Vec<(String, String)>) -> (r: Vec<(String, String)>)
    ensures
        r.deep_view() == sort_by_name(v.deep_view()),
{
    let ghost s = v.deep_view();
    let mut out: Vec<(String, String)> = Vec::new();
    let mut k: usize = v.len();
    assert(s.skip(s.len() as int) =~= Seq::<(Seq<char>, Seq<char>)>::empty());
    assert(out.deep_view() =~= Seq::<(Seq<char>, Seq<char>)>::empty());
    while k > 0
        invariant
            k <= v.len(),
            s == v.deep_view(),
            out.deep_view() == sort_by_name(s.skip(k as int)),
        decreases k,
    {
        k = k - 1;
        let x = (v[k as usize].0.clone(), v[k as usize].1.clone());
        assert(x.deep_view() == s[k as int]);
        assert(s.skip(k as int).drop_first() =~= s.skip(k + 1));
        assert(s.skip(k as int)[0] == s[k as int]);
        let ghost o = out.deep_view();
        let mut j: usize = 0;
        assert(o.skip(0) =~= o);
        assert(o.take(0) + insert_by_name(o, x.deep_view()) =~= insert_by_name(o, x.deep_view()));
        while j < out.len() && str_less(out[j].0.as_str(), x.0.as_str())
            invariant
                j <= out.len(),
                out.deep_view() == o,
                insert_by_name(o, x.deep_view()) == o.take(j as int) + insert_by_name(
                    o.skip(j as int),
                    x.deep_view(),
                ),
            decreases out.len() - j,
        {
            proof {
                let t = o.skip(j as int);
                assert(t[0] == o[j as int]);
                assert(t.drop_first() =~= o.skip(j + 1));
                assert(o.take(j + 1) =~= o.take(j as int).push(o[j as int]));
                assert(o.take(j as int) + (seq![o[j as int]] + insert_by_name(o.skip(j + 1), x.deep_view()))
                    =~= o.take(j + 1) + insert_by_name(o.skip(j + 1), x.deep_view()));
            }
            j = j + 1;
        }
        proof {
            let t = o.skip(j as int);
            if j < o.len() {
                assert(t[0] == o[j as int]);
                assert(insert_by_name(t, x.deep_view()) == seq![x.deep_view()] + t);
            } else {
                assert(t =~= Seq::<(Seq<char>, Seq<char>)>::empty());
            }
        }
        out.insert(j, x);
        proof {
            let t = o.skip(j as int);
            assert(out.deep_view() =~= o.take(j as int) + (seq![x.deep_view()] + t));
            if j >= o.len() {
                assert(insert_by_name(t, x.deep_view()) =~= seq![x.deep_view()]);
            }
        }
    }
    assert(s.skip(0) =~= s);
    out
}

/// One header as a line of text.
pub open spec fn header_line(p: (Seq<char>, Seq<char>)) -> Seq<char> {
    p.0 + ": "@ + p.1
}

/// The headers as text: one `name: value` line each, ordered by name.
pub open spec fn headers_text(headers: Seq<(Seq<char>, Seq<char>)>) -> Seq<char> {
    crate::text::join(sort_by_name(headers).map_values(|p: (Seq<char>, Seq<char>)| header_line(p)), "\n"@)
}

/// The headers as text: one `name: value` line each, ordered by name.
pub fn format_headers(headers: &Vec<(String, String)>) -> (r: String)
    ensures
        r@ == headers_text(headers.deep_view()),
{
    let sorted = sort_pairs_by_name(headers);
    let mut lines: Vec<String> = Vec::new();
    let mut i: usize = 0;
    let ghost sv = sorted.deep_view();
    while i < sorted.len()
        invariant
            i <= sorted.len(),
            sv == sorted.deep_view(),
            lines.deep_view() == sv.take(i as int).map_values(|p: (Seq<char>, Seq<char>)| header_line(p)),
        decreases sorted.len() - i,
    {
        let mut line = copy_str(sorted[i].0.as_str());
        crate::text::push_str(&mut line, ": ");
        crate::text::push_str(&mut line, sorted[i].1.as_str());
        let ghost l0 = lines;
        lines.push(line);
        proof {
            crate::text::lemma_deep_view_push(l0, lines, line);
            assert(sv.take(i + 1).map_values(|p: (Seq<char>, Seq<char>)| header_line(p)) =~= sv.take(
                i as int,
            ).map_values(|p: (Seq<char>, Seq<char>)| header_line(p)).push(header_line(sv[i as int])));
        }
        i = i + 1;
    }
    assert(sv.take(i as int) =~= sv);
    crate::text::join_strings(&lines, "\n")
}

/// The help line the `?` key shows.
pub const HELP_MESSAGE: &'static str = "Shortcuts: Tab=focus | Ctrl+1-4 or x+1-4=pane | 1/2/3=collections/history/envs | u=url | m=method | Enter=send | n=name | d=del | e=edit | v=edit value | i=new req | f/Ctrl+N=new coll | Ctrl+S=save | Ctrl+E=export | Ctrl+R=history | ?=help";

/// The question Ctrl+S asks.
pub const SAVE_PROMPT: &'static str = "Save to collection (name or id):";

/// The title of the history dialog.
pub const HISTORY_TITLE: &'static str = "历史记录 (j/k 选择, Enter 加载, Esc 取消):";

/// The actions handled by `apply_global_action`.
pub open spec fn is_global_action(act: Action) -> bool {
    ||| act == Action::SaveRequest
    ||| act == Action::ExportCollection
    ||| act == Action::NewCollection
    ||| act == Action::NewRequest
    ||| act == Action::ShowHelp
    ||| act == Action::ShowHistory
    ||| act == Action::ShowBookmarks
    ||| act == Action::CopyBody
    ||| act == Action::ToggleResponseTab
}

/// A dialog of type `t` with message `m` was opened from `a`.
pub open spec fn dialog_opened(a: App, b: App, t: DialogType, m: Seq<char>) -> bool {
    &&& b.dialog_message@ == m
    &&& b.dialog_buffer@.len() == 0
    &&& b == (App {
        dialog_type: t,
        dialog_message: b.dialog_message,
        dialog_buffer: b.dialog_buffer,
        dialog_cursor: 0,
        input_mode: InputMode::Editing,
        ..a
    })
}

/// Only the status line changed from `a`, to `m`.
pub open spec fn status_shown(a: App, b: App, m: Seq<char>) -> bool {
    &&& b.status_message matches Some((t, _)) && t@ == m
    &&& b == (App { status_message: b.status_message, ..a })
}

/// What the text copied for the response is: its body, or its headers on the headers tab.
pub open spec fn copy_text(a: App) -> Seq<char> {
    match a.response {
        Some(resp) => match a.response_tab {
            ResponseTab::Body => resp.body@,
            ResponseTab::Headers => headers_text(resp.headers.deep_view()),
        },
        None => Seq::empty(),
    }
}

/// What a global action does to the state `a`, and what it asks of the caller.
pub open spec fn global_action_done(a: App, b: App, act: Action, e: Effect) -> bool {
    &&& (act != Action::CopyBody ==> e == Effect::NoEffect)
    &&& match act {
        Action::SaveRequest => dialog_opened(a, b, DialogType::SaveToCollection, SAVE_PROMPT@),
        Action::ExportCollection => dialog_opened(
            a,
            b,
            DialogType::ExportCollection,
            "Export format [json/postman]:"@,
        ),
        Action::NewCollection => dialog_opened(a, b, DialogType::NewCollection, "New collection name:"@),
        Action::NewRequest => b.current_request@ == empty_request() && (b.status_message matches Some(
            (m, _),
        ) && m@ == "New request created — edit URL and press Enter to send"@) && b == (App {
            current_request: b.current_request,
            current_request_source: None,
            response: None,
            request_tab: RequestTab::Headers,
            active_pane: ActivePane::UrlBar,
            param_selected: Some(0usize),
            header_selected: Some(0usize),
            status_message: b.status_message,
            ..a
        }),
        Action::ShowHelp => status_shown(a, b, HELP_MESSAGE@),
        Action::ShowHistory => if a.history_manager.entries@.len() == 0 {
            status_shown(a, b, "No history entries yet. Send some requests first!"@)
        } else {
            dialog_opened(a, App { history_selected: a.history_selected, ..b }, DialogType::History, HISTORY_TITLE@)
                && b.history_selected == 0
        },
        Action::ShowBookmarks => status_shown(a, b, "Bookmarks feature coming soon!"@),
        Action::CopyBody => match a.response {
            Some(_) => b == a && (e matches Effect::Copy(t) && t@ == copy_text(a)),
            None => status_shown(a, b, "No response to copy"@) && e == Effect::NoEffect,
        },
        Action::ToggleResponseTab => b == (App {
            response_tab: match a.response_tab {
                ResponseTab::Body => ResponseTab::Headers,
                ResponseTab::Headers => ResponseTab::Body,
            },
            response_scroll: (0, 0),
            ..a
        }),
        _ => b == a,
    }
}

/// Carries out a global action.
#[verifier::rlimit(60)]
fn apply_global_action(app: &mut App, act: Action) -> (e: Effect)
    requires
        old(app).within_limits(),
        is_global_action(act),
    ensures
        final(app).within_limits(),
        global_action_done(*old(app), *final(app), act, e),
        e != Effect::Quit,
{
    match act {
        Action::SaveRequest => {
            app.open_dialog(DialogType::SaveToCollection, copy_str(SAVE_PROMPT));
            assert(utf8_len(app.dialog_buffer@.take(0)) == 0);
            Effect::NoEffect
        },
        Action::ExportCollection => {
            app.open_dialog(DialogType::ExportCollection, copy_str("Export format [json/postman]:"));
            assert(utf8_len(app.dialog_buffer@.take(0)) == 0);
            Effect::NoEffect
        },
        Action::NewCollection => {
            app.open_dialog(DialogType::NewCollection, copy_str("New collection name:"));
            assert(utf8_len(app.dialog_buffer@.take(0)) == 0);
            Effect::NoEffect
        },
        Action::NewRequest => {
            app.new_request();
            Effect::NoEffect
        },
        Action::ShowHelp => {
            app.set_status(copy_str(HELP_MESSAGE));
            Effect::NoEffect
        },
        Action::ShowHistory => {
            if app.history_manager.is_empty() {
                app.set_status(copy_str("No history entries yet. Send some requests first!"));
            } else {
                app.open_dialog(DialogType::History, copy_str(HISTORY_TITLE));
                assert(utf8_len(app.dialog_buffer@.take(0)) == 0);
                app.history_selected = 0;
            }
            Effect::NoEffect
        },
        Action::ShowBookmarks => {
            app.set_status(copy_str("Bookmarks feature coming soon!"));
            Effect::NoEffect
        },
        Action::CopyBody => {
            match &app.response {
                Some(resp) => {
                    let text = match app.response_tab {
                        ResponseTab::Body => resp.body.clone(),
                        ResponseTab::Headers => format_headers(&resp.headers),
                    };
                    Effect::Copy(text)
                },
                None => {
                    app.set_status(copy_str("No response to copy"));
                    Effect::NoEffect
                },
            }
        },
        Action::ToggleResponseTab => {
            app.cycle_response_tab();
            Effect::NoEffect
        },
        _ => Effect::NoEffect,
    }
}

/// The edit-buffer keys: what the key does to the edited field, with `a` the state before.
pub open spec fn editing_key_done(a: App, b: App, key: Key) -> bool {
    match key.code {
        KeyCode::Enter => {
            &&& b.current_request@ == match a.editing_field {
                Some(f) => apply_edit(a.current_request@, f, a.edit_buffer@),
                None => a.current_request@,
            }
            &&& b.edit_buffer@.len() == 0
            &&& b.input_mode == InputMode::Normal
            &&& b.editing_field is None
            &&& b.cursor_pos == 0
        },
        KeyCode::Esc => {
            &&& b.edit_buffer@.len() == 0
            &&& b == (App {
                input_mode: InputMode::Normal,
                editing_field: None,
                edit_buffer: b.edit_buffer,
                cursor_pos: 0,
                ..a
            })
        },
        KeyCode::Backspace => {
            &&& (a.cursor_pos > 0 ==> b.edit_buffer@ == a.edit_buffer@.remove(
                char_pos(a.edit_buffer@, a.cursor_pos as nat) - 1,
            ))
            &&& (a.cursor_pos == 0 ==> b.edit_buffer@ == a.edit_buffer@)
            &&& b == (App { edit_buffer: b.edit_buffer, cursor_pos: b.cursor_pos, ..a })
        },
        KeyCode::Left | KeyCode::Right => b == (App { cursor_pos: b.cursor_pos, ..a }),
        KeyCode::Char(c) => if utf8_len(a.edit_buffer@) + char_utf8_len(c) < usize::MAX - 8 {
            &&& b.edit_buffer@ == a.edit_buffer@.insert(char_pos(a.edit_buffer@, a.cursor_pos as nat), c)
            &&& b.cursor_pos == a.cursor_pos + char_utf8_len(c)
            &&& b == (App { edit_buffer: b.edit_buffer, cursor_pos: b.cursor_pos, ..a })
        } else {
            b == a
        },
        _ => b == a,
    }
}

/// A key while a field is edited: Enter keeps the text, Esc drops it, the others edit it.
pub fn handle_editing(app: &mut App, key: Key)
    requires
        old(app).within_limits(),
    ensures
        final(app).within_limits(),
        editing_key_done(*old(app), *final(app), key),
{
    match key.code {
        KeyCode::Enter => app.confirm_edit(),
        KeyCode::Esc => {
            app.cancel_edit();
            assert(utf8_len(app.edit_buffer@.take(0)) == 0);
        },
        KeyCode::Backspace => app.delete_char(),
        KeyCode::Left => app.move_cursor_left(),
        KeyCode::Right => app.move_cursor_right(),
        KeyCode::Char(c) => {
            let n = crate::text::str_utf8_len(app.edit_buffer.as_str());
            if crate::text::char_len_utf8(c) < usize::MAX - 8 - n {
                app.insert_char(c);
            }
        },
        _ => {},
    }
}

/// The file an export of collection `ci` is written to: the collection's name, then `.json`.
pub open spec fn export_file_name(a: App, ci: nat) -> Seq<char> {
    a.data.collections@[ci as int].name@ + ".json"@
}

/// The dialog keys of a yes/no or list dialog (deletion, history).
pub open spec fn choice_key_done(a: App, b: App, key: Key) -> bool {
    let history = a.dialog_type == DialogType::History;
    let n = a.history_manager.entries@.len();
    match key.code {
        KeyCode::Enter => if history {
            &&& b.dialog_type == DialogType::NoDialog
            &&& b.input_mode == InputMode::Normal
            &&& b.history_selected == 0
            &&& b.data == a.data
            &&& if a.history_selected < n {
                let e = a.history_manager.entries@[a.history_selected as int];
                &&& b.current_request@ == e.request@
                &&& b.status_message matches Some((m, _)) && m@ == "Loaded history: "@
                    + crate::models::method_name(e.request.method) + " "@ + e.request.url@
            } else {
                b.current_request == a.current_request
            }
        } else if a.dialog_option_selected {
            &&& b.dialog_type == DialogType::NoDialog
            &&& b.pending_delete is None
            &&& match a.pending_delete {
                Some(DeleteTarget::Collection(ci)) => if ci < a.data.collections@.len() {
                    b.data.collections@ == a.data.collections@.remove(ci as int)
                } else {
                    b.data == a.data
                },
                Some(DeleteTarget::Request(ci, ri)) => if ci < a.data.collections@.len() && ri
                    < a.data.collections@[ci as int].requests@.len() {
                    b.data.collections@[ci as int].requests@ == a.data.collections@[ci as int].requests@.remove(ri as int)
                } else {
                    b.data == a.data
                },
                None => b.data == a.data,
            }
        } else {
            &&& b.dialog_type == DialogType::NoDialog
            &&& b.pending_delete is None
            &&& b.data == a.data
            &&& b.status_message matches Some((m, _)) && m@ == "Delete cancelled"@
        },
        KeyCode::Esc => {
            &&& b.dialog_type == DialogType::NoDialog
            &&& b.input_mode == InputMode::Normal
            &&& b.pending_delete is None
            &&& b.data == a.data
            &&& b.status_message matches Some((m, _)) && m@ == "Delete cancelled"@
        },
        KeyCode::Up | KeyCode::Char('k') => if history && a.history_selected > 0 {
            b == (App { history_selected: (a.history_selected - 1) as usize, ..a })
        } else {
            b == (App { dialog_option_selected: true, ..a })
        },
        KeyCode::Down | KeyCode::Char('j') => if history {
            if a.history_selected + 1 < n {
                b == (App { history_selected: (a.history_selected + 1) as usize, ..a })
            } else {
                b == a
            }
        } else {
            b == (App { dialog_option_selected: false, ..a })
        },
        KeyCode::Left => b == (App { dialog_option_selected: true, ..a }),
        KeyCode::Right => b == (App { dialog_option_selected: false, ..a }),
        _ => b == a,
    }
}

/// A key in a yes/no or list dialog.
#[verifier::rlimit(60)]
fn handle_choice_dialog(app: &mut App, key: Key)
    requires
        old(app).within_limits(),
        old(app).dialog_type == DialogType::DeleteConfirm || old(app).dialog_type == DialogType::History,
    ensures
        final(app).within_limits(),
        choice_key_done(*old(app), *final(app), key),
{
    let history = app.dialog_type == DialogType::History;
    match key.code {
        KeyCode::Enter => {
            if history {
                let sel = app.history_selected;
                if sel < app.history_manager.entries.len() {
                    let req = app.history_manager.entries[sel].request.copy();
                    let m = req.method.to_string();
                    let mut msg = copy_str("Loaded history: ");
                    crate::text::push_str(&mut msg, m.as_str());
                    crate::text::push_str(&mut msg, " ");
                    crate::text::push_str(&mut msg, req.url.as_str());
                    app.current_request = req;
                    app.set_status(msg);
                }
                app.close_dialog();
                app.history_selected = 0;
                assert(utf8_len(app.dialog_buffer@.take(0)) == 0);
                return;
            }
            if app.dialog_option_selected {
                app.close_dialog();
                assert(utf8_len(app.dialog_buffer@.take(0)) == 0);
                app.execute_pending_delete();
            } else {
                app.close_dialog();
                app.pending_delete = None;
                app.set_status(copy_str("Delete cancelled"));
                assert(utf8_len(app.dialog_buffer@.take(0)) == 0);
            }
        },
        KeyCode::Esc => {
            app.close_dialog();
            app.pending_delete = None;
            app.set_status(copy_str("Delete cancelled"));
            assert(utf8_len(app.dialog_buffer@.take(0)) == 0);
        },
        KeyCode::Up => choice_up(app, history),
        KeyCode::Char(c) => {
            if c == 'k' {
                choice_up(app, history);
            } else if c == 'j' {
                choice_down(app, history);
            }
        },
        KeyCode::Down => choice_down(app, history),
        KeyCode::Left => app.dialog_option_selected = true,
        KeyCode::Right => app.dialog_option_selected = false,
        _ => {},
    }
}

/// Up in a choice dialog: the previous history entry, or "confirm".
fn choice_up(app: &mut App, history: bool)
    ensures
        *final(app) == if history && old(app).history_selected > 0 {
            App { history_selected: (old(app).history_selected - 1) as usize, ..*old(app) }
        } else {
            App { dialog_option_selected: true, ..*old(app) }
        },
{
    if history && app.history_selected > 0 {
        app.history_selected = app.history_selected - 1;
    } else {
        app.dialog_option_selected = true;
    }
}

/// Down in a choice dialog: the next history entry, or "cancel".
fn choice_down(app: &mut App, history: bool)
    ensures
        *final(app) == if history {
            if old(app).history_selected + 1 < old(app).history_manager.entries@.len() {
                App { history_selected: (old(app).history_selected + 1) as usize, ..*old(app) }
            } else {
                *old(app)
            }
        } else {
            App { dialog_option_selected: false, ..*old(app) }
        },
{
    if history {
        let n = app.history_manager.entries.len();
        if n > 0 && app.history_selected < n - 1 {
            app.history_selected = app.history_selected + 1;
        }
    } else {
        app.dialog_option_selected = false;
    }
}

/// `cols1` is `cols0` with `req` appended to the requests of collection `ci`.
pub open spec fn request_appended(cols0: Seq<Collection>, cols1: Seq<Collection>, ci: nat, req: RequestView) -> bool {
    &&& ci < cols0.len()
    &&& cols1.len() == cols0.len()
    &&& forall|j: int| 0 <= j < cols0.len() && j != ci ==> #[trigger] cols1[j] == cols0[j]
    &&& cols1[ci as int] == (Collection { requests: cols1[ci as int].requests, ..cols0[ci as int] })
    &&& cols1[ci as int].requests@.drop_last() == cols0[ci as int].requests@
    &&& cols1[ci as int].requests@.len() == cols0[ci as int].requests@.len() + 1
    &&& cols1[ci as int].requests@.last()@ == req
}

/// What confirming a text dialog (Enter) does: the dialog closes; with text entered, an export
/// dialog asks for the selected collection to be exported (in Postman form when the text is
/// `postman`), a new-collection dialog adds the collection, a request-name dialog renames the
/// current request, a save dialog appends the current request to the collection of that name
/// or id (or says none was found); with no text, the data stays as it was.
pub open spec fn text_dialog_confirmed(a: App, b: App, e: Effect) -> bool {
    &&& e != Effect::Quit
    &&& b.dialog_type == DialogType::NoDialog || a.dialog_type == DialogType::NoDialog
    &&& a.dialog_buffer@.len() == 0 ==> e == Effect::NoEffect && b.data == a.data
    &&& a.dialog_buffer@.len() > 0 && a.dialog_type == DialogType::ExportCollection ==> match selected_title(a) {
        Some(ci) => (e matches Effect::Export { collection, postman, file_name } && collection == ci
            && postman == (a.dialog_buffer@ == "postman"@) && file_name@ == export_file_name(a, ci)),
        None => e == Effect::NoEffect && (b.status_message matches Some((m, _)) && m@ == "No collection selected"@),
    }
    &&& a.dialog_buffer@.len() > 0 && a.dialog_type == DialogType::NewCollection && a.has_room()
        ==> b.data.collections@.len() == a.data.collections@.len() + 1
        && b.data.collections@.last().name@ == a.dialog_buffer@
    &&& a.dialog_buffer@.len() > 0 && a.dialog_type == DialogType::RequestName && a.has_room()
        ==> b.current_request.name@ == a.dialog_buffer@
    &&& a.dialog_buffer@.len() > 0 && a.dialog_type == DialogType::SaveToCollection ==> match find_collection_from(
        a.data.collections@,
        a.dialog_buffer@,
        0,
    ) {
        Some(ci) => a.has_room() ==> request_appended(a.data.collections@, b.data.collections@, ci, a.current_request@)
            && (b.status_message matches Some((m, _)) && m@ == "Saved to '"@
            + a.data.collections@[ci as int].name@ + "'"@),
        None => b.data == a.data && (b.status_message matches Some((m, _)) && m@ == "Collection not found: "@
            + a.dialog_buffer@),
    }
    &&& a.dialog_type != DialogType::ExportCollection ==> e == Effect::NoEffect
}

/// Enter in a text dialog: what was typed is used by the dialog's purpose.
#[verifier::rlimit(60)]
fn confirm_text_dialog(app: &mut App) -> (e: Effect)
    requires
        old(app).within_limits(),
    ensures
        final(app).within_limits(),
        text_dialog_confirmed(*old(app), *final(app), e),
{
    let dtype = app.dialog_type;
    let value = app.confirm_dialog();
    assert(utf8_len(app.dialog_buffer@.take(0)) == 0);
    match value {
        Some(v) => match dtype {
            DialogType::ExportCollection => {
                match app.get_selected_collection_index() {
                    Some(ci) => {
                        let mut file_name = app.data.collections[ci].name.clone();
                        crate::text::push_str(&mut file_name, ".json");
                        let postman = crate::text::str_eq(v.as_str(), "postman");
                        Effect::Export { collection: ci, postman, file_name }
                    },
                    None => {
                        app.set_status(copy_str("No collection selected"));
                        Effect::NoEffect
                    },
                }
            },
            DialogType::NewCollection => {
                if app.room_for_row() {
                    app.create_collection(v.as_str());
                }
                Effect::NoEffect
            },
            DialogType::RequestName => {
                if app.room_for_row() {
                    app.current_request.name = v;
                    app.do_save_request();
                }
                Effect::NoEffect
            },
            DialogType::SaveToCollection => {
                match crate::cli::find_collection(&app.data.collections, v.as_str()) {
                    Some(ci) => {
                        if app.room_for_row() {
                            app.add_current_request_to(ci);
                        }
                    },
                    None => {
                        let mut m = copy_str("Collection not found: ");
                        crate::text::push_str(&mut m, v.as_str());
                        app.set_status(m);
                    },
                }
                Effect::NoEffect
            },
            _ => Effect::NoEffect,
        },
        None => Effect::NoEffect,
    }
}

/// Whether a dialog is answered by choosing (delete confirmation, history) rather than by text.
pub open spec fn is_choice_dialog(t: DialogType) -> bool {
    t == DialogType::DeleteConfirm || t == DialogType::History
}

/// What a key does in a text dialog: Enter confirms it, Esc closes it keeping the data,
/// Backspace deletes the character before the cursor, Left and Right move the cursor, a
/// character is inserted at the cursor while the text stays within bounds; other keys do
/// nothing.
pub open spec fn text_dialog_key_done(a: App, b: App, key: Key, e: Effect) -> bool {
    match key.code {
        KeyCode::Enter => text_dialog_confirmed(a, b, e),
        KeyCode::Esc => b.dialog_type == DialogType::NoDialog && b.data == a.data && e == Effect::NoEffect,
        KeyCode::Backspace => {
            &&& b == App { dialog_buffer: b.dialog_buffer, dialog_cursor: b.dialog_cursor, ..a }
            &&& a.dialog_cursor > 0 ==> b.dialog_buffer@ == a.dialog_buffer@.remove(
                char_pos(a.dialog_buffer@, a.dialog_cursor as nat) - 1,
            )
            &&& a.dialog_cursor == 0 ==> b.dialog_buffer@ == a.dialog_buffer@
            &&& e == Effect::NoEffect
        },
        KeyCode::Left => b == App { dialog_cursor: b.dialog_cursor, ..a } && e == Effect::NoEffect,
        KeyCode::Right => b == App { dialog_cursor: b.dialog_cursor, ..a } && e == Effect::NoEffect,
        KeyCode::Char(c) => e == Effect::NoEffect && if char_utf8_len(c) + utf8_len(a.dialog_buffer@) < usize::MAX - 8 {
            &&& b == App { dialog_buffer: b.dialog_buffer, dialog_cursor: b.dialog_cursor, ..a }
            &&& b.dialog_buffer@ == a.dialog_buffer@.insert(char_pos(a.dialog_buffer@, a.dialog_cursor as nat), c)
            &&& b.dialog_cursor == a.dialog_cursor + char_utf8_len(c)
        } else {
            b == a
        },
        _ => b == a && e == Effect::NoEffect,
    }
}

/// A key while a dialog is open.
pub fn handle_dialog(app: &mut App, key: Key) -> (e: Effect)
    requires
        old(app).within_limits(),
    ensures
        final(app).within_limits(),
        e != Effect::Quit,
        old(app).dialog_type == DialogType::DeleteConfirm || old(app).dialog_type == DialogType::History
            ==> choice_key_done(*old(app), *final(app), key) && e == Effect::NoEffect,
        !is_choice_dialog(old(app).dialog_type) ==> text_dialog_key_done(*old(app), *final(app), key, e),
        !(key.code == KeyCode::Enter && old(app).dialog_type == DialogType::ExportCollection) ==> e == Effect::NoEffect,
{
    if app.dialog_type == DialogType::DeleteConfirm || app.dialog_type == DialogType::History {
        handle_choice_dialog(app, key);
        return Effect::NoEffect;
    }
    match key.code {
        KeyCode::Enter => confirm_text_dialog(app),
        KeyCode::Esc => {
            app.close_dialog();
            assert(utf8_len(app.dialog_buffer@.take(0)) == 0);
            Effect::NoEffect
        },
        KeyCode::Backspace => {
            app.dialog_delete_char();
            Effect::NoEffect
        },
        KeyCode::Left => {
            app.dialog_move_cursor_left();
            Effect::NoEffect
        },
        KeyCode::Right => {
            app.dialog_move_cursor_right();
            Effect::NoEffect
        },
        KeyCode::Char(c) => {
            let n = crate::text::str_utf8_len(app.dialog_buffer.as_str());
            if crate::text::char_len_utf8(c) < usize::MAX - 8 - n {
                app.dialog_insert_char(c);
            }
            Effect::NoEffect
        },
        _ => Effect::NoEffect,
    }
}

/// A key outside editing: the action it stands for, carried out.
pub fn handle_normal(app: &mut App, key: Key) -> (e: Effect)
    requires
        old(app).within_limits(),
    ensures
        final(app).within_limits(),
        e != Effect::Quit,
        ({
            let (act, prefix) = pressed(*old(app), key);
            let a = App { pending_window_prefix: prefix, ..*old(app) };
            &&& is_simple(act) ==> *final(app) == simple_action_result(a, act) && e == Effect::NoEffect
            &&& is_sidebar_action(act) ==> sidebar_action_done(a, *final(app), act) && e == Effect::NoEffect
            &&& is_global_action(act) ==> global_action_done(a, *final(app), act, e)
            &&& is_request_action(act) ==> e == Effect::NoEffect && (field_to_edit(a, act) matches Some(f) ==> if utf8_len(
                field_text(a.current_request@, f),
            ) < usize::MAX - 8 {
                started_editing(a, *final(app), f)
            } else {
                *final(app) == a
            }) && (field_to_edit(a, act) is None ==> request_action_done(a, *final(app), act))
        }),
{
    let (act, prefix) = parse(key, app.active_pane, app.sidebar_tab, app.request_tab, app.pending_window_prefix);
    app.pending_window_prefix = prefix;
    match act {
        Action::SidebarNext | Action::SidebarPrev | Action::SidebarExpand | Action::SidebarCollapse
        | Action::SidebarLoad | Action::SidebarDelete => {
            apply_sidebar_action(app, act);
            Effect::NoEffect
        },
        Action::SaveRequest | Action::ExportCollection | Action::NewCollection | Action::NewRequest
        | Action::ShowHelp | Action::ShowHistory | Action::ShowBookmarks | Action::CopyBody
        | Action::ToggleResponseTab => apply_global_action(app, act),
        Action::CycleMethodNext | Action::CycleMethodPrev | Action::EditUrl | Action::EditRequestName
        | Action::AddRow | Action::DeleteRow | Action::ToggleEnabled | Action::RowNext
        | Action::RowPrev | Action::EditKey | Action::EditValue | Action::CycleBodyType
        | Action::CycleAuthType => {
            apply_request_action(app, act);
            Effect::NoEffect
        },
        _ => {
            apply_simple_action(app, act);
            Effect::NoEffect
        },
    }
}

/// Whether a key is Ctrl+C, which always quits.
pub open spec fn is_interrupt(key: Key) -> bool {
    key.code == KeyCode::Char('c') && key.ctrl
}

/// A key press: Ctrl+C quits; otherwise the key goes to the open dialog, the edited field,
/// or the key bindings, by the input mode.
pub fn handle_key(app: &mut App, key: Key) -> (e: Effect)
    requires
        old(app).within_limits(),
    ensures
        final(app).within_limits(),
        is_interrupt(key) ==> e == Effect::Quit && *final(app) == *old(app),
        e == Effect::Quit ==> is_interrupt(key),
{
    if key.ctrl && key.code == KeyCode::Char('c') {
        return Effect::Quit;
    }
    match app.input_mode {
        InputMode::Normal => handle_normal(app, key),
        InputMode::Editing => {
            if app.dialog_type != DialogType::NoDialog {
                handle_dialog(app, key)
            } else {
                handle_editing(app, key);
                Effect::NoEffect
            }
        },
    }
}

} // verus!