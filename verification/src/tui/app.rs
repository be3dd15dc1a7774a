//! The state of the terminal interface and the operations on it.
//!
//! Saving to disk, sending requests and drawing are left to the caller: an operation that
//! changes the stored data sets `needs_save`, and the caller writes the data and clears it.
use vstd::prelude::*;

use crate::config::{DEFAULT_URL, STATUS_MESSAGE_TIMEOUT_TICKS, WINDOW_PREFIX_TIMEOUT_TICKS};
use crate::history::{HistoryManager, HistoryStorage};
use crate::file_storage::copy_pairs;
use crate::models::{
    empty_request, method_name, AppData, Auth, AuthView, BodyType, Collection, Environment,
    HistoryItem, HttpMethod, KeyValue, KeyValueView, Request, RequestView, Response,
};
use crate::outside::{new_uuid, now_millis};
use crate::storage::Storage;
use crate::tui::demo::{demo_collection_names, demo_request_counts};
use crate::text::{
    char_len_utf8, char_utf8_len, chars_of, contains, copy_str, is_char_boundary_at,
    decimal, lemma_deep_view_push, lemma_utf8_len_prefix_unique, push_str, spec_to_lowercase,
    str_contains, str_eq, to_lowercase, utf8_len,
};
use crate::utils::{
    is_builtin_resolution, replace_variables, resolve_builtin_variables, subst_vars,
};

verus! {

/// Whether keys move around or type into a field.
#[derive(Debug, Clone, Copy, PartialEq, Eq, Structural)]
pub enum InputMode {
    Normal,
    Editing,
}

/// The pane that has the focus.
#[derive(Debug, Clone, Copy, PartialEq, Eq, Structural)]
pub enum ActivePane {
    Sidebar,
    UrlBar,
    RequestTabs,
    Response,
}

/// The tab shown for the request.
#[derive(Debug, Clone, Copy, PartialEq, Eq, Structural)]
pub enum RequestTab {
    Params,
    Headers,
    Body,
    Auth,
}

/// The tab shown for the response.
#[derive(Debug, Clone, Copy, PartialEq, Eq, Structural)]
pub enum ResponseTab {
    Body,
    Headers,
}

/// The tab shown in the sidebar.
#[derive(Debug, Clone, Copy, PartialEq, Eq, Structural)]
pub enum SidebarTab {
    Collections,
    Environments,
}

/// The field being edited.
#[derive(Debug, Clone, Copy, PartialEq, Eq, Structural)]
pub enum EditingField {
    Url,
    RequestName,
    Body,
    ParamKey(usize),
    ParamValue(usize),
    HeaderKey(usize),
    HeaderValue(usize),
    AuthToken,
    AuthUsername,
    AuthPassword,
}

/// The dialog that is open.
#[derive(Debug, Clone, Copy, PartialEq, Eq, Structural)]
pub enum DialogType {
    NoDialog,
    ExportCollection,
    NewCollection,
    DeleteConfirm,
    RequestName,
    History,
    HistorySearch,
    /// Asks for the collection (by name or id) to save the current request to.
    SaveToCollection,
}

/// What a confirmed deletion removes.
#[derive(Debug, Clone, Copy, PartialEq, Eq, Structural)]
pub enum DeleteTarget {
    Collection(usize),
    /// A request: its collection and its position there.
    Request(usize, usize),
}

/// An open request tab: the request, its label, and where it came from.
#[derive(Debug, Clone)]
pub struct TabInfo {
    pub request: Request,
    pub label: String,
    /// The collection and position the request was loaded from.
    pub source: Option<(usize, usize)>,
}

/// The whole state of the interface.
pub struct App {
    pub running: bool,
    pub input_mode: InputMode,
    pub active_pane: ActivePane,
    pub sidebar_tab: SidebarTab,
    pub request_tab: RequestTab,
    pub response_tab: ResponseTab,
    pub data: AppData,
    pub storage: Storage,
    pub current_request: Request,
    pub response: Option<Response>,
    pub editing_field: Option<EditingField>,
    pub edit_buffer: String,
    /// The cursor in `edit_buffer`, in bytes.
    pub cursor_pos: usize,
    pub sidebar_selected: usize,
    /// The ids of the expanded collections.
    pub collection_expanded: Vec<String>,
    /// The selected parameter row.
    pub param_selected: Option<usize>,
    /// The selected header row.
    pub header_selected: Option<usize>,
    /// A status line and the tick at which it expires.
    pub status_message: Option<(String, u64)>,
    pub tick: u64,
    pub loading: bool,
    pub response_scroll: (u16, u16),
    pub pending_send: bool,
    pub dialog_type: DialogType,
    pub dialog_buffer: String,
    /// The cursor in `dialog_buffer`, in bytes.
    pub dialog_cursor: usize,
    pub dialog_message: String,
    /// In a choice dialog: whether the confirming option is selected.
    pub dialog_option_selected: bool,
    pub pending_window_prefix: bool,
    pub pending_window_expiry: u64,
    /// The collection and position the current request was loaded from.
    pub current_request_source: Option<(usize, usize)>,
    pub pending_delete: Option<DeleteTarget>,
    pub history_manager: HistoryManager,
    pub history_storage: HistoryStorage,
    pub history_selected: usize,
    /// Set when the stored data changed and should be written.
    pub needs_save: bool,
}

/// The largest tick at which the interface still runs: far below the point where adding a
/// timeout to it would overflow.
pub const MAX_TICK: u64 = 0xffff_ffff_0000_0000;

/// One row of the collections sidebar.
pub enum SidebarRow {
    /// The title row of a collection.
    Collection(nat),
    /// A request of an expanded collection.
    Request(nat, nat),
}

/// Whether a collection is expanded.
pub open spec fn is_expanded(expanded: Seq<Seq<char>>, c: Collection) -> bool {
    expanded.contains(c.id@)
}

/// The rows of a collection: its title, then its requests when it is expanded.
pub open spec fn collection_rows(ci: nat, c: Collection, expanded: Seq<Seq<char>>) -> Seq<SidebarRow> {
    seq![SidebarRow::Collection(ci)] + if is_expanded(expanded, c) {
        Seq::new(c.requests@.len(), |ri: int| SidebarRow::Request(ci, ri as nat))
    } else {
        Seq::empty()
    }
}

/// The sidebar rows of the first `n` collections.
pub open spec fn rows_upto(cols: Seq<Collection>, expanded: Seq<Seq<char>>, n: nat) -> Seq<SidebarRow>
    decreases n,
{
    if n == 0 || n > cols.len() {
        Seq::empty()
    } else {
        rows_upto(cols, expanded, (n - 1) as nat) + collection_rows(
            (n - 1) as nat,
            cols[n - 1],
            expanded,
        )
    }
}

/// The ids of all collections, in order.
pub open spec fn all_ids(cols: Seq<Collection>) -> Seq<Seq<char>> {
    cols.map_values(|c: Collection| c.id@)
}

/// The rows of the collections sidebar.
pub open spec fn sidebar_rows(cols: Seq<Collection>, expanded: Seq<Seq<char>>) -> Seq<SidebarRow> {
    rows_upto(cols, expanded, cols.len())
}

impl App {
    /// The ids of the expanded collections.
    pub open spec fn expanded_ids(&self) -> Seq<Seq<char>> {
        self.collection_expanded.deep_view()
    }

    /// The rows of the collections sidebar.
    pub open spec fn rows(&self) -> Seq<SidebarRow> {
        sidebar_rows(self.data.collections@, self.expanded_ids())
    }

    /// The number of sidebar rows for the shown tab.
    pub open spec fn item_count(&self) -> nat {
        match self.sidebar_tab {
            SidebarTab::Collections => self.rows().len(),
            SidebarTab::Environments => self.data.environments@.len(),
        }
    }

    /// The number of sidebar rows with every collection expanded.
    pub open spec fn total_rows(&self) -> nat {
        rows_upto(self.data.collections@, all_ids(self.data.collections@), self.data.collections@.len()).len()
    }

    /// The state stays where counting and timing cannot overflow.
    pub open spec fn within_limits(&self) -> bool {
        &&& self.tick <= MAX_TICK
        &&& self.rows().len() < usize::MAX / 2
        &&& self.total_rows() < usize::MAX / 2
        &&& self.sidebar_selected < usize::MAX / 2
        &&& self.data.environments@.len() < usize::MAX / 2
        &&& utf8_len(self.edit_buffer@) < usize::MAX - 8
        &&& utf8_len(self.dialog_buffer@) < usize::MAX - 8
        &&& is_char_boundary_at(self.edit_buffer@, self.cursor_pos as nat)
        &&& is_char_boundary_at(self.dialog_buffer@, self.dialog_cursor as nat)
        &&& self.data.history@.len() < usize::MAX
    }

    /// A status message, shown until `STATUS_MESSAGE_TIMEOUT_TICKS` ticks from now.
    pub fn set_status(&mut self, msg: String)
        requires
            old(self).tick <= MAX_TICK,
        ensures
            final(self).status_message matches Some((m, t)) && m@ == msg@ && t == old(self).tick
                + STATUS_MESSAGE_TIMEOUT_TICKS,
            *final(self) == (App { status_message: final(self).status_message, ..*old(self) }),
    {
        self.status_message = Some((msg, self.tick + STATUS_MESSAGE_TIMEOUT_TICKS));
    }

    /// One tick: expired status messages and an expired window prefix go away.
    pub fn tick(&mut self)
        requires
            old(self).tick < MAX_TICK,
        ensures
            final(self).tick == old(self).tick + 1,
            final(self).status_message == (match old(self).status_message {
                Some((m, e)) => if old(self).tick + 1 >= e {
                    None
                } else {
                    Some((m, e))
                },
                None => None,
            }),
            final(self).pending_window_prefix == (old(self).pending_window_prefix && old(self).tick + 1
                < old(self).pending_window_expiry),
            *final(self) == (App {
                tick: final(self).tick,
                status_message: final(self).status_message,
                pending_window_prefix: final(self).pending_window_prefix,
                ..*old(self)
            }),
    {
        self.tick = self.tick + 1;
        let expired = match &self.status_message {
            Some((_, expiry)) => self.tick >= *expiry,
            None => false,
        };
        if expired {
            self.status_message = None;
        }
        if self.pending_window_prefix && self.tick >= self.pending_window_expiry {
            self.pending_window_prefix = false;
        }
    }

    /// Moves the focus to the next pane.
    pub fn move_focus_next(&mut self)
        ensures
            *final(self) == (App { active_pane: next_pane(old(self).active_pane), ..*old(self) }),
    {
        self.active_pane = match self.active_pane {
            ActivePane::Sidebar => ActivePane::UrlBar,
            ActivePane::UrlBar => ActivePane::RequestTabs,
            ActivePane::RequestTabs => ActivePane::Response,
            ActivePane::Response => ActivePane::Sidebar,
        };
    }

    /// Moves the focus to the previous pane.
    pub fn move_focus_prev(&mut self)
        ensures
            *final(self) == (App { active_pane: prev_pane(old(self).active_pane), ..*old(self) }),
    {
        self.active_pane = match self.active_pane {
            ActivePane::Sidebar => ActivePane::Response,
            ActivePane::UrlBar => ActivePane::Sidebar,
            ActivePane::RequestTabs => ActivePane::UrlBar,
            ActivePane::Response => ActivePane::RequestTabs,
        };
    }
}

/// An optional index as a natural number.
pub open spec fn opt_nat(o: Option<usize>) -> Option<nat> {
    match o {
        Some(x) => Some(x as nat),
        None => None,
    }
}

/// The position a sidebar row stands for: a collection, and a request in it for a request row.
pub open spec fn row_position(r: SidebarRow) -> (nat, Option<nat>) {
    match r {
        SidebarRow::Collection(ci) => (ci, None),
        SidebarRow::Request(ci, ri) => (ci, Some(ri)),
    }
}

/// The rows of fewer collections are the first rows of more collections.
proof fn lemma_rows_upto_prefix(cols: Seq<Collection>, exp: Seq<Seq<char>>, n: nat, m: nat)
    requires
        n <= m <= cols.len(),
    ensures
        rows_upto(cols, exp, n).len() <= rows_upto(cols, exp, m).len(),
        forall|k: int|
            0 <= k < rows_upto(cols, exp, n).len() ==> #[trigger] rows_upto(cols, exp, m)[k]
                == rows_upto(cols, exp, n)[k],
    decreases m,
{
    if n < m {
        lemma_rows_upto_prefix(cols, exp, n, (m - 1) as nat);
    }
}

impl App {
    /// Whether the collection with this id is expanded.
    pub fn is_expanded_id(&self, id: &str) -> (r: bool)
        ensures
            r == self.expanded_ids().contains(id@),
    {
        crate::text::strings_contain(&self.collection_expanded, id)
    }

    /// The number of sidebar rows for the shown tab.
    pub fn sidebar_item_count(&self) -> (r: usize)
        requires
            self.within_limits(),
        ensures
            r == self.item_count(),
    {
        match self.sidebar_tab {
            SidebarTab::Environments => self.data.environments.len(),
            SidebarTab::Collections => {
                let ghost cols = self.data.collections@;
                let ghost exp = self.expanded_ids();
                let mut count: usize = 0;
                let mut ci: usize = 0;
                while ci < self.data.collections.len()
                    invariant
                        ci <= self.data.collections.len(),
                        cols == self.data.collections@,
                        exp == self.expanded_ids(),
                        self.within_limits(),
                        count == rows_upto(cols, exp, ci as nat).len(),
                    decreases self.data.collections.len() - ci,
                {
                    proof {
                        lemma_rows_upto_prefix(cols, exp, (ci + 1) as nat, cols.len());
                    }
                    let col = &self.data.collections[ci];
                    count = count + 1;
                    if self.is_expanded_id(col.id.as_str()) {
                        count = count + col.requests.len();
                    }
                    ci = ci + 1;
                }
                count
            },
        }
    }

    /// Selects the next sidebar row, wrapping around.
    pub fn next_sidebar_item(&mut self)
        requires
            old(self).within_limits(),
        ensures
            *final(self) == (App {
                sidebar_selected: if old(self).item_count() > 0 {
                    ((old(self).sidebar_selected + 1) % old(self).item_count() as int) as usize
                } else {
                    old(self).sidebar_selected
                },
                ..*old(self)
            }),
    {
        let max = self.sidebar_item_count();
        if max > 0 {
            self.sidebar_selected = (self.sidebar_selected + 1) % max;
        }
    }

    /// Selects the previous sidebar row, wrapping around.
    pub fn prev_sidebar_item(&mut self)
        requires
            old(self).within_limits(),
        ensures
            *final(self) == (App {
                sidebar_selected: if old(self).item_count() > 0 {
                    ((old(self).sidebar_selected + old(self).item_count() - 1)
                        % old(self).item_count() as int) as usize
                } else {
                    old(self).sidebar_selected
                },
                ..*old(self)
            }),
    {
        let max = self.sidebar_item_count();
        if max > 0 {
            self.sidebar_selected = (self.sidebar_selected + max - 1) % max;
        }
    }

    /// The position of the selected collections row: its collection, and its request when it
    /// is a request row; `None` past the last row.
    pub fn locate_selected(&self) -> (r: Option<(usize, Option<usize>)>)
        requires
            self.within_limits(),
        ensures
            self.sidebar_selected < self.rows().len() ==> (r matches Some((ci, ri)) && (
            ci as nat,
            opt_nat(ri),
        ) == row_position(self.rows()[self.sidebar_selected as int]) && ci
                < self.data.collections@.len() && (ri matches Some(x) ==> x
                < self.data.collections@[ci as int].requests@.len())),
            self.sidebar_selected >= self.rows().len() ==> r is None,
    {
        let ghost cols = self.data.collections@;
        let ghost exp = self.expanded_ids();
        let sel = self.sidebar_selected;
        let mut idx: usize = 0;
        let mut ci: usize = 0;
        while ci < self.data.collections.len()
            invariant
                ci <= self.data.collections.len(),
                cols == self.data.collections@,
                exp == self.expanded_ids(),
                self.within_limits(),
                sel == self.sidebar_selected,
                idx == rows_upto(cols, exp, ci as nat).len(),
                idx <= sel,
            decreases self.data.collections.len() - ci,
        {
            proof {
                lemma_rows_upto_prefix(cols, exp, (ci + 1) as nat, cols.len());
                lemma_rows_upto_prefix(cols, exp, ci as nat, (ci + 1) as nat);
            }
            let ghost r1 = rows_upto(cols, exp, (ci + 1) as nat);
            let col = &self.data.collections[ci];
            if sel == idx {
                assert(r1[idx as int] == SidebarRow::Collection(ci as nat));
                assert(self.rows()[sel as int] == r1[sel as int]);
                return Some((ci, None));
            }
            idx = idx + 1;
            if self.is_expanded_id(col.id.as_str()) {
                let n = col.requests.len();
                if sel - idx < n {
                    let ri = sel - idx;
                    assert(r1[sel as int] == SidebarRow::Request(ci as nat, ri as nat));
                    assert(self.rows()[sel as int] == r1[sel as int]);
                    return Some((ci, Some(ri)));
                }
                idx = idx + n;
            }
            ci = ci + 1;
        }
        None
    }

    /// The position of every collections row, in order: its collection, and its request for a
    /// request row.
    pub fn row_positions(&self) -> (r: Vec<(usize, Option<usize>)>)
        requires
            self.within_limits(),
        ensures
            r@.len() == self.rows().len(),
            forall|i: int|
                0 <= i < r@.len() ==> ((#[trigger] r@[i]).0 as nat, opt_nat(r@[i].1)) == row_position(
                    self.rows()[i],
                ),
    {
        let ghost cols = self.data.collections@;
        let ghost exp = self.expanded_ids();
        let mut r: Vec<(usize, Option<usize>)> = Vec::new();
        let mut ci: usize = 0;
        while ci < self.data.collections.len()
            invariant
                ci <= self.data.collections.len(),
                cols == self.data.collections@,
                exp == self.expanded_ids(),
                self.within_limits(),
                r@.len() == rows_upto(cols, exp, ci as nat).len(),
                forall|i: int|
                    0 <= i < r@.len() ==> ((#[trigger] r@[i]).0 as nat, opt_nat(r@[i].1)) == row_position(
                        rows_upto(cols, exp, ci as nat)[i],
                    ),
            decreases self.data.collections.len() - ci,
        {
            proof {
                lemma_rows_upto_prefix(cols, exp, (ci + 1) as nat, cols.len());
            }
            let ghost r0 = rows_upto(cols, exp, ci as nat);
            let ghost r1 = rows_upto(cols, exp, (ci + 1) as nat);
            assert(r1 == r0 + collection_rows(ci as nat, cols[ci as int], exp));
            let col = &self.data.collections[ci];
            let ghost base = r@.len();
            r.push((ci, None));
            if self.is_expanded_id(col.id.as_str()) {
                let n = col.requests.len();
                let mut ri: usize = 0;
                while ri < n
                    invariant
                        ri <= n,
                        n == cols[ci as int].requests@.len(),
                        r1 == r0 + collection_rows(ci as nat, cols[ci as int], exp),
                        is_expanded(exp, cols[ci as int]),
                        base == r0.len(),
                        r1.len() < usize::MAX / 2,
                        r@.len() == base + 1 + ri,
                        forall|i: int|
                            0 <= i < r@.len() ==> ((#[trigger] r@[i]).0 as nat, opt_nat(r@[i].1)) == row_position(
                                r1[i],
                            ),
                    decreases n - ri,
                {
                    assert(r1[base + 1 + ri] == SidebarRow::Request(ci as nat, ri as nat));
                    r.push((ci, Some(ri)));
                    ri = ri + 1;
                }
            }
            assert(r@.len() == r1.len());
            ci = ci + 1;
        }
        r
    }

    /// The collection of the selected row when that row is a collection title.
    pub fn get_selected_collection_index(&self) -> (r: Option<usize>)
        requires
            self.within_limits(),
        ensures
            r == (if self.sidebar_tab == SidebarTab::Collections && self.sidebar_selected
                < self.rows().len() {
                match self.rows()[self.sidebar_selected as int] {
                    SidebarRow::Collection(ci) => Some(ci as usize),
                    SidebarRow::Request(_, _) => None,
                }
            } else {
                None
            }),
            r matches Some(ci) ==> ci < self.data.collections@.len(),
            r matches Some(ci) ==> self.rows()[self.sidebar_selected as int] == SidebarRow::Collection(ci as nat),
    {
        if self.sidebar_tab != SidebarTab::Collections {
            return None;
        }
        match self.locate_selected() {
            Some((ci, None)) => Some(ci),
            _ => None,
        }
    }

    /// The collection of the selected row, whether a title or one of its requests.
    pub fn get_selected_or_parent_collection_index(&self) -> (r: Option<usize>)
        requires
            self.within_limits(),
        ensures
            r == (if self.sidebar_tab == SidebarTab::Collections && self.sidebar_selected
                < self.rows().len() {
                Some(row_position(self.rows()[self.sidebar_selected as int]).0 as usize)
            } else {
                None
            }),
            r matches Some(ci) ==> ci < self.data.collections@.len(),
            r matches Some(ci) ==> ci as nat == row_position(self.rows()[self.sidebar_selected as int]).0,
    {
        if self.sidebar_tab != SidebarTab::Collections {
            return None;
        }
        match self.locate_selected() {
            Some((ci, _)) => Some(ci),
            None => None,
        }
    }
}

/// The number of characters before the byte position `p` of `s` (a character boundary).
pub open spec fn char_pos(s: Seq<char>, p: nat) -> int {
    choose|k: int| 0 <= k <= s.len() && #[trigger] utf8_len(s.take(k)) == p
}

/// The character boundary at byte `p` is reached after exactly `char_pos(s, p)` characters.
proof fn lemma_char_pos(s: Seq<char>, p: nat, k: int)
    requires
        0 <= k <= s.len(),
        utf8_len(s.take(k)) == p,
    ensures
        char_pos(s, p) == k,
{
    let c = char_pos(s, p);
    if c < k {
        lemma_utf8_len_prefix_unique(s, c, k);
    } else if c > k {
        lemma_utf8_len_prefix_unique(s, k, c);
    }
}

/// Finds the character index of a byte position that is a character boundary.
fn byte_to_char_index(v: &Vec<char>, p: usize) -> (k: usize)
    requires
        is_char_boundary_at(v@, p as nat),
    ensures
        k <= v@.len(),
        utf8_len(v@.take(k as int)) == p,
        k == char_pos(v@, p as nat),
{
    let ghost w = char_pos(v@, p as nat);
    let mut k: usize = 0;
    let mut b: usize = 0;
    while b < p
        invariant
            k <= v.len(),
            b == utf8_len(v@.take(k as int)),
            b <= p,
            is_char_boundary_at(v@, p as nat),
            0 <= w <= v@.len(),
            utf8_len(v@.take(w)) == p,
        decreases p - b,
    {
        proof {
            if k == v.len() {
                assert(v@.take(k as int) =~= v@);
                crate::text::lemma_utf8_len_prefix(v@, w);
            }
            if w < k {
                lemma_utf8_len_prefix_unique(v@, w, k as int);
            } else if w > k + 1 {
                lemma_utf8_len_prefix_unique(v@, k + 1, w);
            }
        }
        assert(v@.take(k + 1).drop_last() =~= v@.take(k as int));
        b = b + char_len_utf8(v[k]);
        k = k + 1;
    }
    proof {
        lemma_char_pos(v@, p as nat, k as int);
    }
    k
}

/// Inserting `c` at a character boundary moves the boundary after it.
proof fn lemma_insert_boundary(s: Seq<char>, k: int, c: char)
    requires
        0 <= k <= s.len(),
    ensures
        utf8_len(s.insert(k, c).take(k + 1)) == utf8_len(s.take(k)) + char_utf8_len(c),
        is_char_boundary_at(s.insert(k, c), utf8_len(s.take(k)) + char_utf8_len(c)),
        utf8_len(s.insert(k, c)) == utf8_len(s) + char_utf8_len(c),
{
    let t = s.insert(k, c);
    assert(t.take(k + 1).drop_last() =~= s.take(k));
    assert(t.take(k + 1).last() == c);
    assert(utf8_len(t.take(k + 1)) == utf8_len(s.take(k)) + char_utf8_len(c));
    assert(0 <= k + 1 <= t.len());
    lemma_utf8_len_append(s.take(k + 1 - 1).push(c), s.skip(k));
    assert(t =~= s.take(k).push(c) + s.skip(k));
    lemma_utf8_len_append(s.take(k), s.skip(k));
    assert(s =~= s.take(k) + s.skip(k));
    assert(s.take(k).push(c).drop_last() =~= s.take(k));
}

/// The UTF-8 length of two strings together.
proof fn lemma_utf8_len_append(a: Seq<char>, b: Seq<char>)
    ensures
        utf8_len(a + b) == utf8_len(a) + utf8_len(b),
    decreases b.len(),
{
    if b.len() > 0 {
        assert((a + b).drop_last() =~= a + b.drop_last());
        lemma_utf8_len_append(a, b.drop_last());
    } else {
        assert(a + b =~= a);
    }
}

/// Removing the character before a boundary leaves the boundary before it.
proof fn lemma_remove_boundary(s: Seq<char>, k: int)
    requires
        1 <= k <= s.len(),
    ensures
        is_char_boundary_at(s.remove(k - 1), utf8_len(s.take(k - 1))),
        utf8_len(s.remove(k - 1)) <= utf8_len(s),
{
    let t = s.remove(k - 1);
    assert(t.take(k - 1) =~= s.take(k - 1));
    assert(t =~= s.take(k - 1) + s.skip(k));
    assert(s =~= s.take(k) + s.skip(k));
    lemma_utf8_len_append(s.take(k - 1), s.skip(k));
    lemma_utf8_len_append(s.take(k), s.skip(k));
    assert(s.take(k).drop_last() =~= s.take(k - 1));
}

/// Inserts `c` at the cursor (a byte position, clamped to the end) and moves the cursor
/// after it.
pub fn buffer_insert(buf: &mut String, cursor: &mut usize, c: char)
    requires
        is_char_boundary_at(old(buf)@, *old(cursor) as nat),
        utf8_len(old(buf)@) < usize::MAX - 8,
    ensures
        ({
            let k = char_pos(old(buf)@, *old(cursor) as nat);
            &&& final(buf)@ == old(buf)@.insert(k, c)
            &&& *final(cursor) == *old(cursor) + char_utf8_len(c)
            &&& is_char_boundary_at(final(buf)@, *final(cursor) as nat)
            &&& utf8_len(final(buf)@) == utf8_len(old(buf)@) + char_utf8_len(c)
        }),
{
    let v = chars_of(buf.as_str());
    let k = byte_to_char_index(&v, *cursor);
    let mut out = crate::text::string_of_range(&v, 0, k);
    crate::text::push_char(&mut out, c);
    let rest = crate::text::string_of_range(&v, k, v.len());
    push_str(&mut out, rest.as_str());
    proof {
        assert(out@ =~= v@.insert(k as int, c));
        lemma_insert_boundary(v@, k as int, c);
        crate::text::lemma_utf8_len_prefix(v@, k as int);
    }
    *buf = out;
    *cursor = *cursor + char_len_utf8(c);
}

/// Removes the character before the cursor, if any, and moves the cursor to where it was.
pub fn buffer_delete_before(buf: &mut String, cursor: &mut usize)
    requires
        is_char_boundary_at(old(buf)@, *old(cursor) as nat),
    ensures
        ({
            let k = char_pos(old(buf)@, *old(cursor) as nat);
            &&& *old(cursor) > 0 ==> final(buf)@ == old(buf)@.remove(k - 1) && *final(cursor)
                == utf8_len(old(buf)@.take(k - 1))
            &&& *old(cursor) == 0 ==> final(buf)@ == old(buf)@ && *final(cursor) == 0
            &&& is_char_boundary_at(final(buf)@, *final(cursor) as nat)
            &&& utf8_len(final(buf)@) <= utf8_len(old(buf)@)
        }),
{
    if *cursor == 0 {
        return;
    }
    let v = chars_of(buf.as_str());
    let k = byte_to_char_index(&v, *cursor);
    proof {
        if k == 0 {
            assert(v@.take(0) =~= Seq::<char>::empty());
        }
    }
    proof {
        assert(v@.take(k as int).take(k - 1) =~= v@.take(k - 1));
        assert(v@.subrange(0, k - 1) =~= v@.take(k - 1));
        crate::text::lemma_utf8_len_prefix(v@.take(k as int), k - 1);
    }
    let prev = crate::text::str_utf8_len_of_range(&v, 0, k - 1);
    let mut out = crate::text::string_of_range(&v, 0, k - 1);
    let rest = crate::text::string_of_range(&v, k, v.len());
    push_str(&mut out, rest.as_str());
    proof {
        assert(out@ =~= v@.remove(k - 1));
        assert(v@.subrange(0, k - 1) =~= v@.take(k - 1));
        lemma_remove_boundary(v@, k as int);
    }
    *buf = out;
    *cursor = prev;
}

/// Moves the cursor one character to the left, if it can.
pub fn buffer_cursor_left(buf: &String, cursor: &mut usize)
    requires
        is_char_boundary_at(buf@, *old(cursor) as nat),
    ensures
        *old(cursor) > 0 ==> *final(cursor) == utf8_len(buf@.take(char_pos(buf@, *old(cursor) as nat) - 1)),
        *old(cursor) == 0 ==> *final(cursor) == 0,
        is_char_boundary_at(buf@, *final(cursor) as nat),
{
    if *cursor == 0 {
        return;
    }
    let v = chars_of(buf.as_str());
    let k = byte_to_char_index(&v, *cursor);
    proof {
        if k == 0 {
            assert(v@.take(0) =~= Seq::<char>::empty());
        }
        crate::text::lemma_utf8_len_prefix(v@, k as int);
        assert(v@.subrange(0, k - 1) =~= v@.take(k - 1));
        assert(v@.take(k as int).take(k - 1) =~= v@.take(k - 1));
        crate::text::lemma_utf8_len_prefix(v@.take(k as int), k - 1);
        assert(0 <= k - 1 <= v@.len());
    }
    *cursor = crate::text::str_utf8_len_of_range(&v, 0, k - 1);
}

/// Moves the cursor one character to the right, if it can.
pub fn buffer_cursor_right(buf: &String, cursor: &mut usize)
    requires
        is_char_boundary_at(buf@, *old(cursor) as nat),
        utf8_len(buf@) < usize::MAX - 8,
    ensures
        *old(cursor) < utf8_len(buf@) ==> *final(cursor) == utf8_len(buf@.take(char_pos(buf@, *old(cursor) as nat) + 1)),
        *old(cursor) >= utf8_len(buf@) ==> *final(cursor) == *old(cursor),
        is_char_boundary_at(buf@, *final(cursor) as nat),
{
    let v = chars_of(buf.as_str());
    let len = crate::text::str_utf8_len(buf.as_str());
    if *cursor >= len {
        return;
    }
    let k = byte_to_char_index(&v, *cursor);
    proof {
        if k == v.len() {
            assert(v@.take(k as int) =~= v@);
        }
        assert(v@.take(k + 1).drop_last() =~= v@.take(k as int));
        assert(0 <= k + 1 <= v@.len());
        assert(utf8_len(v@.take(k + 1)) == *cursor + char_utf8_len(v@[k as int]));
    }
    *cursor = *cursor + char_len_utf8(v[k]);
}

/// The method after `m` in the cycle GET, POST, PUT, DELETE, PATCH, HEAD, OPTIONS.
pub open spec fn next_method(m: HttpMethod) -> HttpMethod {
    match m {
        HttpMethod::GET => HttpMethod::POST,
        HttpMethod::POST => HttpMethod::PUT,
        HttpMethod::PUT => HttpMethod::DELETE,
        HttpMethod::DELETE => HttpMethod::PATCH,
        HttpMethod::PATCH => HttpMethod::HEAD,
        HttpMethod::HEAD => HttpMethod::OPTIONS,
        HttpMethod::OPTIONS => HttpMethod::GET,
    }
}

/// The method before `m` in the same cycle.
pub open spec fn prev_method(m: HttpMethod) -> HttpMethod {
    match m {
        HttpMethod::GET => HttpMethod::OPTIONS,
        HttpMethod::POST => HttpMethod::GET,
        HttpMethod::PUT => HttpMethod::POST,
        HttpMethod::DELETE => HttpMethod::PUT,
        HttpMethod::PATCH => HttpMethod::DELETE,
        HttpMethod::HEAD => HttpMethod::PATCH,
        HttpMethod::OPTIONS => HttpMethod::HEAD,
    }
}

/// The body type after `b` in the cycle none, json, form, text, xml, back to none; a GraphQL
/// body, which the cycle does not reach, goes on to form-data, and a form-data body back to none.
pub open spec fn next_body_type(b: BodyType) -> BodyType {
    match b {
        BodyType::NoBody => BodyType::Json,
        BodyType::Json => BodyType::Form,
        BodyType::Form => BodyType::Text,
        BodyType::Text => BodyType::Xml,
        BodyType::Xml => BodyType::NoBody,
        BodyType::Graphql => BodyType::FormData,
        BodyType::FormData => BodyType::NoBody,
    }
}

/// Cycling the method forward and back again gives the same method.
pub proof fn law_method_cycle_roundtrip(m: HttpMethod)
    ensures
        prev_method(next_method(m)) == m,
        next_method(prev_method(m)) == m,
{
}

/// The text a field of a request holds when editing starts.
pub open spec fn field_text(r: RequestView, f: EditingField) -> Seq<char> {
    match f {
        EditingField::Url => r.url,
        EditingField::RequestName => r.name,
        EditingField::Body => r.body,
        EditingField::ParamKey(i) => if i < r.params.len() {
            r.params[i as int].key
        } else {
            Seq::empty()
        },
        EditingField::ParamValue(i) => if i < r.params.len() {
            r.params[i as int].value
        } else {
            Seq::empty()
        },
        EditingField::HeaderKey(i) => if i < r.headers.len() {
            r.headers[i as int].key
        } else {
            Seq::empty()
        },
        EditingField::HeaderValue(i) => if i < r.headers.len() {
            r.headers[i as int].value
        } else {
            Seq::empty()
        },
        EditingField::AuthToken => match r.auth {
            AuthView::Bearer { token } => token,
            _ => Seq::empty(),
        },
        EditingField::AuthUsername => match r.auth {
            AuthView::Basic { username, password: _ } => username,
            _ => Seq::empty(),
        },
        EditingField::AuthPassword => match r.auth {
            AuthView::Basic { username: _, password } => password,
            _ => Seq::empty(),
        },
    }
}

/// The request once an edited field is stored back: a row field out of range changes nothing;
/// storing a token makes the authentication a bearer token, and storing a user name or a
/// password makes it basic (keeping the other half when it was basic already).
pub open spec fn apply_edit(r: RequestView, f: EditingField, t: Seq<char>) -> RequestView {
    match f {
        EditingField::Url => RequestView { url: t, ..r },
        EditingField::RequestName => RequestView { name: t, ..r },
        EditingField::Body => RequestView { body: t, ..r },
        EditingField::ParamKey(i) => if i < r.params.len() {
            RequestView { params: r.params.update(i as int, KeyValueView { key: t, ..r.params[i as int] }), ..r }
        } else {
            r
        },
        EditingField::ParamValue(i) => if i < r.params.len() {
            RequestView { params: r.params.update(i as int, KeyValueView { value: t, ..r.params[i as int] }), ..r }
        } else {
            r
        },
        EditingField::HeaderKey(i) => if i < r.headers.len() {
            RequestView { headers: r.headers.update(i as int, KeyValueView { key: t, ..r.headers[i as int] }), ..r }
        } else {
            r
        },
        EditingField::HeaderValue(i) => if i < r.headers.len() {
            RequestView { headers: r.headers.update(i as int, KeyValueView { value: t, ..r.headers[i as int] }), ..r }
        } else {
            r
        },
        EditingField::AuthToken => RequestView { auth: AuthView::Bearer { token: t }, ..r },
        EditingField::AuthUsername => RequestView {
            auth: AuthView::Basic {
                username: t,
                password: match r.auth {
                    AuthView::Basic { username: _, password } => password,
                    _ => Seq::empty(),
                },
            },
            ..r
        },
        EditingField::AuthPassword => RequestView {
            auth: AuthView::Basic {
                username: match r.auth {
                    AuthView::Basic { username, password: _ } => username,
                    _ => Seq::empty(),
                },
                password: t,
            },
            ..r
        },
    }
}

/// The text of an optional row field.
fn row_text(rows: &Vec<KeyValue>, i: usize, key: bool) -> (r: String)
    ensures
        r@ == (if i < rows@.len() {
            if key {
                rows@[i as int].key@
            } else {
                rows@[i as int].value@
            }
        } else {
            Seq::empty()
        }),
{
    if i < rows.len() {
        if key {
            rows[i].key.clone()
        } else {
            rows[i].value.clone()
        }
    } else {
        String::new()
    }
}

/// The rows with the key or the value of row `i` replaced, when there is such a row.
fn set_row_text(rows: &mut Vec<KeyValue>, i: usize, key: bool, t: String)
    ensures
        final(rows).deep_view() == (if i < old(rows)@.len() {
            old(rows).deep_view().update(
                i as int,
                if key {
                    KeyValueView { key: t@, ..old(rows).deep_view()[i as int] }
                } else {
                    KeyValueView { value: t@, ..old(rows).deep_view()[i as int] }
                },
            )
        } else {
            old(rows).deep_view()
        }),
{
    if i < rows.len() {
        let old_row = &rows[i];
        let row = if key {
            KeyValue { key: t, value: old_row.value.clone(), enabled: old_row.enabled }
        } else {
            KeyValue { key: old_row.key.clone(), value: t, enabled: old_row.enabled }
        };
        let ghost r0 = rows.deep_view();
        rows.set(i, row);
        assert(rows.deep_view() =~= r0.update(i as int, row@));
    }
}

/// The text of a field of a request.
fn field_text_of(r: &Request, field: EditingField) -> (t: String)
    ensures
        t@ == field_text(r@, field),
{
    match field {
        EditingField::Url => r.url.clone(),
        EditingField::RequestName => r.name.clone(),
        EditingField::Body => r.body.clone(),
        EditingField::ParamKey(i) => row_text(&r.params, i, true),
        EditingField::ParamValue(i) => row_text(&r.params, i, false),
        EditingField::HeaderKey(i) => row_text(&r.headers, i, true),
        EditingField::HeaderValue(i) => row_text(&r.headers, i, false),
        EditingField::AuthToken => match &r.auth {
            Auth::Bearer { token } => token.clone(),
            _ => String::new(),
        },
        EditingField::AuthUsername => match &r.auth {
            Auth::Basic { username, password: _ } => username.clone(),
            _ => String::new(),
        },
        EditingField::AuthPassword => match &r.auth {
            Auth::Basic { username: _, password } => password.clone(),
            _ => String::new(),
        },
    }
}

impl App {
    /// Starts editing a field: the buffer holds the field's text and the cursor is at its end.
    pub fn start_editing(&mut self, field: EditingField)
        requires
            utf8_len(field_text(old(self).current_request@, field)) <= usize::MAX,
        ensures
            final(self).edit_buffer@ == field_text(old(self).current_request@, field),
            final(self).cursor_pos == utf8_len(final(self).edit_buffer@),
            *final(self) == (App {
                input_mode: InputMode::Editing,
                editing_field: Some(field),
                edit_buffer: final(self).edit_buffer,
                cursor_pos: final(self).cursor_pos,
                ..*old(self)
            }),
    {
        self.input_mode = InputMode::Editing;
        self.editing_field = Some(field);
        let text = field_text_of(&self.current_request, field);
        self.cursor_pos = crate::text::str_utf8_len(text.as_str());
        self.edit_buffer = text;
    }

    /// Whether a field's text is short enough to be counted in the edit buffer.
    pub fn field_fits(&self, field: EditingField) -> (r: bool)
        ensures
            r == (utf8_len(field_text(self.current_request@, field)) < usize::MAX - 8),
    {
        let text = field_text_of(&self.current_request, field);
        crate::text::utf8_len_below(text.as_str(), usize::MAX - 8)
    }

    /// Leaves editing: normal mode, no field, empty buffer.
    pub fn cancel_edit(&mut self)
        ensures
            final(self).edit_buffer@.len() == 0,
            *final(self) == (App {
                input_mode: InputMode::Normal,
                editing_field: None,
                edit_buffer: final(self).edit_buffer,
                cursor_pos: 0,
                ..*old(self)
            }),
    {
        self.input_mode = InputMode::Normal;
        self.editing_field = None;
        self.edit_buffer = String::new();
        self.cursor_pos = 0;
    }

    /// Stores the request at a position of a collection, when there is one.
    pub fn store_request_at(&mut self, ci: usize, ri: usize, req: Request)
        requires
            ci < old(self).data.collections@.len(),
            ri < old(self).data.collections@[ci as int].requests@.len(),
        ensures
            final(self).data.collections@.len() == old(self).data.collections@.len(),
            forall|j: int|
                0 <= j < old(self).data.collections@.len() && j != ci ==> #[trigger] final(self).data.collections@[j] == old(self).data.collections@[j],
            final(self).data.collections@[ci as int] == (Collection {
                requests: final(self).data.collections@[ci as int].requests,
                ..old(self).data.collections@[ci as int]
            }),
            final(self).data.collections@[ci as int].requests@ == old(self).data.collections@[ci as int].requests@.update(ri as int, req),
            *final(self) == (App {
                data: AppData { collections: final(self).data.collections, ..old(self).data },
                ..*old(self)
            }),
    {
        let mut col = self.data.collections.remove(ci);
        col.requests.set(ri, req);
        self.data.collections.insert(ci, col);
    }

    /// Stores the edited field back into the current request.
    pub fn apply_current_edit(&mut self)
        ensures
            final(self).current_request@ == (match old(self).editing_field {
                Some(f) => apply_edit(old(self).current_request@, f, old(self).edit_buffer@),
                None => old(self).current_request@,
            }),
            *final(self) == (App { current_request: final(self).current_request, ..*old(self) }),
    {
        if let Some(field) = self.editing_field {
            let t = self.edit_buffer.clone();
            match field {
                EditingField::Url => self.current_request.url = t,
                EditingField::RequestName => self.current_request.name = t,
                EditingField::Body => self.current_request.body = t,
                EditingField::ParamKey(i) => set_row_text(&mut self.current_request.params, i, true, t),
                EditingField::ParamValue(i) => set_row_text(&mut self.current_request.params, i, false, t),
                EditingField::HeaderKey(i) => set_row_text(&mut self.current_request.headers, i, true, t),
                EditingField::HeaderValue(i) => set_row_text(&mut self.current_request.headers, i, false, t),
                EditingField::AuthToken => {
                    self.current_request.auth = Auth::Bearer { token: t };
                },
                EditingField::AuthUsername => {
                    let password = match &self.current_request.auth {
                        Auth::Basic { username: _, password } => password.clone(),
                        _ => String::new(),
                    };
                    self.current_request.auth = Auth::Basic { username: t, password };
                },
                EditingField::AuthPassword => {
                    let username = match &self.current_request.auth {
                        Auth::Basic { username, password: _ } => username.clone(),
                        _ => String::new(),
                    };
                    self.current_request.auth = Auth::Basic { username, password: t };
                },
            }
        }
    }

    /// Whether the current request came from a position that still exists.
    pub open spec fn source_valid(&self) -> bool {
        self.current_request_source matches Some((ci, ri)) && ci < self.data.collections@.len() && ri
            < self.data.collections@[ci as int].requests@.len()
    }

    /// Saves the current request back to the position it came from, when it still exists.
    pub fn sync_current_to_source(&mut self)
        ensures
            !old(self).source_valid() ==> *final(self) == *old(self),
            old(self).source_valid() ==> final(self).needs_save && ({
                let (ci, ri) = old(self).current_request_source->0;
                let cols0 = old(self).data.collections@;
                let cols1 = final(self).data.collections@;
                &&& cols1.len() == cols0.len()
                &&& forall|j: int| 0 <= j < cols0.len() && j != ci ==> #[trigger] cols1[j] == cols0[j]
                &&& cols1[ci as int] == (Collection { requests: cols1[ci as int].requests, ..cols0[ci as int] })
                &&& cols1[ci as int].requests@.len() == cols0[ci as int].requests@.len()
                &&& cols1[ci as int].requests@[ri as int]@ == old(self).current_request@
                &&& forall|k: int|
                    0 <= k < cols0[ci as int].requests@.len() && k != ri ==> #[trigger] cols1[ci as int].requests@[k]
                        == cols0[ci as int].requests@[k]
                &&& *final(self) == (App {
                    data: AppData { collections: final(self).data.collections, ..old(self).data },
                    needs_save: true,
                    ..*old(self)
                })
            }),
    {
        if let Some((ci, ri)) = self.current_request_source {
            if ci < self.data.collections.len() && ri < self.data.collections[ci].requests.len() {
                let req = self.current_request.copy();
                self.store_request_at(ci, ri, req);
                self.needs_save = true;
            }
        }
    }

    /// Stores the edited field back into the request, saves the request to the collection
    /// it came from (when it still exists there), and leaves editing.
    pub fn confirm_edit(&mut self)
        requires
            old(self).within_limits(),
        ensures
            final(self).within_limits(),
            final(self).current_request@ == (match old(self).editing_field {
                Some(f) => apply_edit(old(self).current_request@, f, old(self).edit_buffer@),
                None => old(self).current_request@,
            }),
            final(self).edit_buffer@.len() == 0,
            final(self).input_mode == InputMode::Normal,
            final(self).editing_field is None,
            final(self).cursor_pos == 0,
            !old(self).source_valid() ==> final(self).data == old(self).data,
            old(self).source_valid() ==> final(self).needs_save && ({
                let (ci, ri) = old(self).current_request_source->0;
                &&& final(self).data.collections@.len() == old(self).data.collections@.len()
                &&& final(self).data.collections@[ci as int].requests@.len() == old(
                    self).data.collections@[ci as int].requests@.len()
                &&& final(self).data.collections@[ci as int].requests@[ri as int]@
                    == final(self).current_request@
            }),
    {
        let ghost cols0 = self.data.collections@;
        let ghost exp = self.expanded_ids();
        self.apply_current_edit();
        let ghost valid = self.source_valid();
        let ghost src = self.current_request_source;
        self.sync_current_to_source();
        proof {
            if valid {
                let (ci, _ri) = src->0;
                let cols1 = self.data.collections@;
                assert(cols1 =~= cols0.update(ci as int, cols1[ci as int]));
                lemma_rows_len_same_shape(cols0, exp, ci as nat, cols1[ci as int]);
            }
        }
        self.cancel_edit();
        assert(utf8_len(self.edit_buffer@.subrange(0, 0)) == 0);
    }
}

impl App {
    /// Types a character into the edited field.
    pub fn insert_char(&mut self, c: char)
        requires
            is_char_boundary_at(old(self).edit_buffer@, old(self).cursor_pos as nat),
            utf8_len(old(self).edit_buffer@) < usize::MAX - 8,
        ensures
            is_char_boundary_at(final(self).edit_buffer@, final(self).cursor_pos as nat),
            utf8_len(final(self).edit_buffer@) == utf8_len(old(self).edit_buffer@) + char_utf8_len(c),
            final(self).edit_buffer@ == old(self).edit_buffer@.insert(
                char_pos(old(self).edit_buffer@, old(self).cursor_pos as nat),
                c,
            ),
            final(self).cursor_pos == old(self).cursor_pos + char_utf8_len(c),
            *final(self) == (App {
                edit_buffer: final(self).edit_buffer,
                cursor_pos: final(self).cursor_pos,
                ..*old(self)
            }),
    {
        buffer_insert(&mut self.edit_buffer, &mut self.cursor_pos, c);
    }

    /// Deletes the character before the cursor of the edited field.
    pub fn delete_char(&mut self)
        requires
            is_char_boundary_at(old(self).edit_buffer@, old(self).cursor_pos as nat),
        ensures
            utf8_len(final(self).edit_buffer@) <= utf8_len(old(self).edit_buffer@),
            old(self).cursor_pos > 0 ==> final(self).edit_buffer@ == old(self).edit_buffer@.remove(
                char_pos(old(self).edit_buffer@, old(self).cursor_pos as nat) - 1,
            ),
            old(self).cursor_pos == 0 ==> final(self).edit_buffer@ == old(self).edit_buffer@,
            is_char_boundary_at(final(self).edit_buffer@, final(self).cursor_pos as nat),
            *final(self) == (App {
                edit_buffer: final(self).edit_buffer,
                cursor_pos: final(self).cursor_pos,
                ..*old(self)
            }),
    {
        buffer_delete_before(&mut self.edit_buffer, &mut self.cursor_pos);
    }

    /// Moves the cursor of the edited field one character left.
    pub fn move_cursor_left(&mut self)
        requires
            is_char_boundary_at(old(self).edit_buffer@, old(self).cursor_pos as nat),
        ensures
            is_char_boundary_at(final(self).edit_buffer@, final(self).cursor_pos as nat),
            old(self).cursor_pos > 0 ==> final(self).cursor_pos == utf8_len(
                old(self).edit_buffer@.take(char_pos(old(self).edit_buffer@, old(self).cursor_pos as nat) - 1),
            ),
            *final(self) == (App {
                cursor_pos: final(self).cursor_pos,
                ..*old(self)
            }),
    {
        buffer_cursor_left(&self.edit_buffer, &mut self.cursor_pos);
    }

    /// Moves the cursor of the edited field one character right.
    pub fn move_cursor_right(&mut self)
        requires
            is_char_boundary_at(old(self).edit_buffer@, old(self).cursor_pos as nat),
            utf8_len(old(self).edit_buffer@) < usize::MAX - 8,
        ensures
            is_char_boundary_at(final(self).edit_buffer@, final(self).cursor_pos as nat),
            old(self).cursor_pos < utf8_len(old(self).edit_buffer@) ==> final(self).cursor_pos
                == utf8_len(
                old(self).edit_buffer@.take(char_pos(old(self).edit_buffer@, old(self).cursor_pos as nat) + 1),
            ),
            *final(self) == (App {
                cursor_pos: final(self).cursor_pos,
                ..*old(self)
            }),
    {
        buffer_cursor_right(&self.edit_buffer, &mut self.cursor_pos);
    }

    /// Types a character into the dialog.
    pub fn dialog_insert_char(&mut self, c: char)
        requires
            is_char_boundary_at(old(self).dialog_buffer@, old(self).dialog_cursor as nat),
            utf8_len(old(self).dialog_buffer@) < usize::MAX - 8,
        ensures
            is_char_boundary_at(final(self).dialog_buffer@, final(self).dialog_cursor as nat),
            utf8_len(final(self).dialog_buffer@) == utf8_len(old(self).dialog_buffer@) + char_utf8_len(c),
            final(self).dialog_buffer@ == old(self).dialog_buffer@.insert(
                char_pos(old(self).dialog_buffer@, old(self).dialog_cursor as nat),
                c,
            ),
            final(self).dialog_cursor == old(self).dialog_cursor + char_utf8_len(c),
            *final(self) == (App {
                dialog_buffer: final(self).dialog_buffer,
                dialog_cursor: final(self).dialog_cursor,
                ..*old(self)
            }),
    {
        buffer_insert(&mut self.dialog_buffer, &mut self.dialog_cursor, c);
    }

    /// Deletes the character before the dialog cursor.
    pub fn dialog_delete_char(&mut self)
        requires
            is_char_boundary_at(old(self).dialog_buffer@, old(self).dialog_cursor as nat),
        ensures
            is_char_boundary_at(final(self).dialog_buffer@, final(self).dialog_cursor as nat),
            utf8_len(final(self).dialog_buffer@) <= utf8_len(old(self).dialog_buffer@),
            old(self).dialog_cursor > 0 ==> final(self).dialog_buffer@ == old(self).dialog_buffer@.remove(
                char_pos(old(self).dialog_buffer@, old(self).dialog_cursor as nat) - 1,
            ),
            old(self).dialog_cursor == 0 ==> final(self).dialog_buffer@ == old(self).dialog_buffer@,
            *final(self) == (App {
                dialog_buffer: final(self).dialog_buffer,
                dialog_cursor: final(self).dialog_cursor,
                ..*old(self)
            }),
    {
        buffer_delete_before(&mut self.dialog_buffer, &mut self.dialog_cursor);
    }

    /// Moves the dialog cursor one character left.
    pub fn dialog_move_cursor_left(&mut self)
        requires
            is_char_boundary_at(old(self).dialog_buffer@, old(self).dialog_cursor as nat),
        ensures
            is_char_boundary_at(final(self).dialog_buffer@, final(self).dialog_cursor as nat),
            old(self).dialog_cursor > 0 ==> final(self).dialog_cursor == utf8_len(
                old(self).dialog_buffer@.take(char_pos(old(self).dialog_buffer@, old(self).dialog_cursor as nat) - 1),
            ),
            *final(self) == (App { dialog_cursor: final(self).dialog_cursor, ..*old(self) }),
    {
        buffer_cursor_left(&self.dialog_buffer, &mut self.dialog_cursor);
    }

    /// Moves the dialog cursor one character right.
    pub fn dialog_move_cursor_right(&mut self)
        requires
            is_char_boundary_at(old(self).dialog_buffer@, old(self).dialog_cursor as nat),
            utf8_len(old(self).dialog_buffer@) < usize::MAX - 8,
        ensures
            is_char_boundary_at(final(self).dialog_buffer@, final(self).dialog_cursor as nat),
            old(self).dialog_cursor < utf8_len(old(self).dialog_buffer@) ==> final(self).dialog_cursor
                == utf8_len(
                old(self).dialog_buffer@.take(char_pos(old(self).dialog_buffer@, old(self).dialog_cursor as nat) + 1),
            ),
            *final(self) == (App { dialog_cursor: final(self).dialog_cursor, ..*old(self) }),
    {
        buffer_cursor_right(&self.dialog_buffer, &mut self.dialog_cursor);
    }

    /// Adds an empty parameter row and selects it.
    pub fn add_param(&mut self)
        ensures
            final(self).current_request@ == (RequestView {
                params: old(self).current_request@.params.push(
                    KeyValueView { key: Seq::empty(), value: Seq::empty(), enabled: false },
                ),
                ..old(self).current_request@
            }),
            final(self).param_selected == Some((final(self).current_request@.params.len() - 1) as usize),
            *final(self) == (App {
                current_request: final(self).current_request,
                param_selected: final(self).param_selected,
                ..*old(self)
            }),
    {
        let ghost p0 = self.current_request.params;
        let kv = KeyValue::default();
        self.current_request.params.push(kv);
        proof {
            crate::text::lemma_deep_view_push(p0, self.current_request.params, kv);
        }
        self.param_selected = Some(self.current_request.params.len() - 1);
    }

    /// Adds an empty header row and selects it.
    pub fn add_header(&mut self)
        ensures
            final(self).current_request@ == (RequestView {
                headers: old(self).current_request@.headers.push(
                    KeyValueView { key: Seq::empty(), value: Seq::empty(), enabled: false },
                ),
                ..old(self).current_request@
            }),
            final(self).header_selected == Some((final(self).current_request@.headers.len() - 1) as usize),
            *final(self) == (App {
                current_request: final(self).current_request,
                header_selected: final(self).header_selected,
                ..*old(self)
            }),
    {
        let ghost h0 = self.current_request.headers;
        let kv = KeyValue::default();
        self.current_request.headers.push(kv);
        proof {
            crate::text::lemma_deep_view_push(h0, self.current_request.headers, kv);
        }
        self.header_selected = Some(self.current_request.headers.len() - 1);
    }

    /// Removes a parameter row; the selection stays but is kept within the rows.
    pub fn remove_param(&mut self, idx: usize)
        ensures
            idx < old(self).current_request@.params.len() ==> final(self).current_request@ == (
            RequestView {
                params: old(self).current_request@.params.remove(idx as int),
                ..old(self).current_request@
            }) && final(self).param_selected == Some(clamp_selection(
                old(self).param_selected,
                final(self).current_request@.params.len(),
            )),
            idx >= old(self).current_request@.params.len() ==> final(self).current_request@
                == old(self).current_request@ && final(self).param_selected == old(self).param_selected,
            *final(self) == (App {
                current_request: final(self).current_request,
                param_selected: final(self).param_selected,
                ..*old(self)
            }),
    {
        if idx < self.current_request.params.len() {
            let ghost p0 = self.current_request.params.deep_view();
            self.current_request.params.remove(idx);
            assert(self.current_request.params.deep_view() =~= p0.remove(idx as int));
            let max = if self.current_request.params.len() > 0 {
                self.current_request.params.len() - 1
            } else {
                0
            };
            let cur = match self.param_selected {
                Some(s) => s,
                None => 0,
            };
            self.param_selected = Some(if cur < max { cur } else { max });
        }
    }

    /// Removes a header row; the selection stays but is kept within the rows.
    pub fn remove_header(&mut self, idx: usize)
        ensures
            idx < old(self).current_request@.headers.len() ==> final(self).current_request@ == (
            RequestView {
                headers: old(self).current_request@.headers.remove(idx as int),
                ..old(self).current_request@
            }) && final(self).header_selected == Some(clamp_selection(
                old(self).header_selected,
                final(self).current_request@.headers.len(),
            )),
            idx >= old(self).current_request@.headers.len() ==> final(self).current_request@
                == old(self).current_request@ && final(self).header_selected == old(self).header_selected,
            *final(self) == (App {
                current_request: final(self).current_request,
                header_selected: final(self).header_selected,
                ..*old(self)
            }),
    {
        if idx < self.current_request.headers.len() {
            let ghost h0 = self.current_request.headers.deep_view();
            self.current_request.headers.remove(idx);
            assert(self.current_request.headers.deep_view() =~= h0.remove(idx as int));
            let max = if self.current_request.headers.len() > 0 {
                self.current_request.headers.len() - 1
            } else {
                0
            };
            let cur = match self.header_selected {
                Some(s) => s,
                None => 0,
            };
            self.header_selected = Some(if cur < max { cur } else { max });
        }
    }

    /// Switches a parameter row on or off.
    pub fn toggle_param(&mut self, idx: usize)
        ensures
            final(self).current_request@ == (if idx < old(self).current_request@.params.len() {
                RequestView {
                    params: old(self).current_request@.params.update(
                        idx as int,
                        KeyValueView {
                            enabled: !old(self).current_request@.params[idx as int].enabled,
                            ..old(self).current_request@.params[idx as int]
                        },
                    ),
                    ..old(self).current_request@
                }
            } else {
                old(self).current_request@
            }),
            *final(self) == (App { current_request: final(self).current_request, ..*old(self) }),
    {
        if idx < self.current_request.params.len() {
            let p = &self.current_request.params[idx];
            let np = KeyValue { key: p.key.clone(), value: p.value.clone(), enabled: !p.enabled };
            let ghost p0 = self.current_request.params.deep_view();
            self.current_request.params.set(idx, np);
            assert(self.current_request.params.deep_view() =~= p0.update(idx as int, np@));
        }
    }

    /// Switches a header row on or off.
    pub fn toggle_header(&mut self, idx: usize)
        ensures
            final(self).current_request@ == (if idx < old(self).current_request@.headers.len() {
                RequestView {
                    headers: old(self).current_request@.headers.update(
                        idx as int,
                        KeyValueView {
                            enabled: !old(self).current_request@.headers[idx as int].enabled,
                            ..old(self).current_request@.headers[idx as int]
                        },
                    ),
                    ..old(self).current_request@
                }
            } else {
                old(self).current_request@
            }),
            *final(self) == (App { current_request: final(self).current_request, ..*old(self) }),
    {
        if idx < self.current_request.headers.len() {
            let h = &self.current_request.headers[idx];
            let nh = KeyValue { key: h.key.clone(), value: h.value.clone(), enabled: !h.enabled };
            let ghost h0 = self.current_request.headers.deep_view();
            self.current_request.headers.set(idx, nh);
            assert(self.current_request.headers.deep_view() =~= h0.update(idx as int, nh@));
        }
    }

    /// The next method.
    pub fn cycle_method(&mut self)
        ensures
            final(self).current_request@ == (RequestView {
                method: next_method(old(self).current_request@.method),
                ..old(self).current_request@
            }),
            *final(self) == (App { current_request: final(self).current_request, ..*old(self) }),
    {
        self.current_request.method = match self.current_request.method {
            HttpMethod::GET => HttpMethod::POST,
            HttpMethod::POST => HttpMethod::PUT,
            HttpMethod::PUT => HttpMethod::DELETE,
            HttpMethod::DELETE => HttpMethod::PATCH,
            HttpMethod::PATCH => HttpMethod::HEAD,
            HttpMethod::HEAD => HttpMethod::OPTIONS,
            HttpMethod::OPTIONS => HttpMethod::GET,
        };
    }

    /// The previous method.
    pub fn cycle_method_prev(&mut self)
        ensures
            final(self).current_request@ == (RequestView {
                method: prev_method(old(self).current_request@.method),
                ..old(self).current_request@
            }),
            *final(self) == (App { current_request: final(self).current_request, ..*old(self) }),
    {
        self.current_request.method = match self.current_request.method {
            HttpMethod::GET => HttpMethod::OPTIONS,
            HttpMethod::POST => HttpMethod::GET,
            HttpMethod::PUT => HttpMethod::POST,
            HttpMethod::DELETE => HttpMethod::PUT,
            HttpMethod::PATCH => HttpMethod::DELETE,
            HttpMethod::HEAD => HttpMethod::PATCH,
            HttpMethod::OPTIONS => HttpMethod::HEAD,
        };
    }

    /// Shows the other response tab, scrolled to the top.
    pub fn cycle_response_tab(&mut self)
        ensures
            *final(self) == (App {
                response_tab: match old(self).response_tab {
                    ResponseTab::Body => ResponseTab::Headers,
                    ResponseTab::Headers => ResponseTab::Body,
                },
                response_scroll: (0, 0),
                ..*old(self)
            }),
    {
        self.response_tab = match self.response_tab {
            ResponseTab::Body => ResponseTab::Headers,
            ResponseTab::Headers => ResponseTab::Body,
        };
        self.response_scroll = (0, 0);
    }

    /// The next body type.
    pub fn cycle_body_type(&mut self)
        ensures
            final(self).current_request@ == (RequestView {
                body_type: next_body_type(old(self).current_request@.body_type),
                ..old(self).current_request@
            }),
            *final(self) == (App { current_request: final(self).current_request, ..*old(self) }),
    {
        self.current_request.body_type = match self.current_request.body_type {
            BodyType::NoBody => BodyType::Json,
            BodyType::Json => BodyType::Form,
            BodyType::Form => BodyType::Text,
            BodyType::Text => BodyType::Xml,
            BodyType::Xml => BodyType::NoBody,
            BodyType::Graphql => BodyType::FormData,
            BodyType::FormData => BodyType::NoBody,
        };
    }

    /// The next kind of authentication, with empty fields: none, bearer, basic.
    pub fn cycle_auth_type(&mut self)
        ensures
            final(self).current_request@ == (RequestView {
                auth: match old(self).current_request@.auth {
                    AuthView::NoAuth => AuthView::Bearer { token: Seq::empty() },
                    AuthView::Bearer { token: _ } => AuthView::Basic {
                        username: Seq::empty(),
                        password: Seq::empty(),
                    },
                    AuthView::Basic { username: _, password: _ } => AuthView::NoAuth,
                },
                ..old(self).current_request@
            }),
            *final(self) == (App { current_request: final(self).current_request, ..*old(self) }),
    {
        self.current_request.auth = match &self.current_request.auth {
            Auth::NoAuth => Auth::Bearer { token: String::new() },
            Auth::Bearer { token: _ } => Auth::Basic { username: String::new(), password: String::new() },
            Auth::Basic { username: _, password: _ } => Auth::NoAuth,
        };
    }

    /// Arms the window prefix until `WINDOW_PREFIX_TIMEOUT_TICKS` ticks from now.
    pub fn activate_window_prefix(&mut self)
        requires
            old(self).tick <= MAX_TICK,
        ensures
            *final(self) == (App {
                pending_window_prefix: true,
                pending_window_expiry: (old(self).tick + WINDOW_PREFIX_TIMEOUT_TICKS) as u64,
                ..*old(self)
            }),
    {
        self.pending_window_prefix = true;
        self.pending_window_expiry = self.tick + WINDOW_PREFIX_TIMEOUT_TICKS;
    }

    /// Opens a dialog with an empty input.
    pub fn open_dialog(&mut self, dtype: DialogType, message: String)
        ensures
            final(self).dialog_message@ == message@,
            final(self).dialog_buffer@.len() == 0,
            *final(self) == (App {
                dialog_type: dtype,
                dialog_message: final(self).dialog_message,
                dialog_buffer: final(self).dialog_buffer,
                dialog_cursor: 0,
                input_mode: InputMode::Editing,
                ..*old(self)
            }),
    {
        self.dialog_type = dtype;
        self.dialog_message = message;
        self.dialog_buffer = String::new();
        self.dialog_cursor = 0;
        self.input_mode = InputMode::Editing;
    }

    /// Closes the dialog.
    pub fn close_dialog(&mut self)
        ensures
            final(self).dialog_buffer@.len() == 0,
            *final(self) == (App {
                dialog_type: DialogType::NoDialog,
                dialog_buffer: final(self).dialog_buffer,
                dialog_cursor: 0,
                input_mode: InputMode::Normal,
                ..*old(self)
            }),
    {
        self.dialog_type = DialogType::NoDialog;
        self.dialog_buffer = String::new();
        self.dialog_cursor = 0;
        self.input_mode = InputMode::Normal;
    }

    /// Closes the dialog and gives what was typed, unless nothing was.
    pub fn confirm_dialog(&mut self) -> (r: Option<String>)
        ensures
            old(self).dialog_buffer@.len() == 0 ==> r is None,
            old(self).dialog_buffer@.len() > 0 ==> (r matches Some(v) && v@ == old(self).dialog_buffer@),
            final(self).dialog_buffer@.len() == 0,
            *final(self) == (App {
                dialog_type: DialogType::NoDialog,
                dialog_buffer: final(self).dialog_buffer,
                dialog_cursor: 0,
                input_mode: InputMode::Normal,
                ..*old(self)
            }),
    {
        let result = if self.dialog_buffer.as_str().is_empty() {
            None
        } else {
            Some(self.dialog_buffer.clone())
        };
        self.close_dialog();
        result
    }

    /// Loads a request into the editor, remembering where it came from.
    pub fn load_request(&mut self, req: Request, source: Option<(usize, usize)>)
        ensures
            final(self).current_request@ == req@,
            *final(self) == (App {
                current_request: final(self).current_request,
                current_request_source: source,
                response: None,
                response_scroll: (0, 0),
                request_tab: RequestTab::Headers,
                param_selected: Some(0),
                header_selected: Some(0),
                ..*old(self)
            }),
    {
        self.current_request = req;
        self.current_request_source = source;
        self.response = None;
        self.response_scroll = (0, 0);
        self.request_tab = RequestTab::Headers;
        self.param_selected = Some(0);
        self.header_selected = Some(0);
    }

    /// Starts a new, empty request (with no URL) and moves to the URL bar.
    pub fn new_request(&mut self)
        requires
            old(self).tick <= MAX_TICK,
        ensures
            final(self).current_request@ == empty_request(),
            final(self).current_request_source is None,
            final(self).response is None,
            final(self).request_tab == RequestTab::Headers,
            final(self).active_pane == ActivePane::UrlBar,
            final(self).param_selected == Some(0usize),
            final(self).header_selected == Some(0usize),
            final(self).status_message matches Some((m, _)) && m@
                == "New request created — edit URL and press Enter to send"@,
            final(self).data == old(self).data,
            *final(self) == (App {
                current_request: final(self).current_request,
                current_request_source: None,
                response: None,
                request_tab: RequestTab::Headers,
                active_pane: ActivePane::UrlBar,
                param_selected: Some(0usize),
                header_selected: Some(0usize),
                status_message: final(self).status_message,
                ..*old(self)
            }),
    {
        self.current_request = Request::default();
        self.current_request.url = String::new();
        self.current_request_source = None;
        self.response = None;
        self.request_tab = RequestTab::Headers;
        self.param_selected = Some(0);
        self.header_selected = Some(0);
        self.active_pane = ActivePane::UrlBar;
        self.set_status(copy_str("New request created — edit URL and press Enter to send"));
    }
}

/// The selection kept after a row is removed: the old selection (or the first row), but no
/// further than the last row.
pub open spec fn clamp_selection(sel: Option<usize>, len: nat) -> usize {
    let cur = match sel {
        Some(s) => s as int,
        None => 0,
    };
    let max = if len > 0 { len - 1 } else { 0 };
    (if cur < max { cur } else { max }) as usize
}

/// `a + b`.
fn concat2(a: &str, b: &str) -> (r: String)
    ensures
        r@ == a@ + b@,
{
    let mut r = copy_str(a);
    push_str(&mut r, b);
    r
}

/// `a + b + c`.
fn concat3(a: &str, b: &str, c: &str) -> (r: String)
    ensures
        r@ == a@ + b@ + c@,
{
    let mut r = copy_str(a);
    push_str(&mut r, b);
    push_str(&mut r, c);
    r
}

/// The header names the key cycle goes through.
pub open spec fn common_headers() -> Seq<Seq<char>> {
    seq![
        "Content-Type"@,
        "Accept"@,
        "Authorization"@,
        "User-Agent"@,
        "Cache-Control"@,
        "X-Request-Id"@,
        "X-Api-Key"@,
        "Referer"@,
        "Origin"@,
    ]
}

/// The value a header gets when the key cycle reaches its name.
pub open spec fn default_header_value(name: Seq<char>) -> Seq<char> {
    if name == "Content-Type"@ {
        "application/json"@
    } else if name == "Accept"@ {
        "application/json"@
    } else if name == "Authorization"@ {
        "Bearer "@
    } else if name == "User-Agent"@ {
        crate::config::DEFAULT_USER_AGENT@
    } else if name == "Cache-Control"@ {
        "no-cache"@
    } else {
        Seq::empty()
    }
}

/// The values the value cycle goes through for a header name.
pub open spec fn header_presets(name: Seq<char>) -> Seq<Seq<char>> {
    if name == "Content-Type"@ {
        seq![
            "application/json"@,
            "application/x-www-form-urlencoded"@,
            "text/plain"@,
            "application/xml"@,
            "multipart/form-data"@,
        ]
    } else if name == "Accept"@ {
        seq!["application/json"@, "text/html"@, "application/xml"@, "*/*"@]
    } else if name == "Authorization"@ {
        seq!["Bearer "@, "Basic "@]
    } else if name == "Cache-Control"@ {
        seq!["no-cache"@, "no-store"@, "max-age=0"@, "must-revalidate"@]
    } else if name == "User-Agent"@ {
        seq![crate::config::DEFAULT_USER_AGENT@, "Mozilla/5.0"@, "curl/7.64.1"@]
    } else {
        seq![Seq::empty()]
    }
}

/// The first position of `x` in `list`, at or after `from`.
pub open spec fn position_in(list: Seq<Seq<char>>, x: Seq<char>, from: int) -> Option<int>
    decreases list.len() - from,
{
    if from < 0 || from >= list.len() {
        None
    } else if list[from] == x {
        Some(from)
    } else {
        position_in(list, x, from + 1)
    }
}

/// The entry after `x` in a non-empty cyclic list; an `x` not in the list counts as the last.
pub open spec fn next_in(list: Seq<Seq<char>>, x: Seq<char>) -> Seq<char> {
    let pos = match position_in(list, x, 0) {
        Some(p) => p,
        None => list.len() - 1,
    };
    list[(pos + 1) % (list.len() as int)]
}

/// The entry after `x` in a non-empty cyclic list.
fn next_in_list(list: &Vec<&str>, x: &str) -> (r: String)
    requires
        list@.len() > 0,
    ensures
        r@ == next_in(list@.map_values(|s: &str| s@), x@),
{
    let ghost lv = list@.map_values(|s: &str| s@);
    let mut i: usize = 0;
    while i < list.len()
        invariant
            i <= list.len(),
            list@.len() > 0,
            lv == list@.map_values(|s: &str| s@),
            position_in(lv, x@, 0) == position_in(lv, x@, i as int),
        decreases list.len() - i,
    {
        if str_eq(list[i], x) {
            let next = (i + 1) % list.len();
            assert(lv[next as int] == list@[next as int]@);
            return copy_str(list[next]);
        }
        i = i + 1;
    }
    assert(lv.len() == list@.len());
    assert(position_in(lv, x@, i as int) is None);
    assert((lv.len() - 1 + 1) % (lv.len() as int) == 0) by (nonlinear_arith)
        requires
            lv.len() > 0,
    ;
    assert(lv[0] == list@[0]@);
    copy_str(list[0])
}

/// The header names of the key cycle.
fn common_header_list() -> (r: Vec<&'static str>)
    ensures
        r@.map_values(|s: &str| s@) == common_headers(),
{
    let r = vec![
        "Content-Type",
        "Accept",
        "Authorization",
        "User-Agent",
        "Cache-Control",
        "X-Request-Id",
        "X-Api-Key",
        "Referer",
        "Origin",
    ];
    assert(r@.map_values(|s: &str| s@) =~= common_headers());
    r
}

/// The values of the value cycle for a header name.
fn header_preset_list(name: &str) -> (r: Vec<&'static str>)
    ensures
        r@.map_values(|s: &str| s@) == header_presets(name@),
        r@.len() > 0,
{
    if str_eq(name, "Content-Type") {
        let r = vec![
            "application/json",
            "application/x-www-form-urlencoded",
            "text/plain",
            "application/xml",
            "multipart/form-data",
        ];
        assert(r@.map_values(|s: &str| s@) =~= header_presets(name@));
        r
    } else if str_eq(name, "Accept") {
        let r = vec!["application/json", "text/html", "application/xml", "*/*"];
        assert(r@.map_values(|s: &str| s@) =~= header_presets(name@));
        r
    } else if str_eq(name, "Authorization") {
        let r = vec!["Bearer ", "Basic "];
        assert(r@.map_values(|s: &str| s@) =~= header_presets(name@));
        r
    } else if str_eq(name, "Cache-Control") {
        let r = vec!["no-cache", "no-store", "max-age=0", "must-revalidate"];
        assert(r@.map_values(|s: &str| s@) =~= header_presets(name@));
        r
    } else if str_eq(name, "User-Agent") {
        let r = vec![crate::config::DEFAULT_USER_AGENT, "Mozilla/5.0", "curl/7.64.1"];
        assert(r@.map_values(|s: &str| s@) =~= header_presets(name@));
        r
    } else {
        let r = vec![""];
        proof {
            reveal_strlit("");
        }
        assert(""@ =~= Seq::<char>::empty());
        assert(r@.map_values(|s: &str| s@)[0] == Seq::<char>::empty());
        assert(r@.map_values(|s: &str| s@) =~= header_presets(name@));
        r
    }
}

/// The value a header gets when the key cycle reaches its name.
fn default_value_for(name: &str) -> (r: String)
    ensures
        r@ == default_header_value(name@),
{
    if str_eq(name, "Content-Type") {
        copy_str("application/json")
    } else if str_eq(name, "Accept") {
        copy_str("application/json")
    } else if str_eq(name, "Authorization") {
        copy_str("Bearer ")
    } else if str_eq(name, "User-Agent") {
        copy_str(crate::config::DEFAULT_USER_AGENT)
    } else if str_eq(name, "Cache-Control") {
        copy_str("no-cache")
    } else {
        String::new()
    }
}

impl App {
    /// Gives a header row the next common header name, with that name's usual value.
    pub fn cycle_header_key(&mut self, idx: usize)
        ensures
            final(self).current_request@ == (if idx < old(self).current_request@.headers.len() {
                let name = next_in(common_headers(), old(self).current_request@.headers[idx as int].key);
                RequestView {
                    headers: old(self).current_request@.headers.update(
                        idx as int,
                        KeyValueView {
                            key: name,
                            value: default_header_value(name),
                            ..old(self).current_request@.headers[idx as int]
                        },
                    ),
                    ..old(self).current_request@
                }
            } else {
                old(self).current_request@
            }),
            *final(self) == (App { current_request: final(self).current_request, ..*old(self) }),
    {
        if idx < self.current_request.headers.len() {
            let common = common_header_list();
            let h = &self.current_request.headers[idx];
            let name = next_in_list(&common, h.key.as_str());
            let value = default_value_for(name.as_str());
            let nh = KeyValue { key: name, value, enabled: h.enabled };
            let ghost h0 = self.current_request.headers.deep_view();
            self.current_request.headers.set(idx, nh);
            assert(self.current_request.headers.deep_view() =~= h0.update(idx as int, nh@));
        }
    }

    /// Gives a header row the next usual value for its name.
    pub fn cycle_header_value(&mut self, idx: usize)
        ensures
            final(self).current_request@ == (if idx < old(self).current_request@.headers.len() {
                let h = old(self).current_request@.headers[idx as int];
                RequestView {
                    headers: old(self).current_request@.headers.update(
                        idx as int,
                        KeyValueView { value: next_in(header_presets(h.key), h.value), ..h },
                    ),
                    ..old(self).current_request@
                }
            } else {
                old(self).current_request@
            }),
            *final(self) == (App { current_request: final(self).current_request, ..*old(self) }),
    {
        if idx < self.current_request.headers.len() {
            let h = &self.current_request.headers[idx];
            let presets = header_preset_list(h.key.as_str());
            let value = next_in_list(&presets, h.value.as_str());
            let nh = KeyValue { key: h.key.clone(), value, enabled: h.enabled };
            let ghost h0 = self.current_request.headers.deep_view();
            self.current_request.headers.set(idx, nh);
            assert(self.current_request.headers.deep_view() =~= h0.update(idx as int, nh@));
        }
    }
}

/// Whether an id differs from `id`.
pub open spec fn other_id(id: Seq<char>) -> spec_fn(Seq<char>) -> bool {
    |x: Seq<char>| x != id
}

/// Removes every occurrence of `id` from a list of ids.
pub(crate) fn remove_id(ids: &Vec<String>, id: &str) -> (r: Vec<String>)
    ensures
        r.deep_view() == ids.deep_view().filter(other_id(id@)),
{
    let ghost v = ids.deep_view();
    let mut r: Vec<String> = Vec::new();
    let mut i: usize = 0;
    assert(v.take(0).filter(other_id(id@)) =~= Seq::<Seq<char>>::empty());
    assert(r.deep_view() =~= Seq::<Seq<char>>::empty());
    while i < ids.len()
        invariant
            i <= ids.len(),
            v == ids.deep_view(),
            r.deep_view() == v.take(i as int).filter(other_id(id@)),
        decreases ids.len() - i,
    {
        assert(v.take(i + 1) =~= v.take(i as int).push(v[i as int]));
        proof {
            v.take(i as int).lemma_filter_push(v[i as int], other_id(id@));
        }
        if !str_eq(ids[i].as_str(), id) {
            let ghost r0 = r;
            let x = ids[i].clone();
            r.push(x);
            proof {
                crate::text::lemma_deep_view_push(r0, r, x);
            }
        }
        i = i + 1;
    }
    assert(v.take(i as int) =~= v);
    r
}

/// The number of sidebar rows a collection takes.
pub open spec fn collection_weight(c: Collection, expanded: Seq<Seq<char>>) -> nat {
    1 + if is_expanded(expanded, c) {
        c.requests@.len()
    } else {
        0
    }
}

proof fn lemma_rows_len_step(cols: Seq<Collection>, exp: Seq<Seq<char>>, n: nat)
    requires
        0 < n <= cols.len(),
    ensures
        rows_upto(cols, exp, n).len() == rows_upto(cols, exp, (n - 1) as nat).len()
            + collection_weight(cols[n - 1], exp),
{
}

/// Collections that take no more rows, one by one, take no more rows together.
proof fn lemma_rows_len_le(
    c1: Seq<Collection>,
    e1: Seq<Seq<char>>,
    c2: Seq<Collection>,
    e2: Seq<Seq<char>>,
    n: nat,
)
    requires
        n <= c1.len(),
        n <= c2.len(),
        forall|i: int| 0 <= i < n ==> collection_weight(#[trigger] c1[i], e1) <= collection_weight(c2[i], e2),
    ensures
        rows_upto(c1, e1, n).len() <= rows_upto(c2, e2, n).len(),
    decreases n,
{
    if n > 0 {
        lemma_rows_len_le(c1, e1, c2, e2, (n - 1) as nat);
        lemma_rows_len_step(c1, e1, n);
        lemma_rows_len_step(c2, e2, n);
    }
}

/// Removing a collection removes exactly its rows.
proof fn lemma_rows_len_remove(cols: Seq<Collection>, exp: Seq<Seq<char>>, ci: nat, k: nat)
    requires
        ci <= k < cols.len(),
    ensures
        rows_upto(cols.remove(ci as int), exp, k).len() + collection_weight(cols[ci as int], exp)
            == rows_upto(cols, exp, k + 1).len(),
    decreases k,
{
    let r = cols.remove(ci as int);
    if k == ci {
        lemma_rows_len_le(r, exp, cols, exp, ci);
        lemma_rows_len_le(cols, exp, r, exp, ci);
        lemma_rows_len_step(cols, exp, k + 1);
    } else {
        lemma_rows_len_remove(cols, exp, ci, (k - 1) as nat);
        lemma_rows_len_step(r, exp, k);
        lemma_rows_len_step(cols, exp, k + 1);
    }
}

/// Changing one collection changes the row count by the difference of its rows.
proof fn lemma_rows_len_update(cols: Seq<Collection>, exp: Seq<Seq<char>>, ci: nat, c: Collection)
    requires
        ci < cols.len(),
    ensures
        rows_upto(cols.update(ci as int, c), exp, cols.len()).len() + collection_weight(
            cols[ci as int],
            exp,
        ) == rows_upto(cols, exp, cols.len()).len() + collection_weight(c, exp),
{
    let u = cols.update(ci as int, c);
    lemma_rows_len_remove(cols, exp, ci, (cols.len() - 1) as nat);
    lemma_rows_len_remove(u, exp, ci, (cols.len() - 1) as nat);
    assert(u.remove(ci as int) =~= cols.remove(ci as int));
}

/// Adding a collection at the end adds its rows.
proof fn lemma_rows_len_push(cols: Seq<Collection>, exp: Seq<Seq<char>>, c: Collection)
    ensures
        rows_upto(cols.push(c), exp, cols.len() + 1).len() == rows_upto(cols, exp, cols.len()).len()
            + collection_weight(c, exp),
{
    let p = cols.push(c);
    lemma_rows_len_le(p, exp, cols, exp, cols.len());
    lemma_rows_len_le(cols, exp, p, exp, cols.len());
    lemma_rows_len_step(p, exp, cols.len() + 1);
}

/// The rows shown never outnumber the rows with everything expanded.
pub(crate) proof fn lemma_rows_within_total(cols: Seq<Collection>, exp: Seq<Seq<char>>)
    ensures
        rows_upto(cols, exp, cols.len()).len() <= rows_upto(cols, all_ids(cols), cols.len()).len(),
{
    assert forall|i: int| 0 <= i < cols.len() implies collection_weight(#[trigger] cols[i], exp)
        <= collection_weight(cols[i], all_ids(cols)) by {
        assert(all_ids(cols)[i] == cols[i].id@);
    }
    lemma_rows_len_le(cols, exp, cols, all_ids(cols), cols.len());
}

/// Replacing a collection by one with the same id and as many requests keeps every count.
proof fn lemma_rows_len_same_shape(cols: Seq<Collection>, exp: Seq<Seq<char>>, ci: nat, c: Collection)
    requires
        ci < cols.len(),
        c.id@ == cols[ci as int].id@,
        c.requests@.len() == cols[ci as int].requests@.len(),
    ensures
        rows_upto(cols.update(ci as int, c), exp, cols.len()).len() == rows_upto(cols, exp, cols.len()).len(),
        rows_upto(cols.update(ci as int, c), all_ids(cols.update(ci as int, c)), cols.len()).len()
            == rows_upto(cols, all_ids(cols), cols.len()).len(),
{
    lemma_rows_len_update(cols, exp, ci, c);
    assert(all_ids(cols.update(ci as int, c)) =~= all_ids(cols));
    lemma_rows_len_update(cols, all_ids(cols), ci, c);
}

/// After one request is added to collection `ci`, which is then expanded: the count with
/// everything expanded grows by one, and the new request's row lies within the rows.
proof fn lemma_added_request_rows(cols0: Seq<Collection>, cols1: Seq<Collection>, exp1: Seq<Seq<char>>, ci: nat)
    requires
        ci < cols0.len(),
        cols1 == cols0.update(ci as int, cols1[ci as int]),
        cols1[ci as int].id@ == cols0[ci as int].id@,
        cols1[ci as int].requests@.len() == cols0[ci as int].requests@.len() + 1,
        exp1.contains(cols1[ci as int].id@),
    ensures
        rows_upto(cols1, all_ids(cols1), cols1.len()).len() == rows_upto(cols0, all_ids(cols0), cols0.len()).len() + 1,
        rows_upto(cols1, exp1, cols1.len()).len() <= rows_upto(cols1, all_ids(cols1), cols1.len()).len(),
        rows_upto(cols1, exp1, ci).len() + cols1[ci as int].requests@.len() < rows_upto(cols1, exp1, cols1.len()).len(),
{
    assert(all_ids(cols1) =~= all_ids(cols0));
    assert(all_ids(cols0)[ci as int] == cols0[ci as int].id@);
    lemma_rows_len_update(cols0, all_ids(cols0), ci, cols1[ci as int]);
    lemma_rows_within_total(cols1, exp1);
    lemma_rows_len_step(cols1, exp1, ci + 1);
    lemma_rows_upto_prefix(cols1, exp1, ci + 1, cols1.len());
}

/// Whether the selected row of the collections sidebar is a request.
pub open spec fn selected_request_row(a: App) -> bool {
    a.sidebar_tab == SidebarTab::Collections && a.sidebar_selected < a.rows().len() && a.rows()[a.sidebar_selected as int] is Request
}

/// What loading the selected request does: when the selected row is a request, that request
/// becomes the current one (remembering where it came from) and a status says so; otherwise
/// nothing changes.
pub open spec fn load_selected_done(a: App, b: App) -> bool {
    if selected_request_row(a) {
        let (ci, ri) = row_position(a.rows()[a.sidebar_selected as int]);
        let req = a.data.collections@[ci as int].requests@[ri->0 as int];
        &&& b.current_request@ == req@
        &&& b.status_message matches Some((m, _)) && m@ == "Loaded: "@ + req.name@
        &&& b == (App {
            current_request: b.current_request,
            current_request_source: Some((ci as usize, ri->0 as usize)),
            response: None,
            response_scroll: (0, 0),
            request_tab: RequestTab::Headers,
            param_selected: Some(0usize),
            header_selected: Some(0usize),
            status_message: b.status_message,
            ..a
        })
    } else {
        b == a
    }
}

/// What asking to delete the selected row does: a confirmation dialog names the collection or
/// request, with "cancel" preselected, and the target is remembered.
pub open spec fn delete_asked(a: App, b: App) -> bool {
    if a.sidebar_tab == SidebarTab::Collections && a.sidebar_selected < a.rows().len() {
        let (ci, ri) = row_position(a.rows()[a.sidebar_selected as int]);
        &&& b.dialog_message@ == match ri {
            Some(x) => a.data.collections@[ci as int].requests@[x as int].name@,
            None => a.data.collections@[ci as int].name@,
        }
        &&& b.dialog_buffer@.len() == 0
        &&& b == (App {
            pending_delete: Some(
                match ri {
                    Some(x) => DeleteTarget::Request(ci as usize, x as usize),
                    None => DeleteTarget::Collection(ci as usize),
                },
            ),
            dialog_type: DialogType::DeleteConfirm,
            dialog_option_selected: false,
            input_mode: InputMode::Editing,
            dialog_message: b.dialog_message,
            dialog_buffer: b.dialog_buffer,
            dialog_cursor: 0,
            ..a
        })
    } else {
        b == a
    }
}

impl App {
    /// Loads the selected request of the collections sidebar, if a request row is selected.
    pub fn try_load_selected_collection_request(&mut self) -> (r: bool)
        requires
            old(self).within_limits(),
        ensures
            r == selected_request_row(*old(self)),
            load_selected_done(*old(self), *final(self)),
    {
        if self.sidebar_tab != SidebarTab::Collections {
            return false;
        }
        match self.locate_selected() {
            Some((ci, Some(ri))) => {
                let req = self.data.collections[ci].requests[ri].copy();
                let mut msg = copy_str("Loaded: ");
                push_str(&mut msg, req.name.as_str());
                self.load_request(req, Some((ci, ri)));
                self.set_status(msg);
                true
            },
            _ => false,
        }
    }

    /// Asks to confirm deleting the selected collection or request.
    pub fn delete_selected_item(&mut self)
        requires
            old(self).within_limits(),
        ensures
            delete_asked(*old(self), *final(self)),
    {
        if self.sidebar_tab != SidebarTab::Collections {
            return;
        }
        match self.locate_selected() {
            Some((ci, None)) => {
                self.pending_delete = Some(DeleteTarget::Collection(ci));
                self.dialog_option_selected = false;
                let name = self.data.collections[ci].name.clone();
                self.open_dialog(DialogType::DeleteConfirm, name);
            },
            Some((ci, Some(ri))) => {
                self.pending_delete = Some(DeleteTarget::Request(ci, ri));
                self.dialog_option_selected = false;
                let name = self.data.collections[ci].requests[ri].name.clone();
                self.open_dialog(DialogType::DeleteConfirm, name);
            },
            None => {},
        }
    }

    /// Keeps the sidebar selection on an existing row after rows went away.
    fn clamp_sidebar_selection(&mut self)
        requires
            old(self).within_limits(),
        ensures
            *final(self) == (App {
                sidebar_selected: if old(self).sidebar_selected >= old(self).item_count()
                    && old(self).item_count() > 0 {
                    (old(self).item_count() - 1) as usize
                } else {
                    old(self).sidebar_selected
                },
                ..*old(self)
            }),
    {
        let max = self.sidebar_item_count();
        if self.sidebar_selected >= max && max > 0 {
            self.sidebar_selected = max - 1;
        }
    }

    /// Carries out the deletion that was asked for and confirmed.
    pub fn execute_pending_delete(&mut self)
        requires
            old(self).within_limits(),
        ensures
            final(self).pending_delete is None,
            final(self).within_limits(),
            final(self).dialog_type == old(self).dialog_type,
            final(self).input_mode == old(self).input_mode,
            match old(self).pending_delete {
                Some(DeleteTarget::Collection(ci)) => if ci < old(self).data.collections@.len() {
                    &&& final(self).data.collections@ == old(self).data.collections@.remove(ci as int)
                    &&& final(self).expanded_ids() == old(self).expanded_ids().filter(
                        other_id(old(self).data.collections@[ci as int].id@),
                    )
                    &&& final(self).needs_save
                    &&& final(self).status_message matches Some((m, _)) && m@ == "Deleted collection '"@
                        + old(self).data.collections@[ci as int].name@ + "'"@
                } else {
                    final(self).data == old(self).data
                },
                Some(DeleteTarget::Request(ci, ri)) => if ci < old(self).data.collections@.len() && ri
                    < old(self).data.collections@[ci as int].requests@.len() {
                    &&& final(self).data.collections@.len() == old(self).data.collections@.len()
                    &&& forall|j: int|
                        0 <= j < old(self).data.collections@.len() && j != ci ==> #[trigger] final(self).data.collections@[j]
                            == old(self).data.collections@[j]
                    &&& final(self).data.collections@[ci as int].requests@ == old(self).data.collections@[ci as int].requests@.remove(ri as int)
                    &&& final(self).needs_save
                    &&& final(self).status_message matches Some((m, _)) && m@ == "Deleted request '"@
                        + old(self).data.collections@[ci as int].requests@[ri as int].name@ + "'"@
                } else {
                    final(self).data == old(self).data
                },
                None => final(self).data == old(self).data,
            },
    {
        let target = self.pending_delete;
        self.pending_delete = None;
        let ghost old_cols = self.data.collections@;
        let ghost old_exp = self.expanded_ids();
        match target {
            Some(DeleteTarget::Collection(ci)) => {
                if ci < self.data.collections.len() {
                    let col = self.data.collections.remove(ci);
                    let ghost col_id = col.id@;
                    self.collection_expanded = remove_id(&self.collection_expanded, col.id.as_str());
                    self.needs_save = true;
                    let msg = concat3("Deleted collection '", col.name.as_str(), "'");
                    self.set_status(msg);
                    proof {
                        let c0 = old_cols;
                        let e0 = old_exp;
                        let e1 = self.expanded_ids();
                        let n: nat = c0.len();
                        lemma_rows_len_remove(c0, e0, ci as nat, (n - 1) as nat);
                        assert forall|i: int| 0 <= i < n - 1 implies collection_weight(
                            #[trigger] c0.remove(ci as int)[i],
                            e1,
                        ) <= collection_weight(c0.remove(ci as int)[i], e0) by {
                            let c = c0.remove(ci as int)[i];
                            if e1.contains(c.id@) {
                                e0.lemma_filter_contains_rev(other_id(col_id), c.id@);
                            }
                        }
                        lemma_rows_len_le(c0.remove(ci as int), e1, c0.remove(ci as int), e0, (n - 1) as nat);
                        let r = c0.remove(ci as int);
                        lemma_rows_len_remove(c0, all_ids(c0), ci as nat, (n - 1) as nat);
                        assert forall|i: int| 0 <= i < n - 1 implies collection_weight(
                            #[trigger] r[i],
                            all_ids(r),
                        ) <= collection_weight(r[i], all_ids(c0)) by {
                            let j = if i < ci { i } else { i + 1 };
                            assert(all_ids(c0)[j] == r[i].id@);
                        }
                        lemma_rows_len_le(r, all_ids(r), r, all_ids(c0), (n - 1) as nat);
                    }
                    self.clamp_sidebar_selection();
                }
            },
            Some(DeleteTarget::Request(ci, ri)) => {
                if ci < self.data.collections.len() && ri < self.data.collections[ci].requests.len() {
                    let mut col = self.data.collections.remove(ci);
                    let req = col.requests.remove(ri);
                    self.data.collections.insert(ci, col);
                    self.needs_save = true;
                    let msg = concat3("Deleted request '", req.name.as_str(), "'");
                    self.set_status(msg);
                    proof {
                        let c0 = old_cols;
                        let c1 = self.data.collections@;
                        let e = self.expanded_ids();
                        assert forall|i: int| 0 <= i < c0.len() implies collection_weight(
                            #[trigger] c1[i],
                            e,
                        ) <= collection_weight(c0[i], e) by {}
                        lemma_rows_len_le(c1, e, c0, e, c0.len());
                        assert(all_ids(c1) =~= all_ids(c0));
                        assert forall|i: int| 0 <= i < c0.len() implies collection_weight(
                            #[trigger] c1[i],
                            all_ids(c1),
                        ) <= collection_weight(c0[i], all_ids(c0)) by {}
                        lemma_rows_len_le(c1, all_ids(c1), c0, all_ids(c0), c0.len());
                    }
                    self.clamp_sidebar_selection();
                }
            },
            None => {},
        }
    }
}

/// How many entries the history of the stored data keeps.
pub const APP_HISTORY_LIMIT: usize = 100;

/// The index of the first environment with id `id`, looking from `i` on.
pub open spec fn find_env_from(envs: Seq<Environment>, id: Seq<char>, i: nat) -> Option<nat>
    decreases envs.len() - i,
{
    if i >= envs.len() {
        None
    } else if envs[i as int].id@ == id {
        Some(i)
    } else {
        find_env_from(envs, id, i + 1)
    }
}

/// The variables of the active environment: none when no environment is active or the active
/// one is gone.
pub open spec fn active_env_vars(data: AppData) -> Seq<(Seq<char>, Seq<char>)> {
    match data.active_env_id {
        Some(id) => match find_env_from(data.environments@, id@, 0) {
            Some(i) => data.environments@[i as int].variables.deep_view(),
            None => Seq::empty(),
        },
        None => Seq::empty(),
    }
}

/// `r` is `s` with the variables filled in and then the built-in variables.
pub open spec fn env_resolution(s: Seq<char>, vars: Seq<(Seq<char>, Seq<char>)>, r: Seq<char>) -> bool {
    is_builtin_resolution(subst_vars(s, vars), r)
}

/// The rows `r` are the rows `kv` with each value resolved.
pub open spec fn rows_resolved(
    kv: Seq<KeyValueView>,
    vars: Seq<(Seq<char>, Seq<char>)>,
    r: Seq<KeyValueView>,
) -> bool {
    &&& r.len() == kv.len()
    &&& forall|i: int|
        #![trigger r[i]]
        0 <= i < kv.len() ==> r[i].key == kv[i].key && r[i].enabled == kv[i].enabled
            && env_resolution(kv[i].value, vars, r[i].value)
}

/// Fills in the variables and then the built-in variables.
fn resolve_text(s: &str, vars: &Vec<(String, String)>) -> (r: String)
    ensures
        env_resolution(s@, vars.deep_view(), r@),
{
    let t = replace_variables(s, vars);
    resolve_builtin_variables(t.as_str())
}

/// Resolves the value of every row.
fn resolve_rows(kv: &Vec<KeyValue>, vars: &Vec<(String, String)>) -> (r: Vec<KeyValue>)
    ensures
        rows_resolved(kv.deep_view(), vars.deep_view(), r.deep_view()),
{
    let mut r: Vec<KeyValue> = Vec::new();
    let mut i: usize = 0;
    while i < kv.len()
        invariant
            i <= kv.len(),
            rows_resolved(kv.deep_view().take(i as int), vars.deep_view(), r.deep_view()),
        decreases kv.len() - i,
    {
        let value = resolve_text(kv[i].value.as_str(), vars);
        let item = KeyValue { key: kv[i].key.clone(), value, enabled: kv[i].enabled };
        let ghost r0 = r;
        r.push(item);
        proof {
            lemma_deep_view_push(r0, r, item);
            assert(kv.deep_view().take(i + 1) =~= kv.deep_view().take(i as int).push(kv.deep_view()[i as int]));
        }
        i = i + 1;
    }
    assert(kv.deep_view().take(i as int) =~= kv.deep_view());
    r
}

/// Whether a request matches a search: its name or its URL contains the query, ignoring case.
pub open spec fn request_matches(req: RequestView, q: Seq<char>) -> bool {
    contains(spec_to_lowercase(req.name), spec_to_lowercase(q)) || contains(
        spec_to_lowercase(req.url),
        spec_to_lowercase(q),
    )
}

/// How a search hit is shown: method, name and URL.
pub open spec fn search_label(req: RequestView) -> Seq<char> {
    method_name(req.method) + " "@ + req.name + " "@ + req.url
}

/// The hits among the first `n` requests of collection `ci`.
pub open spec fn search_hits_in(ci: nat, reqs: Seq<RequestView>, q: Seq<char>, n: nat) -> Seq<
    (nat, nat, Seq<char>),
>
    decreases n,
{
    if n == 0 || n > reqs.len() {
        Seq::empty()
    } else {
        search_hits_in(ci, reqs, q, (n - 1) as nat) + if request_matches(reqs[n - 1], q) {
            seq![(ci, (n - 1) as nat, search_label(reqs[n - 1]))]
        } else {
            Seq::empty()
        }
    }
}

/// The hits in the first `n` collections, collection by collection, request by request.
pub open spec fn search_hits(cols: Seq<Collection>, q: Seq<char>, n: nat) -> Seq<(nat, nat, Seq<char>)>
    decreases n,
{
    if n == 0 || n > cols.len() {
        Seq::empty()
    } else {
        search_hits(cols, q, (n - 1) as nat) + search_hits_in(
            (n - 1) as nat,
            cols[n - 1].requests.deep_view(),
            q,
            cols[n - 1].requests@.len(),
        )
    }
}

/// Search hits as plain values.
pub open spec fn hit_views(v: Seq<(usize, usize, String)>) -> Seq<(nat, nat, Seq<char>)> {
    Seq::new(v.len(), |i: int| (v[i].0 as nat, v[i].1 as nat, v[i].2@))
}

/// `a + b + c + d + e`.
fn concat5(a: &str, b: &str, c: &str, d: &str, e: &str) -> (r: String)
    ensures
        r@ == a@ + b@ + c@ + d@ + e@,
{
    let mut r = copy_str(a);
    push_str(&mut r, b);
    push_str(&mut r, c);
    push_str(&mut r, d);
    push_str(&mut r, e);
    r
}

/// What adding the current request to collection `ci` does: the request is appended, the
/// collection is expanded, and the new row is selected.
pub open spec fn added_request(a: App, b: App, ci: nat) -> bool {
    let cols0 = a.data.collections@;
    let cols1 = b.data.collections@;
    let id = cols0[ci as int].id@;
    &&& cols1.len() == cols0.len()
    &&& forall|j: int| 0 <= j < cols0.len() && j != ci ==> #[trigger] cols1[j] == cols0[j]
    &&& cols1[ci as int] == (Collection { requests: cols1[ci as int].requests, ..cols0[ci as int] })
    &&& cols1[ci as int].requests@.len() == cols0[ci as int].requests@.len() + 1
    &&& cols1[ci as int].requests@.drop_last() == cols0[ci as int].requests@
    &&& cols1[ci as int].requests@.last()@ == a.current_request@
    &&& b.expanded_ids() == if a.expanded_ids().contains(id) {
        a.expanded_ids()
    } else {
        a.expanded_ids().push(id)
    }
    &&& b.sidebar_selected == rows_upto(cols1, b.expanded_ids(), ci).len()
        + cols1[ci as int].requests@.len()
    &&& b.status_message matches Some((m, _)) && m@ == "Saved to '"@ + cols0[ci as int].name@ + "'"@
    &&& b == (App {
        data: AppData { collections: b.data.collections, ..a.data },
        collection_expanded: b.collection_expanded,
        sidebar_selected: b.sidebar_selected,
        needs_save: true,
        status_message: b.status_message,
        active_pane: ActivePane::Sidebar,
        ..a
    })
}

/// What saving the current request does: it replaces the request it was loaded from when that
/// one still exists; otherwise it is added to the selected collection (or the collection of
/// the selected request), which is expanded and whose new row is selected; with nothing
/// selected only a hint is shown.
pub open spec fn saved_request(a: App, b: App) -> bool {
    let cols0 = a.data.collections@;
    let cols1 = b.data.collections@;
    if a.source_valid() {
        let (ci, ri) = a.current_request_source->0;
        &&& cols1.len() == cols0.len()
        &&& forall|j: int| 0 <= j < cols0.len() && j != ci ==> #[trigger] cols1[j] == cols0[j]
        &&& cols1[ci as int] == (Collection { requests: cols1[ci as int].requests, ..cols0[ci as int] })
        &&& cols1[ci as int].requests@.len() == cols0[ci as int].requests@.len()
        &&& cols1[ci as int].requests@[ri as int]@ == a.current_request@
        &&& forall|k: int|
            0 <= k < cols0[ci as int].requests@.len() && k != ri ==> #[trigger] cols1[ci as int].requests@[k]
                == cols0[ci as int].requests@[k]
        &&& b.status_message matches Some((m, _)) && m@ == "Updated request in '"@ + cols0[ci as int].name@
            + "'"@
        &&& b == (App {
            data: AppData { collections: b.data.collections, ..a.data },
            needs_save: true,
            status_message: b.status_message,
            active_pane: ActivePane::Sidebar,
            ..a
        })
    } else if a.sidebar_tab == SidebarTab::Collections && a.sidebar_selected < a.rows().len() {
        added_request(a, b, row_position(a.rows()[a.sidebar_selected as int]).0)
    } else {
        &&& b.status_message matches Some((m, _)) && m@ == if cols0.len() > 0 {
            "Select a collection first (use ↑/↓ in sidebar)"@
        } else {
            "No collections. Press Ctrl+N to create one."@
        }
        &&& b == (App { status_message: b.status_message, ..a })
    }
}

impl App {
    /// Whether one more sidebar row still fits the counting limits.
    pub open spec fn has_room(&self) -> bool {
        self.total_rows() + 1 < usize::MAX / 2
    }

    /// Whether one more sidebar row still fits the counting limits.
    pub fn room_for_row(&self) -> (r: bool)
        requires
            self.within_limits(),
        ensures
            r == self.has_room(),
    {
        let ghost cols = self.data.collections@;
        let mut total: usize = 0;
        let mut ci: usize = 0;
        while ci < self.data.collections.len()
            invariant
                ci <= self.data.collections.len(),
                cols == self.data.collections@,
                self.within_limits(),
                total == rows_upto(cols, all_ids(cols), ci as nat).len(),
            decreases self.data.collections.len() - ci,
        {
            proof {
                lemma_rows_len_step(cols, all_ids(cols), (ci + 1) as nat);
                lemma_rows_upto_prefix(cols, all_ids(cols), (ci + 1) as nat, cols.len());
                assert(all_ids(cols)[ci as int] == cols[ci as int].id@);
            }
            total = total + 1 + self.data.collections[ci].requests.len();
            ci = ci + 1;
        }
        total + 1 < usize::MAX / 2
    }

    /// Makes the environment at `idx` the active one.
    pub fn activate_environment(&mut self, idx: usize)
        requires
            old(self).tick <= MAX_TICK,
        ensures
            idx < old(self).data.environments@.len() ==> ({
                let env = old(self).data.environments@[idx as int];
                &&& final(self).data.active_env_id matches Some(id) && id@ == env.id@
                &&& final(self).status_message matches Some((m, _)) && m@ == "Activated environment '"@
                    + env.name@ + "'"@
                &&& *final(self) == (App {
                    data: AppData { active_env_id: final(self).data.active_env_id, ..old(self).data },
                    needs_save: true,
                    status_message: final(self).status_message,
                    ..*old(self)
                })
            }),
            idx >= old(self).data.environments@.len() ==> *final(self) == *old(self),
    {
        if idx < self.data.environments.len() {
            let id = self.data.environments[idx].id.clone();
            let msg = concat3("Activated environment '", self.data.environments[idx].name.as_str(), "'");
            self.data.active_env_id = Some(id);
            self.needs_save = true;
            self.set_status(msg);
        }
    }

    /// Puts a sent request and its response first in the history, which keeps at most
    /// `APP_HISTORY_LIMIT` entries.
    pub fn add_to_history(&mut self, request: Request, response: Response)
        requires
            old(self).data.history@.len() < usize::MAX,
        ensures
            final(self).data.history@.len() == if old(self).data.history@.len() < APP_HISTORY_LIMIT {
                old(self).data.history@.len() + 1
            } else {
                APP_HISTORY_LIMIT as nat
            },
            final(self).data.history@[0].request == request,
            final(self).data.history@[0].response == response,
            final(self).data.history@[0].id@.len() == 36,
            forall|i: int|
                0 < i < final(self).data.history@.len() ==> #[trigger] final(self).data.history@[i]
                    == old(self).data.history@[i - 1],
            *final(self) == (App {
                data: AppData { history: final(self).data.history, ..old(self).data },
                needs_save: true,
                ..*old(self)
            }),
    {
        let item = HistoryItem { id: new_uuid(), request, response, timestamp: now_millis() };
        self.data.history.insert(0, item);
        if self.data.history.len() > APP_HISTORY_LIMIT {
            self.data.history.truncate(APP_HISTORY_LIMIT);
        }
        self.needs_save = true;
    }

    /// The variables of the active environment.
    pub fn get_active_env_vars(&self) -> (r: Vec<(String, String)>)
        ensures
            r.deep_view() == active_env_vars(self.data),
    {
        if let Some(id) = &self.data.active_env_id {
            let mut i: usize = 0;
            while i < self.data.environments.len()
                invariant
                    i <= self.data.environments.len(),
                    self.data.active_env_id == Some(*id),
                    find_env_from(self.data.environments@, id@, 0) == find_env_from(
                        self.data.environments@,
                        id@,
                        i as nat,
                    ),
                decreases self.data.environments.len() - i,
            {
                if str_eq(self.data.environments[i].id.as_str(), id.as_str()) {
                    return copy_pairs(&self.data.environments[i].variables);
                }
                i = i + 1;
            }
        }
        let r: Vec<(String, String)> = Vec::new();
        assert(r.deep_view() =~= Seq::<(Seq<char>, Seq<char>)>::empty());
        r
    }

    /// The request as it is sent: the active environment's variables and then the built-in
    /// variables filled into its URL, header values, parameter values and body.
    pub fn build_request_with_env(&self, req: &Request) -> (r: Request)
        ensures
            env_resolution(req@.url, active_env_vars(self.data), r@.url),
            rows_resolved(req@.headers, active_env_vars(self.data), r@.headers),
            rows_resolved(req@.params, active_env_vars(self.data), r@.params),
            env_resolution(req@.body, active_env_vars(self.data), r@.body),
            r@ == (RequestView { url: r@.url, headers: r@.headers, params: r@.params, body: r@.body, ..req@ }),
    {
        let vars = self.get_active_env_vars();
        let mut r = req.copy();
        r.url = resolve_text(req.url.as_str(), &vars);
        r.headers = resolve_rows(&req.headers, &vars);
        r.params = resolve_rows(&req.params, &vars);
        r.body = resolve_text(req.body.as_str(), &vars);
        r
    }

    /// Adds an empty collection with a fresh id.
    pub fn create_collection(&mut self, name: &str)
        requires
            old(self).within_limits(),
            old(self).has_room(),
        ensures
            final(self).within_limits(),
            final(self).data.collections@.len() == old(self).data.collections@.len() + 1,
            final(self).data.collections@.drop_last() == old(self).data.collections@,
            final(self).data.collections@.last().name@ == name@,
            final(self).data.collections@.last().id@.len() == 36,
            final(self).data.collections@.last().requests@.len() == 0,
            final(self).data.collections@.last().folders@.len() == 0,
            final(self).status_message matches Some((m, _)) && m@ == "Created collection '"@ + name@ + "'"@,
            *final(self) == (App {
                data: AppData { collections: final(self).data.collections, ..old(self).data },
                needs_save: true,
                status_message: final(self).status_message,
                ..*old(self)
            }),
    {
        let ghost cols0 = self.data.collections@;
        let ghost exp = self.expanded_ids();
        let col = Collection::new(name);
        self.data.collections.push(col);
        self.needs_save = true;
        let msg = concat3("Created collection '", name, "'");
        self.set_status(msg);
        proof {
            let cols1 = self.data.collections@;
            assert(cols1 =~= cols0.push(col));
            assert(cols1.drop_last() =~= cols0);
            lemma_rows_within_total(cols0, exp);
            lemma_rows_len_push(cols0, exp, col);
            lemma_rows_len_push(cols0, all_ids(cols0), col);
            assert forall|i: int| 0 <= i < cols0.len() implies collection_weight(
                #[trigger] cols1[i],
                all_ids(cols1),
            ) <= collection_weight(cols1[i], all_ids(cols0)) by {
                assert(all_ids(cols0)[i] == cols1[i].id@);
            }
            lemma_rows_len_le(cols1, all_ids(cols1), cols1, all_ids(cols0), cols0.len());
            lemma_rows_len_step(cols1, all_ids(cols1), cols1.len());
            lemma_rows_len_le(cols1, all_ids(cols0), cols0, all_ids(cols0), cols0.len());
        }
    }

    /// Asks for a name when the current request has none; saves it otherwise.
    pub fn save_current_request_to_selected_collection(&mut self)
        requires
            old(self).within_limits(),
            old(self).has_room(),
        ensures
            final(self).within_limits(),
            old(self).current_request.name@.len() == 0 ==> ({
                &&& final(self).dialog_message@ == "Request name:"@
                &&& final(self).dialog_buffer@.len() == 0
                &&& *final(self) == (App {
                    dialog_type: DialogType::RequestName,
                    dialog_message: final(self).dialog_message,
                    dialog_buffer: final(self).dialog_buffer,
                    dialog_cursor: 0,
                    input_mode: InputMode::Editing,
                    ..*old(self)
                })
            }),
            old(self).current_request.name@.len() > 0 ==> saved_request(*old(self), *final(self)),
    {
        if self.current_request.name.as_str().is_empty() {
            self.open_dialog(DialogType::RequestName, copy_str("Request name:"));
            assert(utf8_len(self.dialog_buffer@.subrange(0, 0)) == 0);
            return;
        }
        self.do_save_request();
    }

    /// The row of collection `ci`'s title in the collections sidebar.
    fn first_row_of(&self, ci: usize) -> (r: usize)
        requires
            ci <= self.data.collections@.len(),
            rows_upto(self.data.collections@, self.expanded_ids(), ci as nat).len() < usize::MAX,
        ensures
            r == rows_upto(self.data.collections@, self.expanded_ids(), ci as nat).len(),
    {
        let ghost cols = self.data.collections@;
        let ghost exp = self.expanded_ids();
        let mut idx: usize = 0;
        let mut i: usize = 0;
        while i < ci
            invariant
                i <= ci <= self.data.collections@.len(),
                cols == self.data.collections@,
                exp == self.expanded_ids(),
                idx == rows_upto(cols, exp, i as nat).len(),
                rows_upto(cols, exp, ci as nat).len() < usize::MAX,
            decreases ci - i,
        {
            proof {
                lemma_rows_len_step(cols, exp, (i + 1) as nat);
                lemma_rows_upto_prefix(cols, exp, (i + 1) as nat, ci as nat);
            }
            idx = idx + 1;
            if self.is_expanded_id(self.data.collections[i].id.as_str()) {
                idx = idx + self.data.collections[i].requests.len();
            }
            i = i + 1;
        }
        idx
    }

    /// Appends the current request to collection `ci`, expands it and selects the new row.
    #[verifier::rlimit(50)]
    pub(crate) fn add_current_request_to(&mut self, ci: usize)
        requires
            old(self).within_limits(),
            old(self).has_room(),
            ci < old(self).data.collections@.len(),
        ensures
            added_request(*old(self), *final(self), ci as nat),
            final(self).within_limits(),
    {
        let ghost cols0 = self.data.collections@;
        let ghost exp0 = self.expanded_ids();
        let req = self.current_request.copy();
        let mut col = self.data.collections.remove(ci);
        col.requests.push(req);
        let col_name = col.name.clone();
        let col_id = col.id.clone();
        self.data.collections.insert(ci, col);
        self.needs_save = true;
        let msg = concat3("Saved to '", col_name.as_str(), "'");
        self.set_status(msg);
        if !self.is_expanded_id(col_id.as_str()) {
            let ghost e0 = self.collection_expanded;
            self.collection_expanded.push(col_id);
            proof {
                lemma_deep_view_push(e0, self.collection_expanded, col_id);
                assert(self.expanded_ids().last() == col_id@);
            }
        }
        let ghost cols1 = self.data.collections@;
        let ghost exp1 = self.expanded_ids();
        proof {
            assert(cols1 =~= cols0.update(ci as int, cols1[ci as int]));
            assert(cols1[ci as int].requests@.drop_last() =~= cols0[ci as int].requests@);
            lemma_added_request_rows(cols0, cols1, exp1, ci as nat);
        }
        let idx = self.first_row_of(ci);
        self.sidebar_selected = idx + self.data.collections[ci].requests.len();
        self.active_pane = ActivePane::Sidebar;
    }

    /// Saves the current request: see `saved_request`.
    #[verifier::rlimit(50)]
    pub fn do_save_request(&mut self)
        requires
            old(self).within_limits(),
            old(self).has_room(),
        ensures
            saved_request(*old(self), *final(self)),
            final(self).within_limits(),
    {
        if let Some((ci, ri)) = self.current_request_source {
            if ci < self.data.collections.len() && ri < self.data.collections[ci].requests.len() {
                let ghost cols0 = self.data.collections@;
                let ghost exp = self.expanded_ids();
                let req = self.current_request.copy();
                self.store_request_at(ci, ri, req);
                self.needs_save = true;
                let msg = concat3("Updated request in '", self.data.collections[ci].name.as_str(), "'");
                self.set_status(msg);
                self.active_pane = ActivePane::Sidebar;
                proof {
                    let cols1 = self.data.collections@;
                    assert(cols1 =~= cols0.update(ci as int, cols1[ci as int]));
                    lemma_rows_len_same_shape(cols0, exp, ci as nat, cols1[ci as int]);
                }
                return;
            }
        }
        match self.get_selected_or_parent_collection_index() {
            Some(ci) => {
                let ghost a = *self;
                self.add_current_request_to(ci);
                assert(added_request(a, *self, ci as nat));
            },
            None => {
                if self.data.collections.len() > 0 {
                    self.set_status(copy_str("Select a collection first (use ↑/↓ in sidebar)"));
                } else {
                    self.set_status(copy_str("No collections. Press Ctrl+N to create one."));
                }
            },
        }
    }

    /// The requests whose name or URL contains the query, ignoring case, each with its
    /// collection, its position and its label.
    pub fn search_requests(&self, query: &str) -> (r: Vec<(usize, usize, String)>)
        ensures
            hit_views(r@) == search_hits(self.data.collections@, query@, self.data.collections@.len()),
    {
        let ghost cols = self.data.collections@;
        let q = to_lowercase(query);
        let mut results: Vec<(usize, usize, String)> = Vec::new();
        let mut ci: usize = 0;
        assert(hit_views(results@) =~= Seq::<(nat, nat, Seq<char>)>::empty());
        while ci < self.data.collections.len()
            invariant
                ci <= self.data.collections.len(),
                cols == self.data.collections@,
                q@ == spec_to_lowercase(query@),
                hit_views(results@) == search_hits(cols, query@, ci as nat),
            decreases self.data.collections.len() - ci,
        {
            let col = &self.data.collections[ci];
            let ghost reqs = col.requests.deep_view();
            let mut ri: usize = 0;
            while ri < col.requests.len()
                invariant
                    ri <= col.requests.len(),
                    col == self.data.collections@[ci as int],
                    ci < self.data.collections@.len(),
                    reqs == col.requests.deep_view(),
                    cols == self.data.collections@,
                    q@ == spec_to_lowercase(query@),
                    hit_views(results@) == search_hits(cols, query@, ci as nat) + search_hits_in(
                        ci as nat,
                        reqs,
                        query@,
                        ri as nat,
                    ),
                decreases col.requests.len() - ri,
            {
                let req = &col.requests[ri];
                assert(reqs[ri as int] == req@);
                let name_l = to_lowercase(req.name.as_str());
                let url_l = to_lowercase(req.url.as_str());
                if str_contains(name_l.as_str(), q.as_str()) || str_contains(url_l.as_str(), q.as_str()) {
                    let m = req.method.to_string();
                    let label = concat5(m.as_str(), " ", req.name.as_str(), " ", req.url.as_str());
                    let ghost h0 = results@;
                    results.push((ci, ri, label));
                    assert(hit_views(results@) =~= hit_views(h0).push((ci as nat, ri as nat, label@)));
                }
                ri = ri + 1;
            }
            assert(reqs.len() == col.requests@.len());
            ci = ci + 1;
        }
        results
    }
}


/// How exporting a collection ended.
#[derive(Debug, Clone, PartialEq, Eq)]
pub enum ExportOutcome {
    /// The file was written.
    Written,
    /// The collection could not be turned into text.
    Failed(String),
    /// The file could not be written.
    WriteFailed(String),
}

impl App {
    /// Takes the pending send, if any: the request to send is the current one with the
    /// variables filled in, and the interface shows that it is loading.
    pub fn take_pending_send(&mut self) -> (r: Option<Request>)
        ensures
            !old(self).pending_send ==> r is None && *final(self) == *old(self),
            old(self).pending_send ==> (r matches Some(req) && ({
                let vars = active_env_vars(old(self).data);
                let cur = old(self).current_request@;
                &&& env_resolution(cur.url, vars, req@.url)
                &&& rows_resolved(cur.headers, vars, req@.headers)
                &&& rows_resolved(cur.params, vars, req@.params)
                &&& env_resolution(cur.body, vars, req@.body)
                &&& req@ == (RequestView { url: req@.url, headers: req@.headers, params: req@.params, body: req@.body, ..cur })
            })) && *final(self) == (App { pending_send: false, loading: true, ..*old(self) }),
    {
        if !self.pending_send {
            return None;
        }
        self.pending_send = false;
        self.loading = true;
        Some(self.build_request_with_env(&self.current_request))
    }

    /// Records how sending `req` ended: a response goes into the history and is shown; an
    /// error is shown in the status line.
    pub fn finish_send(&mut self, req: Request, outcome: Result<Response, String>)
        requires
            old(self).within_limits(),
        ensures
            final(self).within_limits(),
            !final(self).loading,
            final(self).response_scroll == (0u16, 0u16),
            match outcome {
                Ok(resp) => {
                    &&& final(self).response == Some(resp)
                    &&& final(self).data.history@.len() == if old(self).data.history@.len() < APP_HISTORY_LIMIT {
                        old(self).data.history@.len() + 1
                    } else {
                        APP_HISTORY_LIMIT as nat
                    }
                    &&& final(self).data.history@[0].request == req
                    &&& final(self).data.history@[0].response.body@ == resp.body@
                    &&& final(self).data.history@[0].response.status == resp.status
                    &&& final(self).data.history@[0].response.status_text@ == resp.status_text@
                    &&& final(self).data.history@[0].response.headers.deep_view() == resp.headers.deep_view()
                    &&& final(self).data.history@[0].response.duration_ms == resp.duration_ms
                    &&& final(self).data.history@[0].response.timestamp == resp.timestamp
                    &&& final(self).data.history@[0].id@.len() == 36
                    &&& forall|i: int|
                        0 < i < final(self).data.history@.len() ==> #[trigger] final(self).data.history@[i]
                            == old(self).data.history@[i - 1]
                    &&& final(self).data == AppData { history: final(self).data.history, ..old(self).data }
                    &&& final(self).needs_save
                    &&& final(self).status_message matches Some((m, _)) && m@ == "Request sent successfully"@
                },
                Err(e) => {
                    &&& final(self).data == old(self).data
                    &&& final(self).status_message matches Some((m, _)) && m@ == "Request failed: "@ + e@
                },
            },
    {
        match outcome {
            Ok(resp) => {
                let stored = resp.copy();
                self.add_to_history(req, stored);
                self.response = Some(resp);
                self.response_scroll = (0, 0);
                self.set_status(copy_str("Request sent successfully"));
            },
            Err(e) => {
                self.response_scroll = (0, 0);
                let msg = concat2("Request failed: ", e.as_str());
                self.set_status(msg);
            },
        }
        self.loading = false;
    }

    /// Reports how copying `text` to the clipboard ended.
    pub fn copy_done(&mut self, text: &str, result: Result<(), String>)
        requires
            old(self).tick <= MAX_TICK,
            utf8_len(text@) <= usize::MAX,
        ensures
            final(self).status_message matches Some((m, _)) && m@ == match result {
                Ok(_) => "Copied "@ + decimal(utf8_len(text@)) + " bytes to clipboard"@,
                Err(e) => "Copy failed: "@ + e@,
            },
            *final(self) == (App { status_message: final(self).status_message, ..*old(self) }),
    {
        match result {
            Ok(_) => {
                let n = crate::text::str_utf8_len(text);
                let mut msg = copy_str("Copied ");
                crate::text::push_decimal(&mut msg, n as u128);
                push_str(&mut msg, " bytes to clipboard");
                self.set_status(msg);
            },
            Err(e) => {
                let msg = concat2("Copy failed: ", e.as_str());
                self.set_status(msg);
            },
        }
    }

    /// Reports how exporting into `file_name` ended.
    pub fn export_done(&mut self, file_name: &str, outcome: ExportOutcome)
        requires
            old(self).tick <= MAX_TICK,
        ensures
            final(self).status_message matches Some((m, _)) && m@ == match outcome {
                ExportOutcome::Written => "Exported to "@ + file_name@,
                ExportOutcome::Failed(e) => "Export failed: "@ + e@,
                ExportOutcome::WriteFailed(e) => "Failed to write file: "@ + e@,
            },
            *final(self) == (App { status_message: final(self).status_message, ..*old(self) }),
    {
        let msg = match outcome {
            ExportOutcome::Written => concat2("Exported to ", file_name),
            ExportOutcome::Failed(e) => concat2("Export failed: ", e.as_str()),
            ExportOutcome::WriteFailed(e) => concat2("Failed to write file: ", e.as_str()),
        };
        self.set_status(msg);
    }
}


/// Whether stored data is small enough for the counting limits of the interface.
pub open spec fn data_within_limits(data: AppData) -> bool {
    &&& rows_upto(data.collections@, all_ids(data.collections@), data.collections@.len()).len() < usize::MAX / 2
    &&& data.environments@.len() < usize::MAX / 2
    &&& data.history@.len() < usize::MAX
}

/// Whether stored data is small enough for the counting limits of the interface.
pub fn data_fits(data: &AppData) -> (r: bool)
    ensures
        r == data_within_limits(*data),
{
    let ghost cols = data.collections@;
    let mut total: usize = 0;
    let mut ci: usize = 0;
    while ci < data.collections.len()
        invariant
            ci <= data.collections.len(),
            cols == data.collections@,
            total == rows_upto(cols, all_ids(cols), ci as nat).len(),
            total < usize::MAX / 2,
        decreases data.collections.len() - ci,
    {
        proof {
            lemma_rows_len_step(cols, all_ids(cols), (ci + 1) as nat);
            assert(all_ids(cols)[ci as int] == cols[ci as int].id@);
        }
        let n = data.collections[ci].requests.len();
        if n >= usize::MAX / 2 - 1 - total {
            proof {
                lemma_rows_upto_prefix(cols, all_ids(cols), (ci + 1) as nat, cols.len());
            }
            return false;
        }
        total = total + 1 + n;
        ci = ci + 1;
    }
    data.environments.len() < usize::MAX / 2 && data.history.len() < usize::MAX
}

/// Collections of at most eleven requests each take at most twelve rows each.
proof fn lemma_rows_len_at_most(cols: Seq<Collection>, exp: Seq<Seq<char>>, n: nat)
    requires
        n <= cols.len(),
        forall|i: int| 0 <= i < n ==> (#[trigger] cols[i]).requests@.len() <= 11,
    ensures
        rows_upto(cols, exp, n).len() <= 12 * n,
    decreases n,
{
    if n > 0 {
        lemma_rows_len_at_most(cols, exp, (n - 1) as nat);
        lemma_rows_len_step(cols, exp, n);
    }
}

/// The request the interface starts with: a GET of the default URL that accepts JSON.
pub open spec fn start_request() -> RequestView {
    RequestView {
        url: DEFAULT_URL@,
        headers: seq![KeyValueView { key: "Accept"@, value: "application/json"@, enabled: true }],
        ..empty_request()
    }
}

impl App {
    /// The interface's starting state over loaded data; without any collection the demo
    /// collections are put in and marked to be saved.
    pub fn with_data(
        storage: Storage,
        data: AppData,
        history_storage: HistoryStorage,
        history_manager: HistoryManager,
    ) -> (app: App)
        requires
            data_within_limits(data),
        ensures
            app.within_limits(),
            app.current_request@ == start_request(),
            data.collections@.len() == 0 ==> app.data.collections@.len() == 8 && app.needs_save,
            data.collections@.len() == 0 ==> forall|i: int|
                0 <= i < 8 ==> (#[trigger] app.data.collections@[i]).name@ == demo_collection_names()[i]
                    && app.data.collections@[i].requests@.len() == demo_request_counts()[i],
            data.collections@.len() > 0 ==> app.data.collections == data.collections && !app.needs_save,
            app.data.environments == data.environments,
            app.data.history == data.history,
            app.data.active_env_id == data.active_env_id,
            app.storage == storage,
            app.history_storage == history_storage,
            app.history_manager == history_manager,
            app.running,
            app.input_mode == InputMode::Normal,
            app.active_pane == ActivePane::Sidebar,
            app.sidebar_tab == SidebarTab::Collections,
            app.request_tab == RequestTab::Headers,
            app.response_tab == ResponseTab::Body,
            app.response is None,
            app.editing_field is None,
            app.edit_buffer@.len() == 0,
            app.cursor_pos == 0,
            app.sidebar_selected == 0,
            app.collection_expanded@.len() == 0,
            app.param_selected == Some(0usize),
            app.header_selected == Some(0usize),
            app.status_message is None,
            app.tick == 0,
            !app.loading,
            app.response_scroll == (0u16, 0u16),
            !app.pending_send,
            app.dialog_type == DialogType::NoDialog,
            app.dialog_buffer@.len() == 0,
            app.dialog_cursor == 0,
            app.dialog_message@.len() == 0,
            !app.dialog_option_selected,
            !app.pending_window_prefix,
            app.pending_window_expiry == 0,
            app.current_request_source is None,
            app.pending_delete is None,
            app.history_selected == 0,
    {
        let mut data = data;
        let mut needs_save = false;
        if data.collections.len() == 0 {
            data.collections = crate::tui::demo::demo_collections();
            needs_save = true;
        }
        let mut current_request = Request::default();
        current_request.url = copy_str(DEFAULT_URL);
        let accept = KeyValue { key: copy_str("Accept"), value: copy_str("application/json"), enabled: true };
        let ghost h0 = current_request.headers;
        current_request.headers.push(accept);
        proof {
            lemma_deep_view_push(h0, current_request.headers, accept);
        }
        let app = App {
            running: true,
            input_mode: InputMode::Normal,
            active_pane: ActivePane::Sidebar,
            sidebar_tab: SidebarTab::Collections,
            request_tab: RequestTab::Headers,
            response_tab: ResponseTab::Body,
            data,
            storage,
            current_request,
            response: None,
            editing_field: None,
            edit_buffer: String::new(),
            cursor_pos: 0,
            sidebar_selected: 0,
            collection_expanded: Vec::new(),
            param_selected: Some(0),
            header_selected: Some(0),
            status_message: None,
            tick: 0,
            loading: false,
            response_scroll: (0, 0),
            pending_send: false,
            dialog_type: DialogType::NoDialog,
            dialog_buffer: String::new(),
            dialog_cursor: 0,
            dialog_message: String::new(),
            dialog_option_selected: false,
            pending_window_prefix: false,
            pending_window_expiry: 0,
            current_request_source: None,
            pending_delete: None,
            history_manager,
            history_storage,
            history_selected: 0,
            needs_save,
        };
        proof {
            let cols = app.data.collections@;
            if needs_save {
                lemma_rows_len_at_most(cols, all_ids(cols), cols.len());
            }
            lemma_rows_within_total(cols, app.expanded_ids());
            assert(utf8_len(app.edit_buffer@.take(0)) == 0);
            assert(utf8_len(app.dialog_buffer@.take(0)) == 0);
            assert(app.current_request@ =~= start_request());
        }
        app
    }
}

/// The pane after `p`, cyclically.
pub open spec fn next_pane(p: ActivePane) -> ActivePane {
    match p {
        ActivePane::Sidebar => ActivePane::UrlBar,
        ActivePane::UrlBar => ActivePane::RequestTabs,
        ActivePane::RequestTabs => ActivePane::Response,
        ActivePane::Response => ActivePane::Sidebar,
    }
}

/// The pane before `p`, cyclically.
pub open spec fn prev_pane(p: ActivePane) -> ActivePane {
    match p {
        ActivePane::Sidebar => ActivePane::Response,
        ActivePane::UrlBar => ActivePane::Sidebar,
        ActivePane::RequestTabs => ActivePane::UrlBar,
        ActivePane::Response => ActivePane::RequestTabs,
    }
}

/// Moving the focus forward and back again returns to the same pane.
pub proof fn law_focus_roundtrip(p: ActivePane)
    ensures
        prev_pane(next_pane(p)) == p,
        next_pane(prev_pane(p)) == p,
{
}

} // verus!
