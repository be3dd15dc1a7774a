//! The request history: the most recent requests first, at most `MAX_HISTORY_ITEMS` of them.
use vstd::prelude::*;

use crate::models::{method_name, HistoryItem, Request, RequestView, Response};
use crate::outside::{new_uuid, now_millis, path_join, spec_path_join};
use crate::text::{
    is_char_boundary_at, lemma_utf8_len_prefix_unique, contains, copy_str, decimal, decimal_string, push_str, spec_to_lowercase, str_contains,
    str_eq, str_strip_all_prefix, str_utf8_len, strip_all_prefix, to_lowercase, utf8_len,
};

verus! {

/// How many entries the history keeps.
pub const MAX_HISTORY_ITEMS: usize = 50;

/// The file the history is stored in, inside the data directory.
pub const HISTORY_FILE_NAME: &'static str = "history.json";

/// One request of the history, with what is known of its response.
#[derive(Debug, Clone, PartialEq)]
pub struct HistoryEntry {
    pub id: String,
    /// Milliseconds since the Unix epoch.
    pub timestamp: i64,
    pub request: Request,
    pub response_status: Option<u16>,
    /// The size of the response body in bytes.
    pub response_size: Option<usize>,
    pub duration_ms: Option<u64>,
}

/// The URL as the history list shows it: without its `https://` and `http://` prefixes, and
/// cut to its first 37 bytes followed by `...` when it is longer than 40 bytes.
pub open spec fn url_display(url: Seq<char>) -> Seq<char> {
    let u = strip_all_prefix(strip_all_prefix(url, "https://"@), "http://"@);
    if utf8_len(u) > 40 {
        let k = choose|k: int| 0 <= k <= u.len() && #[trigger] utf8_len(u.take(k)) == 37;
        u.take(k) + "..."@
    } else {
        u
    }
}

/// The URL shortened for display, as a number of characters: the cut is at the first
/// position where the UTF-8 length reaches 37 bytes.
pub open spec fn display_cut_ok(url: Seq<char>) -> bool {
    let u = strip_all_prefix(strip_all_prefix(url, "https://"@), "http://"@);
    utf8_len(u) > 40 ==> is_char_boundary_at(u, 37)
}

/// The line the history list shows for an entry: method, URL and status (`--` when unknown).
pub open spec fn display_line(e: HistoryEntry) -> Seq<char> {
    method_name(e.request.method) + " "@ + url_display(e.request.url@) + " ("@ + match e.response_status {
        Some(s) => decimal(s as nat),
        None => "--"@,
    } + ")"@
}

impl HistoryEntry {
    /// A new entry for a request, now, with a fresh id and no response yet.
    pub fn new(request: Request) -> (r: Self)
        ensures
            r.request@ == request@,
            r.id@.len() == 36,
            r.response_status is None,
            r.response_size is None,
            r.duration_ms is None,
    {
        HistoryEntry {
            id: new_uuid(),
            timestamp: now_millis(),
            request,
            response_status: None,
            response_size: None,
            duration_ms: None,
        }
    }

    /// The entry for an item of the stored history.
    pub fn from_history_item(item: &HistoryItem) -> (r: Self)
        requires
            utf8_len(item.response.body@) <= usize::MAX,
        ensures
            r.id@ == item.id@,
            r.timestamp == item.timestamp,
            r.request@ == item.request@,
            r.response_status == Some(item.response.status),
            r.response_size == Some(utf8_len(item.response.body@) as usize),
            r.duration_ms == Some(item.response.duration_ms),
    {
        HistoryEntry {
            id: item.id.clone(),
            timestamp: item.timestamp,
            request: item.request.copy(),
            response_status: Some(item.response.status),
            response_size: Some(str_utf8_len(item.response.body.as_str())),
            duration_ms: Some(item.response.duration_ms),
        }
    }

    /// The entry with what a response says: its status, its body size and its duration.
    pub fn with_response(self, response: &Response) -> (r: Self)
        requires
            utf8_len(response.body@) <= usize::MAX,
        ensures
            r.id@ == self.id@,
            r.timestamp == self.timestamp,
            r.request@ == self.request@,
            r.response_status == Some(response.status),
            r.response_size == Some(utf8_len(response.body@) as usize),
            r.duration_ms == Some(response.duration_ms),
    {
        let mut e = self;
        e.response_status = Some(response.status);
        e.response_size = Some(str_utf8_len(response.body.as_str()));
        e.duration_ms = Some(response.duration_ms);
        e
    }

    /// A copy of the entry.
    pub fn copy(&self) -> (r: Self)
        ensures
            r.id@ == self.id@,
            r.timestamp == self.timestamp,
            r.request@ == self.request@,
            r.response_status == self.response_status,
            r.response_size == self.response_size,
            r.duration_ms == self.duration_ms,
    {
        HistoryEntry {
            id: self.id.clone(),
            timestamp: self.timestamp,
            request: self.request.copy(),
            response_status: self.response_status,
            response_size: self.response_size,
            duration_ms: self.duration_ms,
        }
    }

    /// The line the history list shows: `METHOD url (status)`.
    pub fn display_name(&self) -> (r: String)
        requires
            display_cut_ok(self.request.url@),
        ensures
            r@ == display_line(*self),
    {
        proof {
            reveal_strlit("https://");
            reveal_strlit("http://");
        }
        let u1 = str_strip_all_prefix(self.request.url.as_str(), "https://");
        let u = str_strip_all_prefix(u1.as_str(), "http://");
        let cs = crate::text::chars_of(u.as_str());
        let ghost us = u@;
        let mut total: usize = 0;
        let mut i: usize = 0;
        let mut over40 = false;
        // measure up to 41 bytes: enough to tell whether the URL is longer than 40
        while i < cs.len() && total <= 40
            invariant
                i <= cs.len(),
                cs@ == us,
                total == utf8_len(us.take(i as int)),
                total <= 44,
            decreases cs.len() - i,
        {
            assert(us.take(i + 1).drop_last() =~= us.take(i as int));
            total = total + crate::text::char_len_utf8(cs[i]);
            i = i + 1;
        }
        proof {
            if total <= 40 {
                assert(us.take(i as int) =~= us);
            } else {
                crate::text::lemma_utf8_len_prefix(us, i as int);
            }
        }
        let shown = if total > 40 {
            proof {
                crate::text::lemma_utf8_len_prefix(us, i as int);
            }
            let mut k: usize = 0;
            let mut b: usize = 0;
            while b < 37
                invariant
                    k <= cs.len(),
                    cs@ == us,
                    b == utf8_len(us.take(k as int)),
                    b <= 37,
                    utf8_len(us) > 40,
                    is_char_boundary_at(us, 37),
                decreases 37 - b,
            {
                proof {
                    if k == cs.len() {
                        assert(us.take(k as int) =~= us);
                    }
                    let w = choose|w: int| 0 <= w <= us.len() && #[trigger] utf8_len(us.take(w)) == 37;
                    if w <= k {
                        if w < k {
                            lemma_utf8_len_prefix_unique(us, w, k as int);
                        }
                    } else {
                        if w > k + 1 {
                            lemma_utf8_len_prefix_unique(us, k + 1, w);
                        }
                    }
                }
                assert(us.take(k + 1).drop_last() =~= us.take(k as int));
                b = b + crate::text::char_len_utf8(cs[k]);
                k = k + 1;
            }
            proof {
                let w = choose|w: int| 0 <= w <= us.len() && #[trigger] utf8_len(us.take(w)) == 37;
                if w < k {
                    lemma_utf8_len_prefix_unique(us, w, k as int);
                } else if w > k {
                    lemma_utf8_len_prefix_unique(us, k as int, w);
                }
                reveal_strlit("...");
            }
            let mut s = crate::text::string_of_range(&cs, 0, k);
            push_str(&mut s, "...");
            assert(us.subrange(0, k as int) =~= us.take(k as int));
            s
        } else {
            u
        };
        let mut r = self.request.method.to_string();
        push_str(&mut r, " ");
        push_str(&mut r, shown.as_str());
        push_str(&mut r, " (");
        match self.response_status {
            Some(s) => push_str(&mut r, decimal_string(s as u128).as_str()),
            None => push_str(&mut r, "--"),
        }
        push_str(&mut r, ")");
        r
    }
}

/// Whether an entry matches a lower-cased query: its lower-cased URL or method name holds it.
pub open spec fn entry_matches(e: HistoryEntry, query_lower: Seq<char>) -> bool {
    contains(spec_to_lowercase(e.request.url@), query_lower) || contains(
        spec_to_lowercase(method_name(e.request.method)),
        query_lower,
    )
}

/// The entries of `es` that match, in order.
pub open spec fn matching_entries(es: Seq<HistoryEntry>, query_lower: Seq<char>) -> Seq<HistoryEntry>
    decreases es.len(),
{
    if es.len() == 0 {
        Seq::empty()
    } else {
        let rest = matching_entries(es.drop_last(), query_lower);
        if entry_matches(es.last(), query_lower) {
            rest.push(es.last())
        } else {
            rest
        }
    }
}

/// The entries a list of references points at.
pub open spec fn entry_refs(v: Seq<&HistoryEntry>) -> Seq<HistoryEntry> {
    v.map_values(|e: &HistoryEntry| *e)
}

/// The position of the first entry with the given id, at or after `from`.
pub open spec fn entry_position(es: Seq<HistoryEntry>, id: Seq<char>, from: int) -> Option<int>
    decreases es.len() - from,
{
    if from < 0 || from >= es.len() {
        None
    } else if es[from].id@ == id {
        Some(from)
    } else {
        entry_position(es, id, from + 1)
    }
}

/// The entries after adding `e` to `es`: `e` first, then the older ones, cut to the limit.
pub open spec fn history_after_add(es: Seq<HistoryEntry>, e: HistoryEntry) -> Seq<HistoryEntry> {
    let all = seq![e] + es;
    if all.len() > MAX_HISTORY_ITEMS {
        all.take(MAX_HISTORY_ITEMS as int)
    } else {
        all
    }
}

/// The history of sent requests, most recent first.
#[derive(Debug, Clone)]
pub struct HistoryManager {
    pub entries: Vec<HistoryEntry>,
}

impl Default for HistoryManager {
    fn default() -> (r: Self)
        ensures
            r.entries@.len() == 0,
    {
        HistoryManager { entries: Vec::new() }
    }
}

impl HistoryManager {
    /// An empty history.
    pub fn new() -> (r: Self)
        ensures
            r.entries@.len() == 0,
    {
        HistoryManager { entries: Vec::new() }
    }

    /// Adds an entry in front; the oldest entries beyond the limit are dropped.
    pub fn add_entry(&mut self, entry: HistoryEntry)
        ensures
            final(self).entries@ == history_after_add(old(self).entries@, entry),
    {
        self.entries.insert(0, entry);
        if self.entries.len() > MAX_HISTORY_ITEMS {
            self.entries.truncate(MAX_HISTORY_ITEMS);
        }
        assert(self.entries@ =~= history_after_add(old(self).entries@, entry));
    }

    /// The entries whose URL or method contains the query, ignoring case, in order.
    pub fn search(&self, query: &str) -> (r: Vec<&HistoryEntry>)
        ensures
            entry_refs(r@) == matching_entries(self.entries@, spec_to_lowercase(query@)),
    {
        let q = to_lowercase(query);
        let ghost es = self.entries@;
        let mut r: Vec<&HistoryEntry> = Vec::new();
        let mut i: usize = 0;
        assert(entry_refs(r@) =~= matching_entries(es.take(0), q@));
        while i < self.entries.len()
            invariant
                i <= self.entries.len(),
                es == self.entries@,
                q@ == spec_to_lowercase(query@),
                entry_refs(r@) == matching_entries(es.take(i as int), q@),
            decreases self.entries.len() - i,
        {
            assert(es.take(i + 1).drop_last() =~= es.take(i as int));
            let e = &self.entries[i];
            let url_l = to_lowercase(e.request.url.as_str());
            let method_l = to_lowercase(e.request.method.to_string().as_str());
            if str_contains(url_l.as_str(), q.as_str()) || str_contains(method_l.as_str(), q.as_str()) {
                let ghost r0 = r@;
                r.push(e);
                assert(entry_refs(r@) =~= entry_refs(r0).push(*e));
            }
            i = i + 1;
        }
        assert(es.take(i as int) =~= es);
        r
    }

    /// The first entry with the given id.
    pub fn get_by_id(&self, id: &str) -> (r: Option<&HistoryEntry>)
        ensures
            match entry_position(self.entries@, id@, 0) {
                Some(i) => r matches Some(e) && *e == self.entries@[i],
                None => r is None,
            },
    {
        let mut i: usize = 0;
        while i < self.entries.len()
            invariant
                i <= self.entries.len(),
                entry_position(self.entries@, id@, 0) == entry_position(self.entries@, id@, i as int),
            decreases self.entries.len() - i,
        {
            if str_eq(self.entries[i].id.as_str(), id) {
                return Some(&self.entries[i]);
            }
            i = i + 1;
        }
        None
    }

    /// Removes the first entry with the given id; returns whether there was one.
    pub fn remove_by_id(&mut self, id: &str) -> (r: bool)
        ensures
            match entry_position(old(self).entries@, id@, 0) {
                Some(i) => r && final(self).entries@ == old(self).entries@.remove(i),
                None => !r && final(self).entries@ == old(self).entries@,
            },
    {
        let mut i: usize = 0;
        while i < self.entries.len()
            invariant
                i <= self.entries.len(),
                self.entries@ == old(self).entries@,
                entry_position(self.entries@, id@, 0) == entry_position(self.entries@, id@, i as int),
            decreases self.entries.len() - i,
        {
            if str_eq(self.entries[i].id.as_str(), id) {
                self.entries.remove(i);
                return true;
            }
            i = i + 1;
        }
        false
    }

    /// Removes every entry.
    pub fn clear(&mut self)
        ensures
            final(self).entries@.len() == 0,
    {
        self.entries.clear();
    }

    /// The number of entries.
    pub fn len(&self) -> (r: usize)
        ensures
            r == self.entries@.len(),
    {
        self.entries.len()
    }

    /// Whether there is no entry.
    pub fn is_empty(&self) -> (r: bool)
        ensures
            r == (self.entries@.len() == 0),
    {
        self.entries.len() == 0
    }

    /// Copies of all entries, in order.
    pub fn get_all_entries(&self) -> (r: Vec<HistoryEntry>)
        ensures
            r@.len() == self.entries@.len(),
            forall|i: int|
                0 <= i < r@.len() ==> {
                    let a = #[trigger] r@[i];
                    let b = self.entries@[i];
                    &&& a.id@ == b.id@
                    &&& a.timestamp == b.timestamp
                    &&& a.request@ == b.request@
                    &&& a.response_status == b.response_status
                    &&& a.response_size == b.response_size
                    &&& a.duration_ms == b.duration_ms
                },
    {
        let mut r: Vec<HistoryEntry> = Vec::new();
        let mut i: usize = 0;
        while i < self.entries.len()
            invariant
                i <= self.entries.len(),
                r@.len() == i,
                forall|j: int|
                    0 <= j < i ==> {
                        let a = #[trigger] r@[j];
                        let b = self.entries@[j];
                        &&& a.id@ == b.id@
                        &&& a.timestamp == b.timestamp
                        &&& a.request@ == b.request@
                        &&& a.response_status == b.response_status
                        &&& a.response_size == b.response_size
                        &&& a.duration_ms == b.duration_ms
                    },
            decreases self.entries.len() - i,
        {
            r.push(self.entries[i].copy());
            i = i + 1;
        }
        r
    }
}

/// Where the history is stored.
#[derive(Debug, Clone)]
pub struct HistoryStorage {
    pub data_dir: String,
}

impl HistoryStorage {
    /// A store in the given data directory.
    pub fn new(data_dir: String) -> (r: Self)
        ensures
            r.data_dir@ == data_dir@,
    {
        HistoryStorage { data_dir }
    }

    /// The path of the history file.
    pub fn history_file(&self) -> (r: String)
        ensures
            r@ == spec_path_join(self.data_dir@, HISTORY_FILE_NAME@),
    {
        path_join(self.data_dir.as_str(), HISTORY_FILE_NAME)
    }
}

/// Adding to a history never leaves more than `MAX_HISTORY_ITEMS` entries, keeps the new entry
/// first, and keeps the older entries in order after it.
pub proof fn law_history_bounded(es: Seq<HistoryEntry>, e: HistoryEntry)
    ensures
        history_after_add(es, e).len() <= MAX_HISTORY_ITEMS,
        history_after_add(es, e).len() == if es.len() + 1 > MAX_HISTORY_ITEMS {
            MAX_HISTORY_ITEMS as int
        } else {
            es.len() + 1int
        },
        history_after_add(es, e)[0] == e,
        forall|i: int|
            1 <= i < history_after_add(es, e).len() ==> #[trigger] history_after_add(es, e)[i] == es[i
                - 1],
{
}

} // verus!
