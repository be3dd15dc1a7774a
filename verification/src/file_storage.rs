//! The file-system layout of collections: one directory per collection, one `.helios.yml`
//! file per request, one sub-directory with a `folder.yml` per folder.
//!
//! ```text
//! collections/
//!   my-collection/
//!     collection.yml
//!     get-users.helios.yml
//!     users/
//!       folder.yml
//!       get-user.helios.yml
//! ```
//! The reading and writing of files is done by the caller; here are the names, the paths, the
//! file contents and the order in which loaded items are kept.
use vstd::prelude::*;

use crate::helios_format::{helios_yml_of, request_yml, HeliosYml, HeliosYmlView};
use crate::models::{Collection, Folder, Request};
use crate::outside::{new_uuid, now_millis, path_join, spec_path_join};
use crate::text::{
    chars_of, join, join_strings, push_char, push_str, replace, spec_to_lowercase, str_before, str_less, str_replace,
    to_lowercase,
};

verus! {

/// Whether `char::is_alphanumeric` holds of `c` (Unicode alphabetic or numeric).
pub uninterp spec fn spec_is_alphanumeric(c: char) -> bool;

/// `char::is_alphanumeric` (std); the answer is left to the name `spec_is_alphanumeric`.
#[verifier::external_body]
pub(crate) fn is_alphanumeric(c: char) -> (r: bool)
    ensures
        r == spec_is_alphanumeric(c),
{
    c.is_alphanumeric()
}

/// The metadata file of a collection directory.
#[derive(Debug, Clone, PartialEq)]
pub struct CollectionYml {
    pub name: String,
    pub description: String,
}

/// The metadata file of a folder directory.
#[derive(Debug, Clone, PartialEq)]
pub struct FolderYml {
    pub name: String,
    pub seq: u32,
    pub variables: Vec<(String, String)>,
    pub docs: String,
}

/// The maximal runs of characters other than `-` in `m[i..]`, after `parts` and the run `cur`
/// being read.
pub open spec fn dash_runs(m: Seq<char>, i: int, parts: Seq<Seq<char>>, cur: Seq<char>) -> Seq<Seq<char>>
    decreases m.len() - i,
{
    if i < 0 || i >= m.len() {
        if cur.len() > 0 {
            parts.push(cur)
        } else {
            parts
        }
    } else if m[i] == '-' {
        dash_runs(m, i + 1, if cur.len() > 0 { parts.push(cur) } else { parts }, Seq::empty())
    } else {
        dash_runs(m, i + 1, parts, cur.push(m[i]))
    }
}

/// The name with every character that is not alphanumeric turned into `-`.
pub open spec fn dashed(s: Seq<char>) -> Seq<char> {
    s.map_values(|c: char| if spec_is_alphanumeric(c) { c } else { '-' })
}

/// The file-name form of a name: lower-cased, every non-alphanumeric character a separator,
/// and the non-empty pieces joined by single dashes.
pub open spec fn slug(name: Seq<char>) -> Seq<char> {
    join(dash_runs(dashed(spec_to_lowercase(name)), 0, Seq::empty(), Seq::empty()), "-"@)
}

/// The file-name form of a name (`Create Order` becomes `create-order`).
pub fn slugify(name: &str) -> (r: String)
    ensures
        r@ == slug(name@),
{
    let lower = to_lowercase(name);
    let cs = chars_of(lower.as_str());
    let ghost m = dashed(lower@);
    let mut parts: Vec<String> = Vec::new();
    let mut cur = String::new();
    let mut i: usize = 0;
    assert(parts.deep_view() =~= Seq::<Seq<char>>::empty());
    while i < cs.len()
        invariant
            i <= cs.len(),
            cs@ == lower@,
            m == dashed(lower@),
            dash_runs(m, 0, Seq::empty(), Seq::empty()) == dash_runs(
                m,
                i as int,
                parts.deep_view(),
                cur@,
            ),
        decreases cs.len() - i,
    {
        let c = cs[i];
        let keep = is_alphanumeric(c);
        assert(m[i as int] == (if keep { c } else { '-' }));
        if !keep || c == '-' {
            if !cur.as_str().is_empty() {
                let ghost p0 = parts;
                parts.push(cur);
                proof {
                    crate::text::lemma_deep_view_push(p0, parts, cur);
                }
            }
            cur = String::new();
        } else {
            push_char(&mut cur, c);
        }
        i = i + 1;
    }
    if !cur.as_str().is_empty() {
        let ghost p0 = parts;
        parts.push(cur);
        proof {
            crate::text::lemma_deep_view_push(p0, parts, cur);
        }
    }
    proof {
        reveal_strlit("-");
    }
    join_strings(&parts, "-")
}

/// The extension of request files.
pub const REQUEST_FILE_SUFFIX: &'static str = ".helios.yml";

/// The file a request is stored in: its slug with the request-file extension.
pub open spec fn request_file_name_of(name: Seq<char>) -> Seq<char> {
    slug(name) + REQUEST_FILE_SUFFIX@
}

/// The file name of a request.
pub fn request_file_name(req_name: &str) -> (r: String)
    ensures
        r@ == request_file_name_of(req_name@),
{
    let mut r = slugify(req_name);
    push_str(&mut r, REQUEST_FILE_SUFFIX);
    r
}

/// The id of a request loaded from a file: the file stem with `.helios` removed.
pub fn request_id_from_stem(stem: &str) -> (r: String)
    ensures
        r@ == replace(stem@, ".helios"@, Seq::empty()),
{
    proof {
        reveal_strlit(".helios");
        reveal_strlit("");
    }
    assert(""@ =~= Seq::<char>::empty());
    str_replace(stem, ".helios", "")
}

/// What saving a request writes: the request file, in the collection's directory.
#[derive(Debug)]
pub struct RequestFile {
    /// The collection directory, which must exist.
    pub dir: String,
    /// The path of the request file.
    pub path: String,
    /// The content of the request file.
    pub yml: HeliosYml,
}

/// The collections' root directory.
#[derive(Debug, Clone)]
pub struct FileStorage {
    pub base_dir: String,
}

impl FileStorage {
    /// Storage rooted at `base_dir` (which the caller creates).
    pub fn new(base_dir: String) -> (r: Self)
        ensures
            r.base_dir@ == base_dir@,
    {
        FileStorage { base_dir }
    }

    /// The default root: `collections` in the application's data directory.
    pub fn default_path(data_dir: &str) -> (r: String)
        ensures
            r@ == spec_path_join(data_dir@, "collections"@),
    {
        path_join(data_dir, "collections")
    }

    /// Storage at the default root.
    pub fn with_default_path(data_dir: &str) -> (r: Self)
        ensures
            r.base_dir@ == spec_path_join(data_dir@, "collections"@),
    {
        FileStorage { base_dir: Self::default_path(data_dir) }
    }

    /// The directory of a collection.
    pub fn collection_dir(&self, name: &str) -> (r: String)
        ensures
            r@ == spec_path_join(self.base_dir@, name@),
    {
        path_join(self.base_dir.as_str(), name)
    }

    /// What saving a request into a collection writes: the file named after the request's
    /// slug, with the request in file form.
    pub fn save_request(&self, collection_name: &str, req: &Request) -> (r: RequestFile)
        ensures
            r.dir@ == spec_path_join(self.base_dir@, collection_name@),
            r.path@ == spec_path_join(r.dir@, request_file_name_of(req.name@)),
            r.yml@ == request_yml(req@),
    {
        let dir = self.collection_dir(collection_name);
        let file = request_file_name(req.name.as_str());
        let path = path_join(dir.as_str(), file.as_str());
        RequestFile { dir, path, yml: helios_yml_of(req) }
    }
}

/// The metadata file written for a folder.
pub fn folder_yml_of(folder: &Folder) -> (r: FolderYml)
    ensures
        r.name@ == folder.name@,
        r.seq == folder.seq,
        r.variables.deep_view() == folder.variables.deep_view(),
        r.docs@ == folder.docs@,
{
    FolderYml {
        name: folder.name.clone(),
        seq: folder.seq,
        variables: copy_pairs(&folder.variables),
        docs: folder.docs.clone(),
    }
}

/// A copy of a list of string pairs.
pub fn copy_pairs(v: &Vec<(String, String)>) -> (r: Vec<(String, String)>)
    ensures
        r.deep_view() == v.deep_view(),
{
    let mut r: Vec<(String, String)> = Vec::new();
    let mut i: usize = 0;
    while i < v.len()
        invariant
            i <= v.len(),
            r.deep_view() == v.deep_view().take(i as int),
        decreases v.len() - i,
    {
        let ghost r0 = r;
        let p = (v[i].0.clone(), v[i].1.clone());
        r.push(p);
        proof {
            crate::text::lemma_deep_view_push(r0, r, p);
            assert(v.deep_view().take(i + 1) =~= v.deep_view().take(i as int).push(p.deep_view()));
        }
        i = i + 1;
    }
    assert(v.deep_view().take(i as int) =~= v.deep_view());
    r
}

/// `x` placed before the first item of `s` whose key is at least its key.
pub open spec fn insert_by_key<T>(s: Seq<(u32, T)>, x: (u32, T)) -> Seq<(u32, T)>
    decreases s.len(),
{
    if s.len() == 0 {
        seq![x]
    } else if s[0].0 >= x.0 {
        seq![x] + s
    } else {
        seq![s[0]] + insert_by_key(s.drop_first(), x)
    }
}

/// The items ordered by key; items with equal keys keep their order.
pub open spec fn sort_by_key_spec<T>(s: Seq<(u32, T)>) -> Seq<(u32, T)>
    decreases s.len(),
{
    if s.len() == 0 {
        s
    } else {
        insert_by_key(sort_by_key_spec(s.drop_first()), s[0])
    }
}

/// The keys of `s` never decrease.
pub open spec fn keys_sorted<T>(s: Seq<(u32, T)>) -> bool {
    forall|i: int, j: int| 0 <= i <= j < s.len() ==> (#[trigger] s[i]).0 <= (#[trigger] s[j]).0
}

/// Inserting by key into sorted items keeps them sorted, adds one item, and keeps the items.
proof fn lemma_insert_by_key<T>(s: Seq<(u32, T)>, x: (u32, T))
    requires
        keys_sorted(s),
    ensures
        keys_sorted(insert_by_key(s, x)),
        insert_by_key(s, x).len() == s.len() + 1,
        insert_by_key(s, x).to_multiset() == s.to_multiset().insert(x),
    decreases s.len(),
{
    broadcast use vstd::seq_lib::group_to_multiset_ensures;
    if s.len() == 0 {
        assert(insert_by_key(s, x) =~= seq![x]);
        assert(seq![x] =~= Seq::<(u32, T)>::empty().push(x));
    } else if s[0].0 >= x.0 {
        assert(seq![x] + s =~= s.insert(0, x));
    } else {
        let t = s.drop_first();
        lemma_insert_by_key(t, x);
        let r = insert_by_key(t, x);
        assert(seq![s[0]] + r =~= r.insert(0, s[0]));
        assert(s =~= t.insert(0, s[0]));
        let all = seq![s[0]] + r;
        assert forall|i: int, j: int| 0 <= i <= j < all.len() implies (#[trigger] all[i]).0 <= (
        #[trigger] all[j]).0 by {
            if i == 0 && j > 0 {
                let y = r[j - 1];
                if y == x {
                } else {
                    assert(r.to_multiset().count(y) > 0);
                    assert(t.to_multiset().insert(x).count(y) > 0);
                    assert(t.to_multiset().count(y) > 0);
                    assert(t.contains(y));
                    let k = choose|k: int| 0 <= k < t.len() && t[k] == y;
                    assert(s[k + 1] == y);
                }
            }
        }
    }
}

/// Sorting by key gives items in key order, the same items.
proof fn lemma_sort_by_key<T>(s: Seq<(u32, T)>)
    ensures
        keys_sorted(sort_by_key_spec(s)),
        sort_by_key_spec(s).to_multiset() == s.to_multiset(),
    decreases s.len(),
{
    broadcast use vstd::seq_lib::group_to_multiset_ensures;
    if s.len() > 0 {
        lemma_sort_by_key(s.drop_first());
        lemma_insert_by_key(sort_by_key_spec(s.drop_first()), s[0]);
        assert(s =~= s.drop_first().insert(0, s[0]));
    }
}

/// Orders loaded items by their key (the `seq` of their file); items with equal keys keep the
/// order in which they were found.
pub fn sort_by_seq<T>(items: Vec<(u32, T)>) -> (r: Vec<(u32, T)>)
    ensures
        r@ == sort_by_key_spec(items@),
        keys_sorted(r@),
        r@.to_multiset() == items@.to_multiset(),
{
    let ghost s = items@;
    let mut items = items;
    let mut out: Vec<(u32, T)> = Vec::new();
    assert(s.skip(s.len() as int) =~= Seq::<(u32, T)>::empty());
    while items.len() > 0
        invariant
            items@ == s.take(items@.len() as int),
            items@.len() <= s.len(),
            out@ == sort_by_key_spec(s.skip(items@.len() as int)),
        decreases items.len(),
    {
        let ghost k = items@.len() - 1;
        let x = items.pop().unwrap();
        assert(items@ =~= s.take(k));
        assert(x == s[k]);
        assert(s.skip(k).drop_first() =~= s.skip(k + 1));
        assert(s.skip(k)[0] == s[k]);
        let mut j: usize = 0;
        let ghost o = out@;
        assert(o.skip(0) =~= o);
        assert(o.take(0) + insert_by_key(o, x) =~= insert_by_key(o, x));
        while j < out.len() && out[j].0 < x.0
            invariant
                j <= out.len(),
                out@ == o,
                forall|q: int| 0 <= q < j ==> (#[trigger] o[q]).0 < x.0,
                insert_by_key(o, x) == o.take(j as int) + insert_by_key(o.skip(j as int), x),
            decreases out.len() - j,
        {
            proof {
                let t = o.skip(j as int);
                assert(t.drop_first() =~= o.skip(j + 1));
                assert(o.take(j + 1) =~= o.take(j as int).push(o[j as int]));
                assert(o.take(j as int) + (seq![o[j as int]] + insert_by_key(o.skip(j + 1), x))
                    =~= o.take(j + 1) + insert_by_key(o.skip(j + 1), x));
            }
            j = j + 1;
        }
        proof {
            let t = o.skip(j as int);
            if j < o.len() {
                assert(insert_by_key(t, x) == seq![x] + t);
            } else {
                assert(t =~= Seq::<(u32, T)>::empty());
            }
        }
        out.insert(j, x);
        proof {
            let t = o.skip(j as int);
            assert(out@ =~= o.take(j as int) + (seq![x] + t));
            if j < o.len() {
            } else {
                assert(insert_by_key(t, x) =~= seq![x]);
            }
        }
    }
    assert(s.skip(0) =~= s);
    proof {
        lemma_sort_by_key(s);
    }
    out
}

/// The items of `v` in reverse order.
fn reversed<T>(v: Vec<T>) -> (r: Vec<T>)
    ensures
        r@.len() == v@.len(),
        forall|k: int| 0 <= k < v@.len() ==> r@[k] == v@[v@.len() - 1 - k],
{
    let ghost s = v@;
    let mut v = v;
    let mut r: Vec<T> = Vec::new();
    while v.len() > 0
        invariant
            v@ == s.take(v@.len() as int),
            v@.len() <= s.len(),
            r@.len() == s.len() - v@.len(),
            forall|k: int| 0 <= k < r@.len() ==> r@[k] == s[s.len() - 1 - k],
        decreases v.len(),
    {
        let ghost n = v@.len();
        let x = v.pop().unwrap();
        assert(x == s[n - 1]);
        assert(v@ =~= s.take(n - 1));
        r.push(x);
    }
    r
}

/// The items of `s` without their keys.
pub open spec fn values_of<T>(s: Seq<(u32, T)>) -> Seq<T> {
    s.map_values(|p: (u32, T)| p.1)
}

/// The items ordered by key, without their keys; items with equal keys keep their order.
pub fn ordered_values<T>(items: Vec<(u32, T)>) -> (r: Vec<T>)
    ensures
        r@ == values_of(sort_by_key_spec(items@)),
{
    let ghost s = sort_by_key_spec(items@);
    let sorted = sort_by_seq(items);
    let mut rev = reversed(sorted);
    let mut out: Vec<T> = Vec::new();
    while rev.len() > 0
        invariant
            out@.len() + rev@.len() == s.len(),
            forall|k: int| 0 <= k < rev@.len() ==> rev@[k] == s[s.len() - 1 - k],
            forall|k: int| 0 <= k < out@.len() ==> out@[k] == s[k].1,
        decreases rev.len(),
    {
        let (_, v) = rev.pop().unwrap();
        assert(v == s[out@.len() as int].1);
        out.push(v);
    }
    assert(out@ =~= values_of(s));
    out
}

/// Folders keyed by their `seq`.
pub open spec fn keyed_by_seq(fs: Seq<Folder>) -> Seq<(u32, Folder)> {
    fs.map_values(|f: Folder| (f.seq, f))
}

/// The folders ordered by `seq`; folders with equal `seq` keep their order.
pub fn order_folders(folders: Vec<Folder>) -> (r: Vec<Folder>)
    ensures
        r@ == values_of(sort_by_key_spec(keyed_by_seq(folders@))),
{
    let ghost s = folders@;
    let mut rev = reversed(folders);
    let mut keyed: Vec<(u32, Folder)> = Vec::new();
    while rev.len() > 0
        invariant
            keyed@.len() + rev@.len() == s.len(),
            forall|k: int| 0 <= k < rev@.len() ==> rev@[k] == s[s.len() - 1 - k],
            forall|k: int| 0 <= k < keyed@.len() ==> keyed@[k] == (s[k].seq, s[k]),
        decreases rev.len(),
    {
        let f = rev.pop().unwrap();
        assert(f == s[keyed@.len() as int]);
        keyed.push((f.seq, f));
    }
    assert(keyed@ =~= keyed_by_seq(s));
    ordered_values(keyed)
}

/// What a folder directory's metadata gives the folder: the content of its `folder.yml`, or,
/// for a directory without one, the directory's name with `seq` 0, no variables and no docs.
pub open spec fn folder_meta(meta: Option<FolderYml>, dir_name: Seq<char>) -> (Seq<char>, u32, Seq<(Seq<char>, Seq<char>)>, Seq<char>) {
    match meta {
        Some(m) => (m.name@, m.seq, m.variables.deep_view(), m.docs@),
        None => (dir_name, 0u32, Seq::empty(), Seq::empty()),
    }
}

/// The folder loaded from a directory, given its `folder.yml` (if it has one), its name, the
/// requests read from its request files with the `seq` of each file, and its loaded
/// sub-folders. Requests and sub-folders are ordered by `seq`; the folder gets a fresh
/// identifier and the current time.
pub fn folder_from_dir(
    meta: Option<FolderYml>,
    dir_name: String,
    requests: Vec<(u32, Request)>,
    folders: Vec<Folder>,
) -> (r: Folder)
    ensures
        (r.name@, r.seq, r.variables.deep_view(), r.docs@) == folder_meta(meta, dir_name@),
        r.requests@ == values_of(sort_by_key_spec(requests@)),
        r.folders@ == values_of(sort_by_key_spec(keyed_by_seq(folders@))),
        r.id@.len() == 36,
{
    let ghost m0 = meta;
    let (name, seq, variables, docs) = match meta {
        Some(m) => (m.name, m.seq, m.variables, m.docs),
        None => (dir_name, 0u32, Vec::new(), String::new()),
    };
    proof {
        if m0 is None {
            assert(variables.deep_view() =~= Seq::<(Seq<char>, Seq<char>)>::empty());
        }
    }
    Folder {
        id: new_uuid(),
        name,
        seq,
        variables,
        docs,
        folders: order_folders(folders),
        requests: ordered_values(requests),
        created_at: now_millis(),
    }
}

/// The collection loaded from a directory, given the name in its `collection.yml` (if it has
/// one), the directory's name, the requests read from its request files with the `seq` of
/// each file, and its loaded folders. The collection is named by `collection.yml`, else by its
/// directory; requests and folders are ordered by `seq`; it gets a fresh identifier and the
/// current time.
pub fn collection_from_dir(
    meta_name: Option<String>,
    dir_name: String,
    requests: Vec<(u32, Request)>,
    folders: Vec<Folder>,
) -> (r: Collection)
    ensures
        r.name@ == (match meta_name {
            Some(n) => n@,
            None => dir_name@,
        }),
        r.requests@ == values_of(sort_by_key_spec(requests@)),
        r.folders@ == values_of(sort_by_key_spec(keyed_by_seq(folders@))),
        r.id@.len() == 36,
{
    let name = match meta_name {
        Some(n) => n,
        None => dir_name,
    };
    Collection {
        id: new_uuid(),
        name,
        folders: order_folders(folders),
        requests: ordered_values(requests),
        created_at: now_millis(),
    }
}

/// The position of the first name equal to `name`, if any (used to find a request file by the
/// request name written inside it).
pub fn position_of_name(names: &Vec<String>, name: &str) -> (r: Option<usize>)
    ensures
        match r {
            Some(i) => i < names@.len() && names@[i as int]@ == name@ && forall|k: int|
                0 <= k < i ==> names@[k]@ != name@,
            None => forall|k: int| 0 <= k < names@.len() ==> names@[k]@ != name@,
        },
{
    let mut i: usize = 0;
    while i < names.len()
        invariant
            i <= names@.len(),
            forall|k: int| 0 <= k < i ==> names@[k]@ != name@,
        decreases names.len() - i,
    {
        if crate::text::str_eq(names[i].as_str(), name) {
            return Some(i);
        }
        i = i + 1;
    }
    None
}

/// `x` placed before the first name that does not come before it.
pub open spec fn insert_name(s: Seq<Seq<char>>, x: Seq<char>) -> Seq<Seq<char>>
    decreases s.len(),
{
    if s.len() == 0 {
        seq![x]
    } else if !str_before(s[0], x) {
        seq![x] + s
    } else {
        seq![s[0]] + insert_name(s.drop_first(), x)
    }
}

/// The names in character order.
pub open spec fn sort_names(s: Seq<Seq<char>>) -> Seq<Seq<char>>
    decreases s.len(),
{
    if s.len() == 0 {
        s
    } else {
        insert_name(sort_names(s.drop_first()), s[0])
    }
}

/// The collection directory names, in the order in which they are listed.
pub fn sorted_names(v: &Vec<String>) -> (r: Vec<String>)
    ensures
        r.deep_view() == sort_names(v.deep_view()),
{
    let ghost s = v.deep_view();
    let mut out: Vec<String> = Vec::new();
    let mut k: usize = v.len();
    assert(s.skip(s.len() as int) =~= Seq::<Seq<char>>::empty());
    assert(out.deep_view() =~= Seq::<Seq<char>>::empty());
    while k > 0
        invariant
            k <= v.len(),
            s == v.deep_view(),
            out.deep_view() == sort_names(s.skip(k as int)),
        decreases k,
    {
        k = k - 1;
        let x = v[k].clone();
        assert(x@ == s[k as int]);
        assert(s.skip(k as int).drop_first() =~= s.skip(k + 1));
        assert(s.skip(k as int)[0] == s[k as int]);
        let ghost o = out.deep_view();
        let mut j: usize = 0;
        assert(o.skip(0) =~= o);
        assert(o.take(0) + insert_name(o, x@) =~= insert_name(o, x@));
        while j < out.len() && str_less(out[j].as_str(), x.as_str())
            invariant
                j <= out.len(),
                out.deep_view() == o,
                insert_name(o, x@) == o.take(j as int) + insert_name(o.skip(j as int), x@),
            decreases out.len() - j,
        {
            proof {
                let t = o.skip(j as int);
                assert(t[0] == o[j as int]);
                assert(t.drop_first() =~= o.skip(j + 1));
                assert(o.take(j + 1) =~= o.take(j as int).push(o[j as int]));
                assert(o.take(j as int) + (seq![o[j as int]] + insert_name(o.skip(j + 1), x@))
                    =~= o.take(j + 1) + insert_name(o.skip(j + 1), x@));
            }
            j = j + 1;
        }
        proof {
            let t = o.skip(j as int);
            if j < o.len() {
                assert(t[0] == o[j as int]);
                assert(insert_name(t, x@) == seq![x@] + t);
            } else {
                assert(t =~= Seq::<Seq<char>>::empty());
            }
        }
        out.insert(j, x);
        proof {
            let t = o.skip(j as int);
            assert(out.deep_view() =~= o.take(j as int) + (seq![x@] + t));
            if j >= o.len() {
                assert(insert_name(t, x@) =~= seq![x@]);
            }
        }
    }
    assert(s.skip(0) =~= s);
    out
}

/// No name comes before itself.
proof fn lemma_str_before_irreflexive(a: Seq<char>)
    ensures
        !str_before(a, a),
    decreases a.len(),
{
    if a.len() > 0 {
        lemma_str_before_irreflexive(a.drop_first());
    }
}

/// Coming before is transitive.
proof fn lemma_str_before_transitive(a: Seq<char>, b: Seq<char>, c: Seq<char>)
    requires
        str_before(a, b),
        str_before(b, c),
    ensures
        str_before(a, c),
    decreases a.len(),
{
    if a.len() > 0 && a[0] == b[0] && b[0] == c[0] {
        lemma_str_before_transitive(a.drop_first(), b.drop_first(), c.drop_first());
    }
}

/// Of two different names, one comes before the other.
proof fn lemma_str_before_total(a: Seq<char>, b: Seq<char>)
    requires
        a != b,
    ensures
        str_before(a, b) || str_before(b, a),
    decreases a.len(),
{
    if a.len() == 0 || b.len() == 0 {
        if a.len() == 0 && b.len() == 0 {
            assert(a =~= b);
        }
    } else if a[0] == b[0] {
        if a.drop_first() == b.drop_first() {
            assert(a =~= seq![a[0]] + a.drop_first());
            assert(b =~= seq![b[0]] + b.drop_first());
        }
        lemma_str_before_total(a.drop_first(), b.drop_first());
    } else {
        assert(a[0] < b[0] || b[0] < a[0]);
    }
}

/// The names are in order: none comes before one earlier in the list.
pub open spec fn names_sorted(s: Seq<Seq<char>>) -> bool {
    forall|i: int, j: int| 0 <= i < j < s.len() ==> !str_before(#[trigger] s[j], #[trigger] s[i])
}

/// Inserting a name into ordered names keeps them ordered and adds just that name.
proof fn lemma_insert_name(s: Seq<Seq<char>>, x: Seq<char>)
    requires
        names_sorted(s),
    ensures
        names_sorted(insert_name(s, x)),
        insert_name(s, x).to_multiset() == s.to_multiset().insert(x),
    decreases s.len(),
{
    broadcast use vstd::seq_lib::group_to_multiset_ensures;
    if s.len() == 0 {
        assert(insert_name(s, x) =~= seq![x]);
        assert(seq![x] =~= Seq::<Seq<char>>::empty().push(x));
    } else if !str_before(s[0], x) {
        let r = seq![x] + s;
        assert(r =~= s.insert(0, x));
        assert forall|i: int, j: int| 0 <= i < j < r.len() implies !str_before(#[trigger] r[j], #[trigger] r[i]) by {
            if i == 0 && str_before(r[j], x) {
                if j == 1 {
                    if s[0] != x {
                        lemma_str_before_total(s[0], x);
                    } else {
                        lemma_str_before_irreflexive(x);
                    }
                } else {
                    assert(!str_before(s[j - 1], s[0]));
                    if s[0] == x {
                    } else {
                        lemma_str_before_total(s[0], x);
                        lemma_str_before_transitive(s[j - 1], x, s[0]);
                    }
                }
            }
        }
    } else {
        let t = s.drop_first();
        lemma_insert_name(t, x);
        let r = insert_name(t, x);
        let all = seq![s[0]] + r;
        assert(all =~= r.insert(0, s[0]));
        assert(s =~= t.insert(0, s[0]));
        assert forall|i: int, j: int| 0 <= i < j < all.len() implies !str_before(#[trigger] all[j], #[trigger] all[i]) by {
            if i == 0 {
                let y = r[j - 1];
                if y == x {
                    if str_before(x, s[0]) {
                        lemma_str_before_transitive(x, s[0], x);
                        lemma_str_before_irreflexive(x);
                    }
                } else {
                    assert(r.to_multiset().count(y) > 0);
                    assert(t.to_multiset().insert(x).count(y) > 0);
                    assert(t.to_multiset().count(y) > 0);
                    assert(t.contains(y));
                    let k = choose|k: int| 0 <= k < t.len() && t[k] == y;
                    assert(s[k + 1] == y);
                }
            }
        }
    }
}

/// Listing collection names puts them in order, and lists each name as often as it was found.
pub proof fn law_sorted_names(names: Seq<Seq<char>>)
    ensures
        names_sorted(sort_names(names)),
        sort_names(names).to_multiset() == names.to_multiset(),
    decreases names.len(),
{
    broadcast use vstd::seq_lib::group_to_multiset_ensures;
    if names.len() > 0 {
        law_sorted_names(names.drop_first());
        lemma_insert_name(sort_names(names.drop_first()), names[0]);
        assert(names =~= names.drop_first().insert(0, names[0]));
    }
}

} // verus!
