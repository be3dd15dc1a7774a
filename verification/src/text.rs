//! Character-level text utilities shared by the parsers of this crate.
//!
//! Strings are modelled by their `Seq<char>` view; the executable helpers
//! work on `Vec<char>` buffers and are proved against the spec functions here.
use vstd::prelude::*;

verus! {

/// Unicode `White_Space` characters, which is what `char::is_whitespace` tests.
pub open spec fn is_ws(c: char) -> bool {
    ||| ('\u{9}' <= c && c <= '\u{d}')
    ||| c == ' '
    ||| c == '\u{85}'
    ||| c == '\u{a0}'
    ||| c == '\u{1680}'
    ||| ('\u{2000}' <= c && c <= '\u{200a}')
    ||| c == '\u{2028}'
    ||| c == '\u{2029}'
    ||| c == '\u{202f}'
    ||| c == '\u{205f}'
    ||| c == '\u{3000}'
}

/// Executable test for a Unicode `White_Space` character.
pub fn is_whitespace(c: char) -> (r: bool)
    ensures
        r == is_ws(c),
{
    ('\u{9}' <= c && c <= '\u{d}') || c == ' ' || c == '\u{85}' || c == '\u{a0}' || c == '\u{1680}'
        || ('\u{2000}' <= c && c <= '\u{200a}') || c == '\u{2028}' || c == '\u{2029}' || c
        == '\u{202f}' || c == '\u{205f}' || c == '\u{3000}'
}

/// `s` with its leading white space removed.
pub open spec fn trim_start(s: Seq<char>) -> Seq<char>
    decreases s.len(),
{
    if s.len() > 0 && is_ws(s[0]) {
        trim_start(s.drop_first())
    } else {
        s
    }
}

/// `s` with its trailing white space removed.
pub open spec fn trim_end(s: Seq<char>) -> Seq<char>
    decreases s.len(),
{
    if s.len() > 0 && is_ws(s.last()) {
        trim_end(s.drop_last())
    } else {
        s
    }
}

/// `s` with leading and trailing white space removed (what `str::trim` gives).
pub open spec fn trim(s: Seq<char>) -> Seq<char> {
    trim_end(trim_start(s))
}

/// `p` is a prefix of `s`.
pub open spec fn has_prefix(s: Seq<char>, p: Seq<char>) -> bool {
    p.len() <= s.len() && s.take(p.len() as int) == p
}

/// `p` occurs in `s` at position `i`.
pub open spec fn occurs_at(s: Seq<char>, p: Seq<char>, i: int) -> bool {
    0 <= i && i + p.len() <= s.len() && s.subrange(i, i + p.len()) == p
}

/// The first position at or after `from` where `p` occurs in `s`.
pub open spec fn find_from(s: Seq<char>, p: Seq<char>, from: int) -> Option<int>
    decreases s.len() + 1 - from,
{
    if from < 0 || from + p.len() > s.len() {
        None
    } else if occurs_at(s, p, from) {
        Some(from)
    } else {
        find_from(s, p, from + 1)
    }
}

/// The first position where `p` occurs in `s` (what `str::find` gives, counted in characters).
pub open spec fn find(s: Seq<char>, p: Seq<char>) -> Option<int> {
    find_from(s, p, 0)
}

/// `p` occurs somewhere in `s` (what `str::contains` tests).
pub open spec fn contains(s: Seq<char>, p: Seq<char>) -> bool {
    find(s, p) is Some
}

/// The first position of the character `c` in `s`.
pub open spec fn index_of(s: Seq<char>, c: char) -> Option<int> {
    find(s, seq![c])
}

/// Every occurrence of the non-empty pattern `p` in `s`, scanned from the left
/// without overlaps, replaced by `v` (what `str::replace` gives).
pub open spec fn replace(s: Seq<char>, p: Seq<char>, v: Seq<char>) -> Seq<char>
    decreases s.len(),
{
    if p.len() == 0 || s.len() < p.len() {
        s
    } else if has_prefix(s, p) {
        v + replace(s.skip(p.len() as int), p, v)
    } else {
        seq![s[0]] + replace(s.drop_first(), p, v)
    }
}

/// One line as `str::lines` yields it: the text before a `\n`, without a trailing `\r`.
pub open spec fn strip_cr(line: Seq<char>) -> Seq<char> {
    if line.len() > 0 && line.last() == '\r' {
        line.drop_last()
    } else {
        line
    }
}

/// The lines of `s`, as `str::lines` splits them.
pub open spec fn lines(s: Seq<char>) -> Seq<Seq<char>>
    decreases s.len(),
{
    if s.len() == 0 {
        Seq::empty()
    } else {
        match index_of(s, '\n') {
            None => seq![s],
            Some(k) => if 0 <= k < s.len() {
                seq![strip_cr(s.take(k))] + lines(s.skip(k + 1))
            } else {
                seq![s]
            },
        }
    }
}

/// The pieces of `s` between occurrences of the separator character `c`
/// (what `str::split` yields for a `char` pattern).
pub open spec fn split_char(s: Seq<char>, c: char) -> Seq<Seq<char>>
    decreases s.len(),
{
    match index_of(s, c) {
        None => seq![s],
        Some(k) => if 0 <= k < s.len() {
            seq![s.take(k)] + split_char(s.skip(k + 1), c)
        } else {
            seq![s]
        },
    }
}

/// Splitting gives at least one piece.
pub proof fn lemma_split_char_nonempty(s: Seq<char>, c: char)
    ensures
        split_char(s, c).len() >= 1,
    decreases s.len(),
{
    match index_of(s, c) {
        None => {},
        Some(k) => if 0 <= k < s.len() {
            lemma_split_char_nonempty(s.skip(k + 1), c);
        },
    }
}

/// The first piece of a split, and a separator before it when there are more pieces.
pub proof fn lemma_split_char_first(s: Seq<char>, c: char)
    ensures
        split_char(s, c).len() >= 1,
        index_of(s, c) is None ==> split_char(s, c)[0] == s,
        index_of(s, c) matches Some(k) ==> 0 <= k < s.len() && s[k] == c && split_char(s, c)[0] == s.take(k),
        split_char(s, c).len() >= 2 ==> index_of(s, c) is Some,
{
    lemma_split_char_nonempty(s, c);
    lemma_find_from_spec(s, seq![c], 0);
    match index_of(s, c) {
        None => {},
        Some(k) => {
            assert(s.subrange(k, k + 1) == seq![c]);
            assert(s.subrange(k, k + 1)[0] == s[k]);
        },
    }
}

/// `parts` joined with the separator `sep` between consecutive parts.
pub open spec fn join(parts: Seq<Seq<char>>, sep: Seq<char>) -> Seq<char>
    decreases parts.len(),
{
    if parts.len() == 0 {
        Seq::empty()
    } else if parts.len() == 1 {
        parts[0]
    } else {
        parts[0] + sep + join(parts.drop_first(), sep)
    }
}

/// Joins pieces with a separator.
pub fn join_strings(parts: &Vec<String>, sep: &str) -> (r: String)
    ensures
        r@ == join(parts.deep_view(), sep@),
{
    let ghost pv = parts.deep_view();
    if parts.len() == 0 {
        return String::new();
    }
    let mut r = parts[parts.len() - 1].clone();
    let mut i: usize = parts.len() - 1;
    assert(pv.skip(i as int) =~= seq![pv[i as int]]);
    while i > 0
        invariant
            0 <= i < parts.len(),
            pv == parts.deep_view(),
            r@ == join(pv.skip(i as int), sep@),
        decreases i,
    {
        let ghost tail = pv.skip(i as int);
        let mut s = parts[i - 1].clone();
        push_str(&mut s, sep);
        push_str(&mut s, r.as_str());
        proof {
            let t = pv.skip(i - 1);
            assert(t.drop_first() =~= tail);
            assert(t[0] == pv[i - 1]);
        }
        r = s;
        i = i - 1;
    }
    assert(pv.skip(0) =~= pv);
    r
}

/// What `str::to_uppercase` gives: the Unicode upper-case mapping of every character
/// (one character may map to several).
pub uninterp spec fn spec_to_uppercase(s: Seq<char>) -> Seq<char>;

/// `str::to_uppercase` (std); its result is named by `spec_to_uppercase`.
#[verifier::external_body]
pub(crate) fn to_uppercase(s: &str) -> (r: String)
    ensures
        r@ == spec_to_uppercase(s@),
{
    s.to_uppercase()
}

/// What `str::to_lowercase` gives: the Unicode lower-case mapping of every character
/// (one character may map to several).
pub uninterp spec fn spec_to_lowercase(s: Seq<char>) -> Seq<char>;

/// `str::to_lowercase` (std); its result is named by `spec_to_lowercase`.
#[verifier::external_body]
pub(crate) fn to_lowercase(s: &str) -> (r: String)
    ensures
        r@ == spec_to_lowercase(s@),
{
    s.to_lowercase()
}

/// Appends one character to a string: `String::push` (std).
#[verifier::external_body]
pub(crate) fn push_char(s: &mut String, c: char)
    ensures
        final(s)@ == old(s)@.push(c),
{
    s.push(c);
}

/// The characters of a string slice, in order.
pub fn chars_of(s: &str) -> (r: Vec<char>)
    ensures
        r@ == s@,
{
    let mut r: Vec<char> = Vec::new();
    for c in it: s.chars()
        invariant
            r@ == it.seq().take(it.index() as int),
    {
        r.push(c);
    }
    r
}

/// The string made of `v[lo..hi]`.
pub fn string_of_range(v: &Vec<char>, lo: usize, hi: usize) -> (r: String)
    requires
        lo <= hi <= v.len(),
    ensures
        r@ == v@.subrange(lo as int, hi as int),
{
    let mut r = String::new();
    let mut i = lo;
    while i < hi
        invariant
            lo <= i <= hi <= v.len(),
            r@ == v@.subrange(lo as int, i as int),
        decreases hi - i,
    {
        push_char(&mut r, v[i]);
        assert(v@.subrange(lo as int, i + 1) == v@.subrange(lo as int, i as int).push(v@[i as int]));
        i = i + 1;
    }
    r
}

/// The string made of the characters of `v`.
pub fn string_of(v: &Vec<char>) -> (r: String)
    ensures
        r@ == v@,
{
    let r = string_of_range(v, 0, v.len());
    assert(v@.subrange(0, v@.len() as int) == v@);
    r
}

/// A copy of a string.
pub fn copy_str(s: &str) -> (r: String)
    ensures
        r@ == s@,
{
    let v = chars_of(s);
    string_of(&v)
}

/// Appends the characters of `t` to `s`.
pub fn push_str(s: &mut String, t: &str)
    ensures
        final(s)@ == old(s)@ + t@,
{
    let v = chars_of(t);
    push_chars(s, &v);
}

/// Appends the characters of `v` to `s`.
pub fn push_chars(s: &mut String, v: &Vec<char>)
    ensures
        final(s)@ == old(s)@ + v@,
{
    let ghost s0 = s@;
    let mut i: usize = 0;
    while i < v.len()
        invariant
            i <= v.len(),
            s@ == s0 + v@.take(i as int),
        decreases v.len() - i,
    {
        push_char(s, v[i]);
        assert(v@.take(i + 1) == v@.take(i as int).push(v@[i as int]));
        i = i + 1;
    }
    assert(v@.take(v.len() as int) == v@);
}

/// `a[alo..ahi]` and `b[blo..bhi]` hold the same characters.
pub fn range_eq(a: &Vec<char>, alo: usize, ahi: usize, b: &Vec<char>, blo: usize, bhi: usize) -> (r:
    bool)
    requires
        alo <= ahi <= a.len(),
        blo <= bhi <= b.len(),
    ensures
        r == (a@.subrange(alo as int, ahi as int) == b@.subrange(blo as int, bhi as int)),
{
    if ahi - alo != bhi - blo {
        assert(a@.subrange(alo as int, ahi as int).len() != b@.subrange(blo as int, bhi as int).len());
        return false;
    }
    let n = ahi - alo;
    let mut i: usize = 0;
    while i < n
        invariant
            n == ahi - alo == bhi - blo,
            alo <= ahi <= a.len(),
            blo <= bhi <= b.len(),
            i <= n,
            a@.subrange(alo as int, alo + i) =~= b@.subrange(blo as int, blo + i),
        decreases n - i,
    {
        if a[alo + i] != b[blo + i] {
            assert(a@.subrange(alo as int, ahi as int)[i as int] != b@.subrange(
                blo as int,
                bhi as int,
            )[i as int]);
            return false;
        }
        assert(a@.subrange(alo as int, alo + i + 1) =~= a@.subrange(alo as int, alo + i).push(a@[alo + i]));
        assert(b@.subrange(blo as int, blo + i + 1) =~= b@.subrange(blo as int, blo + i).push(b@[blo + i]));
        i = i + 1;
    }
    true
}

/// Two strings hold the same characters.
pub fn str_eq(a: &str, b: &str) -> (r: bool)
    ensures
        r == (a@ == b@),
{
    let va = chars_of(a);
    let vb = chars_of(b);
    let r = range_eq(&va, 0, va.len(), &vb, 0, vb.len());
    assert(va@.subrange(0, va@.len() as int) == va@);
    assert(vb@.subrange(0, vb@.len() as int) == vb@);
    r
}

/// `p` occurs in `v` at position `i`.
pub fn occurs_at_exec(v: &Vec<char>, p: &Vec<char>, i: usize) -> (r: bool)
    ensures
        r == occurs_at(v@, p@, i as int),
{
    if i > v.len() || v.len() - i < p.len() {
        return false;
    }
    let r = range_eq(v, i, i + p.len(), p, 0, p.len());
    assert(p@.subrange(0, p@.len() as int) == p@);
    r
}

/// The result of `find_from` is an occurrence, and nothing between `from` and it is one.
pub proof fn lemma_find_from_spec(s: Seq<char>, p: Seq<char>, from: int)
    requires
        0 <= from,
    ensures
        find_from(s, p, from) matches Some(k) ==> from <= k && occurs_at(s, p, k) && forall|
            j: int,
        |
            from <= j < k ==> !occurs_at(s, p, j),
        find_from(s, p, from) is None ==> forall|j: int| from <= j ==> !occurs_at(s, p, j),
    decreases s.len() + 1 - from,
{
    if from + p.len() > s.len() {
    } else if occurs_at(s, p, from) {
    } else {
        lemma_find_from_spec(s, p, from + 1);
    }
}

/// The first position at or after `from` where `p` occurs in `v`.
pub fn find_from_exec(v: &Vec<char>, p: &Vec<char>, from: usize) -> (r: Option<usize>)
    ensures
        r matches Some(k) ==> find_from(v@, p@, from as int) == Some(k as int),
        r is None ==> find_from(v@, p@, from as int) is None,
{
    if p.len() == 0 {
        if from <= v.len() {
            assert(v@.subrange(from as int, from as int) =~= p@);
            return Some(from);
        }
        return None;
    }
    if p.len() > v.len() {
        return None;
    }
    let mut i = from;
    while i <= v.len() - p.len()
        invariant
            from <= i,
            p.len() >= 1,
            p.len() <= v.len(),
            find_from(v@, p@, from as int) == find_from(v@, p@, i as int),
        decreases v.len() + 1 - i,
    {
        if occurs_at_exec(v, p, i) {
            return Some(i);
        }
        i = i + 1;
    }
    None
}

/// The first position of `c` in `v` at or after `from`.
pub fn index_of_from(v: &Vec<char>, c: char, from: usize) -> (r: Option<usize>)
    ensures
        r matches Some(k) ==> find_from(v@, seq![c], from as int) == Some(k as int),
        r is None ==> find_from(v@, seq![c], from as int) is None,
{
    let mut i = from;
    while i < v.len()
        invariant
            from <= i,
            find_from(v@, seq![c], from as int) == find_from(v@, seq![c], i as int),
        decreases v.len() - i,
    {
        if v[i] == c {
            assert(v@.subrange(i as int, i + 1) =~= seq![c]);
            return Some(i);
        }
        assert(!(v@.subrange(i as int, i + 1) =~= seq![c])) by {
            assert(v@.subrange(i as int, i + 1)[0] == v@[i as int]);
        }
        i = i + 1;
    }
    None
}

/// `p` occurs somewhere in `s`.
pub fn str_contains(s: &str, p: &str) -> (r: bool)
    ensures
        r == contains(s@, p@),
{
    let vs = chars_of(s);
    let vp = chars_of(p);
    find_from_exec(&vs, &vp, 0).is_some()
}

/// `p` is a prefix of `s`.
pub fn str_starts_with(s: &str, p: &str) -> (r: bool)
    ensures
        r == has_prefix(s@, p@),
{
    let vs = chars_of(s);
    let vp = chars_of(p);
    if vp.len() > vs.len() {
        return false;
    }
    let r = range_eq(&vs, 0, vp.len(), &vp, 0, vp.len());
    assert(vp@.subrange(0, vp@.len() as int) == vp@);
    assert(vs@.subrange(0, vp@.len() as int) == vs@.take(vp@.len() as int));
    r
}

/// `trim_start` and `trim_end` as index bounds: `trim(v[lo..hi])` is `v[a..b]`.
pub fn trim_bounds(v: &Vec<char>, lo: usize, hi: usize) -> (r: (usize, usize))
    requires
        lo <= hi <= v.len(),
    ensures
        lo <= r.0 <= r.1 <= hi,
        v@.subrange(r.0 as int, r.1 as int) == trim(v@.subrange(lo as int, hi as int)),
{
    let mut a = lo;
    while a < hi && is_whitespace(v[a])
        invariant
            lo <= a <= hi <= v.len(),
            trim_start(v@.subrange(lo as int, hi as int)) == trim_start(
                v@.subrange(a as int, hi as int),
            ),
        decreases hi - a,
    {
        assert(v@.subrange(a as int, hi as int).drop_first() == v@.subrange(a + 1, hi as int));
        a = a + 1;
    }
    assert(trim_start(v@.subrange(a as int, hi as int)) == v@.subrange(a as int, hi as int));
    let mut b = hi;
    while b > a && is_whitespace(v[b - 1])
        invariant
            lo <= a <= b <= hi <= v.len(),
            trim(v@.subrange(lo as int, hi as int)) == trim_end(v@.subrange(a as int, b as int)),
        decreases b - a,
    {
        assert(v@.subrange(a as int, b as int).drop_last() == v@.subrange(a as int, b - 1));
        b = b - 1;
    }
    (a, b)
}

/// `str::trim`: the string without leading and trailing white space.
pub fn str_trim(s: &str) -> (r: String)
    ensures
        r@ == trim(s@),
{
    let v = chars_of(s);
    let (a, b) = trim_bounds(&v, 0, v.len());
    assert(v@.subrange(0, v@.len() as int) == v@);
    string_of_range(&v, a, b)
}

/// Replaces every occurrence of the non-empty pattern `p` in `s` by `val`.
pub fn str_replace(s: &str, p: &str, val: &str) -> (r: String)
    requires
        p@.len() > 0,
    ensures
        r@ == replace(s@, p@, val@),
{
    let vs = chars_of(s);
    let vp = chars_of(p);
    let vv = chars_of(val);
    let mut r = String::new();
    let mut i: usize = 0;
    assert(vs@.skip(0) == vs@);
    while i < vs.len()
        invariant
            i <= vs.len(),
            vp@.len() > 0,
            replace(vs@, vp@, vv@) == r@ + replace(vs@.skip(i as int), vp@, vv@),
        decreases vs.len() - i,
    {
        let ghost rest = vs@.skip(i as int);
        if occurs_at_exec(&vs, &vp, i) {
            assert(rest.take(vp@.len() as int) == vs@.subrange(i as int, i + vp@.len()));
            assert(rest.skip(vp@.len() as int) == vs@.skip(i + vp@.len()));
            push_chars(&mut r, &vv);
            i = i + vp.len();
        } else {
            proof {
                if rest.len() >= vp@.len() {
                    assert(rest.take(vp@.len() as int) == vs@.subrange(i as int, i + vp@.len()));
                }
                assert(rest.drop_first() == vs@.skip(i + 1));
            }
            push_char(&mut r, vs[i]);
            i = i + 1;
        }
    }
    assert(vs@.skip(i as int).len() == 0);
    r
}

/// `find_from` on a suffix of `s` is `find_from` on `s`, shifted.
pub proof fn lemma_find_from_skip(s: Seq<char>, p: Seq<char>, d: int, x: int)
    requires
        0 <= d <= s.len(),
        0 <= x,
    ensures
        find_from(s.skip(d), p, x) == (match find_from(s, p, x + d) {
            Some(k) => Some(k - d),
            None => None,
        }),
    decreases s.len() + 1 - (x + d),
{
    let t = s.skip(d);
    if x + p.len() > t.len() {
    } else {
        assert(t.subrange(x, x + p.len()) =~= s.subrange(x + d, x + d + p.len()));
        if occurs_at(t, p, x) {
        } else {
            lemma_find_from_skip(s, p, d, x + 1);
        }
    }
}

/// The pieces of `s` between occurrences of `c` (what `str::split` yields for a `char`).
pub fn split_on(s: &str, c: char) -> (r: Vec<String>)
    ensures
        r.deep_view() == split_char(s@, c),
{
    let v = chars_of(s);
    let mut r: Vec<String> = Vec::new();
    let mut start: usize = 0;
    assert(v@.skip(0) =~= v@);
    assert(r.deep_view() =~= Seq::<Seq<char>>::empty());
    loop
        invariant
            start <= v.len(),
            v@ == s@,
            split_char(s@, c) == r.deep_view() + split_char(v@.skip(start as int), c),
        decreases v.len() - start,
    {
        let ghost rest = v@.skip(start as int);
        proof {
            lemma_find_from_skip(v@, seq![c], start as int, 0);
        }
        let ghost r0 = r;
        match index_of_from(&v, c, start) {
            None => {
                let piece = string_of_range(&v, start, v.len());
                r.push(piece);
                proof {
                    lemma_deep_view_push(r0, r, piece);
                    assert(piece@ =~= rest);
                    assert(index_of(rest, c) is None);
                    assert(split_char(rest, c) == seq![rest]);
                    assert(r.deep_view() =~= r0.deep_view() + split_char(rest, c));
                }
                return r;
            },
            Some(k) => {
                proof {
                    lemma_find_from_spec(v@, seq![c], start as int);
                }
                let piece = string_of_range(&v, start, k);
                r.push(piece);
                proof {
                    lemma_deep_view_push(r0, r, piece);
                    assert(rest.take(k - start) =~= piece@);
                    assert(rest.skip(k - start + 1) =~= v@.skip(k + 1));
                    assert(index_of(rest, c) == Some(k - start));
                    assert(split_char(rest, c) == seq![rest.take(k - start)] + split_char(rest.skip(k - start + 1), c));
                    assert(r.deep_view() + split_char(v@.skip(k + 1), c) =~= r0.deep_view() + split_char(rest, c));
                }
                start = k + 1;
            },
        }
    }
}

/// Pushing onto a vector pushes the element's deep view onto the vector's deep view.
pub proof fn lemma_deep_view_push<T: DeepView>(a: Vec<T>, b: Vec<T>, x: T)
    requires
        b@ == a@.push(x),
    ensures
        b.deep_view() == a.deep_view().push(x.deep_view()),
{
    assert(b.deep_view() =~= a.deep_view().push(x.deep_view()));
}

/// The characters `v[lo..hi]` as a new vector.
pub fn vec_range(v: &Vec<char>, lo: usize, hi: usize) -> (r: Vec<char>)
    requires
        lo <= hi <= v.len(),
    ensures
        r@ == v@.subrange(lo as int, hi as int),
{
    let mut r: Vec<char> = Vec::new();
    let mut i = lo;
    while i < hi
        invariant
            lo <= i <= hi <= v.len(),
            r@ == v@.subrange(lo as int, i as int),
        decreases hi - i,
    {
        r.push(v[i]);
        assert(v@.subrange(lo as int, i + 1) =~= v@.subrange(lo as int, i as int).push(v@[i as int]));
        i = i + 1;
    }
    r
}

/// The lines of `v`, as `str::lines` splits them.
pub fn lines_vec(v: &Vec<char>) -> (r: Vec<Vec<char>>)
    ensures
        r.deep_view() == lines(v@),
{
    let mut r: Vec<Vec<char>> = Vec::new();
    let mut start: usize = 0;
    assert(v@.skip(0) =~= v@);
    while start < v.len()
        invariant
            start <= v.len(),
            lines(v@) == r.deep_view() + lines(v@.skip(start as int)),
        decreases v.len() - start,
    {
        let ghost rest = v@.skip(start as int);
        proof {
            lemma_find_from_skip(v@, seq!['\n'], start as int, 0);
        }
        let ghost r0 = r;
        match index_of_from(v, '\n', start) {
            None => {
                let line = vec_range(v, start, v.len());
                assert(line@ =~= rest);
                let ghost l0 = line;
                r.push(line);
                proof {
                    lemma_deep_view_push(r0, r, l0);
                    assert(l0.deep_view() =~= l0@);
                }
                assert(index_of(rest, '\n') is None);
                assert(lines(rest) == seq![rest]);
                start = v.len();
                assert(v@.skip(start as int).len() == 0);
                assert(lines(v@.skip(start as int)) =~= Seq::<Seq<char>>::empty());
                assert(r.deep_view() + lines(v@.skip(start as int)) =~= r0.deep_view() + lines(rest));
            },
            Some(k) => {
                proof {
                    lemma_find_from_spec(v@, seq!['\n'], start as int);
                }
                let mut hi = k;
                if hi > start && v[hi - 1] == '\r' {
                    hi = hi - 1;
                }
                let line = vec_range(v, start, hi);
                assert(rest.take(k - start) =~= v@.subrange(start as int, k as int));
                assert(line@ =~= strip_cr(rest.take(k - start)));
                let ghost l0 = line;
                r.push(line);
                proof {
                    lemma_deep_view_push(r0, r, l0);
                    assert(l0.deep_view() =~= l0@);
                }
                assert(rest.skip(k - start + 1) =~= v@.skip(k + 1));
                assert(index_of(rest, '\n') == Some(k - start));
                assert(lines(rest) == seq![strip_cr(rest.take(k - start))] + lines(rest.skip(k - start + 1)));
                assert(r.deep_view() + lines(v@.skip(k + 1)) =~= r0.deep_view() + lines(rest));
                start = k + 1;
            },
        }
    }
    assert(v@.skip(start as int).len() == 0);
    r
}

/// The digit character for `d` (0 to 9).
pub open spec fn digit_char(d: nat) -> char {
    (d + 48) as char
}

/// The decimal notation of `n`, without leading zeros (what `to_string` gives for an
/// unsigned integer).
pub open spec fn decimal(n: nat) -> Seq<char>
    decreases n,
{
    if n < 10 {
        seq![digit_char(n)]
    } else {
        decimal(n / 10).push(digit_char(n % 10))
    }
}

/// Appends the decimal notation of `n` to `s`.
pub fn push_decimal(s: &mut String, n: u128)
    ensures
        final(s)@ == old(s)@ + decimal(n as nat),
    decreases n,
{
    if n >= 10 {
        push_decimal(s, n / 10);
    }
    let d = (n % 10) as u8;
    let c = (d + 48) as char;
    assert(c == digit_char((n % 10) as nat));
    push_char(s, c);
    proof {
        if n >= 10 {
            assert(decimal(n as nat) == decimal((n / 10) as nat).push(digit_char((n % 10) as nat)));
        }
    }
}

/// The decimal notation of `n`.
pub fn decimal_string(n: u128) -> (r: String)
    ensures
        r@ == decimal(n as nat),
{
    let mut s = String::new();
    push_decimal(&mut s, n);
    s
}

/// `c` is an ASCII digit.
pub open spec fn is_digit(c: char) -> bool {
    '0' <= c && c <= '9'
}

/// The number the digits `d` denote.
pub open spec fn digits_value(d: Seq<char>) -> nat
    decreases d.len(),
{
    if d.len() == 0 {
        0
    } else {
        digits_value(d.drop_last()) * 10 + ((d.last() as nat) - 48) as nat
    }
}

/// Every character of `d` is an ASCII digit.
pub open spec fn all_digits(d: Seq<char>) -> bool {
    forall|i: int| 0 <= i < d.len() ==> is_digit(#[trigger] d[i])
}

/// The digits of an unsigned number: the text after a leading `+`, if there is one and more.
pub open spec fn unsigned_digits(s: Seq<char>) -> Seq<char> {
    if s.len() > 1 && s[0] == '+' {
        s.skip(1)
    } else {
        s
    }
}

/// What `str::parse::<u64>` accepts: an optional `+` and then one or more ASCII digits whose
/// value fits in 64 bits.
pub open spec fn parse_u64_spec(s: Seq<char>) -> Option<u64> {
    let d = unsigned_digits(s);
    if d.len() == 0 || !all_digits(d) || digits_value(d) > u64::MAX {
        None
    } else {
        Some(digits_value(d) as u64)
    }
}

/// Reads an unsigned 64-bit decimal number, as `str::parse::<u64>` does.
pub fn parse_u64(s: &str) -> (r: Option<u64>)
    ensures
        r == parse_u64_spec(s@),
{
    let v = chars_of(s);
    let start: usize = if v.len() > 1 && v[0] == '+' {
        1
    } else {
        0
    };
    let ghost d = v@.skip(start as int);
    if start >= v.len() {
        return None;
    }
    assert(d.len() > 0);
    let mut value: u128 = 0;
    let mut over = false;
    let mut i: usize = start;
    while i < v.len()
        invariant
            start <= i <= v.len(),
            v@ == s@,
            d == v@.skip(start as int),
            d == unsigned_digits(s@),
            forall|j: int| 0 <= j < i - start ==> is_digit(#[trigger] d[j]),
            over == (digits_value(d.take(i - start)) > u64::MAX),
            !over ==> value == digits_value(d.take(i - start)),
        decreases v.len() - i,
    {
        let c = v[i];
        if !('0' <= c && c <= '9') {
            assert(!is_digit(d[i - start]));
            return None;
        }
        assert(d.take(i - start + 1).drop_last() =~= d.take(i - start));
        assert(d.take(i - start + 1).last() == c);
        if !over {
            let digit = (c as u32 - 48) as u128;
            value = value * 10 + digit;
            if value > 0xffff_ffff_ffff_ffff {
                over = true;
            }
        }
        i = i + 1;
    }
    assert(d.take(d.len() as int) =~= d);
    if over {
        None
    } else {
        Some(value as u64)
    }
}

/// The number of bytes UTF-8 takes for `c` (what `char::len_utf8` gives).
pub open spec fn char_utf8_len(c: char) -> nat {
    if (c as u32) < 0x80 {
        1
    } else if (c as u32) < 0x800 {
        2
    } else if (c as u32) < 0x10000 {
        3
    } else {
        4
    }
}

/// The number of bytes UTF-8 takes for `s` (what `str::len` gives).
pub open spec fn utf8_len(s: Seq<char>) -> nat
    decreases s.len(),
{
    if s.len() == 0 {
        0
    } else {
        utf8_len(s.drop_last()) + char_utf8_len(s.last())
    }
}

/// The UTF-8 length of one character.
pub fn char_len_utf8(c: char) -> (r: usize)
    ensures
        r == char_utf8_len(c),
{
    let u = c as u32;
    if u < 0x80 {
        1
    } else if u < 0x800 {
        2
    } else if u < 0x10000 {
        3
    } else {
        4
    }
}

/// The UTF-8 length of a string, in bytes.
pub fn str_utf8_len(s: &str) -> (r: usize)
    requires
        utf8_len(s@) <= usize::MAX,
    ensures
        r == utf8_len(s@),
{
    let v = chars_of(s);
    let mut n: usize = 0;
    let mut i: usize = 0;
    while i < v.len()
        invariant
            i <= v.len(),
            v@ == s@,
            n == utf8_len(v@.take(i as int)),
            utf8_len(s@) <= usize::MAX,
        decreases v.len() - i,
    {
        assert(v@.take(i + 1).drop_last() =~= v@.take(i as int));
        proof {
            lemma_utf8_len_prefix(v@, i + 1);
        }
        n = n + char_len_utf8(v[i]);
        i = i + 1;
    }
    assert(v@.take(i as int) =~= v@);
    n
}

/// Whether `s` takes fewer than `bound` bytes in UTF-8.
pub fn utf8_len_below(s: &str, bound: usize) -> (r: bool)
    ensures
        r == (utf8_len(s@) < bound),
{
    if bound == 0 {
        return false;
    }
    let v = chars_of(s);
    let mut n: usize = 0;
    let mut i: usize = 0;
    while i < v.len()
        invariant
            i <= v.len(),
            v@ == s@,
            n == utf8_len(v@.take(i as int)),
            n < bound,
        decreases v.len() - i,
    {
        assert(v@.take(i + 1).drop_last() =~= v@.take(i as int));
        let c = char_len_utf8(v[i]);
        if c >= bound - n {
            proof {
                lemma_utf8_len_prefix(v@, i + 1);
            }
            return false;
        }
        n = n + c;
        i = i + 1;
    }
    assert(v@.take(i as int) =~= v@);
    true
}

/// A prefix takes no more bytes than the whole.
pub proof fn lemma_utf8_len_prefix(s: Seq<char>, k: int)
    requires
        0 <= k <= s.len(),
    ensures
        utf8_len(s.take(k)) <= utf8_len(s),
    decreases s.len(),
{
    if k < s.len() {
        assert(s.drop_last().take(k) =~= s.take(k));
        lemma_utf8_len_prefix(s.drop_last(), k);
    } else {
        assert(s.take(k) =~= s);
    }
}

/// `s` with every leading repetition of the non-empty `p` removed
/// (what `str::trim_start_matches` gives for a string pattern).
pub open spec fn strip_all_prefix(s: Seq<char>, p: Seq<char>) -> Seq<char>
    decreases s.len(),
{
    if p.len() > 0 && has_prefix(s, p) {
        strip_all_prefix(s.skip(p.len() as int), p)
    } else {
        s
    }
}

/// Removes every leading repetition of the non-empty `p` from `s`.
pub fn str_strip_all_prefix(s: &str, p: &str) -> (r: String)
    requires
        p@.len() > 0,
    ensures
        r@ == strip_all_prefix(s@, p@),
{
    let v = chars_of(s);
    let pv = chars_of(p);
    let mut i: usize = 0;
    assert(v@.skip(0) =~= v@);
    while pv.len() <= v.len() - i && range_eq(&v, i, i + pv.len(), &pv, 0, pv.len())
        invariant
            i <= v.len(),
            pv@ == p@,
            p@.len() > 0,
            strip_all_prefix(s@, p@) == strip_all_prefix(v@.skip(i as int), p@),
            v@ == s@,
        decreases v.len() - i,
    {
        proof {
            assert(v@.skip(i as int).take(pv@.len() as int) =~= v@.subrange(i as int, i + pv@.len()));
            assert(pv@.subrange(0, pv@.len() as int) =~= pv@);
            assert(v@.skip(i as int).skip(pv@.len() as int) =~= v@.skip(i + pv@.len()));
        }
        i = i + pv.len();
    }
    proof {
        if i + pv@.len() <= v@.len() {
            assert(v@.skip(i as int).take(pv@.len() as int) =~= v@.subrange(i as int, i + pv@.len()));
            assert(pv@.subrange(0, pv@.len() as int) =~= pv@);
        }
    }
    let r = string_of_range(&v, i, v.len());
    assert(v@.subrange(i as int, v@.len() as int) =~= v@.skip(i as int));
    r
}

/// `p` is a byte position of `s` at which a character starts (or its end).
pub open spec fn is_char_boundary_at(s: Seq<char>, p: nat) -> bool {
    exists|k: int| 0 <= k <= s.len() && #[trigger] utf8_len(s.take(k)) == p
}

/// Two prefixes with the same UTF-8 length have the same number of characters.
pub proof fn lemma_utf8_len_prefix_unique(s: Seq<char>, a: int, b: int)
    requires
        0 <= a < b <= s.len(),
    ensures
        utf8_len(s.take(a)) < utf8_len(s.take(b)),
    decreases b - a,
{
    assert(s.take(b).drop_last() =~= s.take(b - 1));
    if a < b - 1 {
        lemma_utf8_len_prefix_unique(s, a, b - 1);
    }
}

/// Whether `k` is among the strings `ks`.
pub fn strings_contain(ks: &Vec<String>, k: &str) -> (r: bool)
    ensures
        r == ks.deep_view().contains(k@),
{
    let mut i: usize = 0;
    while i < ks.len()
        invariant
            i <= ks.len(),
            forall|j: int| 0 <= j < i ==> ks.deep_view()[j] != k@,
        decreases ks.len() - i,
    {
        if str_eq(ks[i].as_str(), k) {
            assert(ks.deep_view()[i as int] == k@);
            return true;
        }
        i = i + 1;
    }
    false
}

/// The UTF-8 length of `v[lo..hi]`, in bytes.
pub fn str_utf8_len_of_range(v: &Vec<char>, lo: usize, hi: usize) -> (r: usize)
    requires
        lo <= hi <= v.len(),
        utf8_len(v@.subrange(lo as int, hi as int)) <= usize::MAX,
    ensures
        r == utf8_len(v@.subrange(lo as int, hi as int)),
{
    let ghost s = v@.subrange(lo as int, hi as int);
    let mut n: usize = 0;
    let mut i: usize = lo;
    while i < hi
        invariant
            lo <= i <= hi <= v.len(),
            s == v@.subrange(lo as int, hi as int),
            n == utf8_len(s.take(i - lo)),
            utf8_len(s) <= usize::MAX,
        decreases hi - i,
    {
        assert(s.take(i - lo + 1).drop_last() =~= s.take(i - lo));
        assert(s.take(i - lo + 1).last() == v@[i as int]);
        proof {
            lemma_utf8_len_prefix(s, i - lo + 1);
        }
        n = n + char_len_utf8(v[i]);
        i = i + 1;
    }
    assert(s.take(i - lo) =~= s);
    n
}

/// Whether `a` comes before `b` character by character (the order `str`'s `cmp` gives,
/// since UTF-8 keeps the order of code points).
pub open spec fn str_before(a: Seq<char>, b: Seq<char>) -> bool
    decreases a.len(),
{
    if b.len() == 0 {
        false
    } else if a.len() == 0 {
        true
    } else if a[0] != b[0] {
        a[0] < b[0]
    } else {
        str_before(a.drop_first(), b.drop_first())
    }
}

/// Whether `a` comes before `b` character by character.
pub fn str_less(a: &str, b: &str) -> (r: bool)
    ensures
        r == str_before(a@, b@),
{
    let x = chars_of(a);
    let y = chars_of(b);
    let mut i: usize = 0;
    assert(x@.skip(0) =~= x@);
    assert(y@.skip(0) =~= y@);
    while i < x.len() && i < y.len()
        invariant
            i <= x.len(),
            i <= y.len(),
            x@ == a@,
            y@ == b@,
            x@.take(i as int) == y@.take(i as int),
            str_before(a@, b@) == str_before(x@.skip(i as int), y@.skip(i as int)),
        decreases x.len() - i,
    {
        let ghost xs = x@.skip(i as int);
        let ghost ys = y@.skip(i as int);
        assert(xs[0] == x@[i as int]);
        assert(ys[0] == y@[i as int]);
        if x[i] != y[i] {
            return x[i] < y[i];
        }
        assert(xs.drop_first() =~= x@.skip(i + 1));
        assert(ys.drop_first() =~= y@.skip(i + 1));
        assert(x@.take(i + 1) =~= x@.take(i as int).push(x@[i as int]));
        assert(y@.take(i + 1) =~= y@.take(i as int).push(y@[i as int]));
        i = i + 1;
    }
    i < y.len()
}

} // verus!
