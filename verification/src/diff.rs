//! Line-level text diff by longest common subsequence.
use vstd::prelude::*;

use crate::text::{
    chars_of, lemma_deep_view_push, lines, lines_vec, range_eq, string_of,
};

verus! {

/// One line of a diff.
#[derive(Debug, Clone, PartialEq, Eq)]
pub enum DiffLine {
    /// Line only present in the new (right) string.
    Add(String),
    /// Line only present in the old (left) string.
    Remove(String),
    /// Line present in both strings.
    Equal(String),
}

/// The mathematical content of a `DiffLine`.
pub enum DiffLineView {
    Add(Seq<char>),
    Remove(Seq<char>),
    Equal(Seq<char>),
}

impl View for DiffLine {
    type V = DiffLineView;

    open spec fn view(&self) -> DiffLineView {
        match self {
            DiffLine::Add(s) => DiffLineView::Add(s@),
            DiffLine::Remove(s) => DiffLineView::Remove(s@),
            DiffLine::Equal(s) => DiffLineView::Equal(s@),
        }
    }
}

impl DeepView for DiffLine {
    type V = DiffLineView;

    open spec fn deep_view(&self) -> DiffLineView {
        self@
    }
}

/// Length of a longest common subsequence of `a[..i]` and `b[..j]`, by the usual recurrence.
pub open spec fn lcs_len(a: Seq<Seq<char>>, b: Seq<Seq<char>>, i: nat, j: nat) -> nat
    decreases i + j,
{
    if i == 0 || j == 0 {
        0
    } else if a[i - 1] == b[j - 1] {
        lcs_len(a, b, (i - 1) as nat, (j - 1) as nat) + 1
    } else {
        let up = lcs_len(a, b, (i - 1) as nat, j);
        let left = lcs_len(a, b, i, (j - 1) as nat);
        if up >= left {
            up
        } else {
            left
        }
    }
}

/// The diff of `a[..i]` and `b[..j]`: walking the LCS table back from `(i, j)`,
/// preferring a common line, then an added line when that keeps the table value.
pub open spec fn diff_walk(a: Seq<Seq<char>>, b: Seq<Seq<char>>, i: nat, j: nat) -> Seq<
    DiffLineView,
>
    decreases i + j,
{
    if i == 0 && j == 0 {
        Seq::empty()
    } else if i > 0 && j > 0 && a[i - 1] == b[j - 1] {
        diff_walk(a, b, (i - 1) as nat, (j - 1) as nat).push(DiffLineView::Equal(a[i - 1]))
    } else if j > 0 && (i == 0 || lcs_len(a, b, i, (j - 1) as nat) >= lcs_len(
        a,
        b,
        (i - 1) as nat,
        j,
    )) {
        diff_walk(a, b, i, (j - 1) as nat).push(DiffLineView::Add(b[j - 1]))
    } else {
        diff_walk(a, b, (i - 1) as nat, j).push(DiffLineView::Remove(a[i - 1]))
    }
}

/// The diff of the lines of `a` against the lines of `b`.
pub open spec fn diff_text(a: Seq<char>, b: Seq<char>) -> Seq<DiffLineView> {
    diff_walk(lines(a), lines(b), lines(a).len(), lines(b).len())
}

/// The lines of the old side of a diff: the removed and the common lines, in order.
pub open spec fn old_side(d: Seq<DiffLineView>) -> Seq<Seq<char>>
    decreases d.len(),
{
    if d.len() == 0 {
        Seq::empty()
    } else {
        match d.last() {
            DiffLineView::Add(_) => old_side(d.drop_last()),
            DiffLineView::Remove(x) => old_side(d.drop_last()).push(x),
            DiffLineView::Equal(x) => old_side(d.drop_last()).push(x),
        }
    }
}

/// The lines of the new side of a diff: the added and the common lines, in order.
pub open spec fn new_side(d: Seq<DiffLineView>) -> Seq<Seq<char>>
    decreases d.len(),
{
    if d.len() == 0 {
        Seq::empty()
    } else {
        match d.last() {
            DiffLineView::Remove(_) => new_side(d.drop_last()),
            DiffLineView::Add(x) => new_side(d.drop_last()).push(x),
            DiffLineView::Equal(x) => new_side(d.drop_last()).push(x),
        }
    }
}

/// The number of common lines in a diff.
pub open spec fn equal_count(d: Seq<DiffLineView>) -> nat
    decreases d.len(),
{
    if d.len() == 0 {
        0
    } else {
        match d.last() {
            DiffLineView::Equal(_) => equal_count(d.drop_last()) + 1,
            _ => equal_count(d.drop_last()),
        }
    }
}

/// `lcs_len(a, b, i, j)` is at most `i`.
proof fn lemma_lcs_bound(a: Seq<Seq<char>>, b: Seq<Seq<char>>, i: nat, j: nat)
    ensures
        lcs_len(a, b, i, j) <= i,
        lcs_len(a, b, i, j) <= j,
    decreases i + j,
{
    if i == 0 || j == 0 {
    } else if a[i - 1] == b[j - 1] {
        lemma_lcs_bound(a, b, (i - 1) as nat, (j - 1) as nat);
    } else {
        lemma_lcs_bound(a, b, (i - 1) as nat, j);
        lemma_lcs_bound(a, b, i, (j - 1) as nat);
    }
}

/// The old side of `diff_walk(a, b, i, j)` is `a[..i]` and its new side is `b[..j]`.
proof fn lemma_walk_sides(a: Seq<Seq<char>>, b: Seq<Seq<char>>, i: nat, j: nat)
    requires
        i <= a.len(),
        j <= b.len(),
    ensures
        old_side(diff_walk(a, b, i, j)) == a.take(i as int),
        new_side(diff_walk(a, b, i, j)) == b.take(j as int),
    decreases i + j,
{
    if i == 0 && j == 0 {
        assert(a.take(0) =~= Seq::<Seq<char>>::empty());
        assert(b.take(0) =~= Seq::<Seq<char>>::empty());
    } else if i > 0 && j > 0 && a[i - 1] == b[j - 1] {
        lemma_walk_sides(a, b, (i - 1) as nat, (j - 1) as nat);
        let d = diff_walk(a, b, i, j);
        assert(d.drop_last() == diff_walk(a, b, (i - 1) as nat, (j - 1) as nat));
        assert(a.take(i as int) =~= a.take(i - 1).push(a[i - 1]));
        assert(b.take(j as int) =~= b.take(j - 1).push(b[j - 1]));
    } else if j > 0 && (i == 0 || lcs_len(a, b, i, (j - 1) as nat) >= lcs_len(
        a,
        b,
        (i - 1) as nat,
        j,
    )) {
        lemma_walk_sides(a, b, i, (j - 1) as nat);
        let d = diff_walk(a, b, i, j);
        assert(d.drop_last() == diff_walk(a, b, i, (j - 1) as nat));
        assert(b.take(j as int) =~= b.take(j - 1).push(b[j - 1]));
    } else {
        lemma_walk_sides(a, b, (i - 1) as nat, j);
        let d = diff_walk(a, b, i, j);
        assert(d.drop_last() == diff_walk(a, b, (i - 1) as nat, j));
        assert(a.take(i as int) =~= a.take(i - 1).push(a[i - 1]));
    }
}

/// The number of common lines of `diff_walk(a, b, i, j)` is `lcs_len(a, b, i, j)`.
proof fn lemma_walk_equal_count(a: Seq<Seq<char>>, b: Seq<Seq<char>>, i: nat, j: nat)
    ensures
        equal_count(diff_walk(a, b, i, j)) == lcs_len(a, b, i, j),
    decreases i + j,
{
    if i == 0 && j == 0 {
    } else if i > 0 && j > 0 && a[i - 1] == b[j - 1] {
        lemma_walk_equal_count(a, b, (i - 1) as nat, (j - 1) as nat);
        assert(diff_walk(a, b, i, j).drop_last() == diff_walk(
            a,
            b,
            (i - 1) as nat,
            (j - 1) as nat,
        ));
    } else if j > 0 && (i == 0 || lcs_len(a, b, i, (j - 1) as nat) >= lcs_len(
        a,
        b,
        (i - 1) as nat,
        j,
    )) {
        lemma_walk_equal_count(a, b, i, (j - 1) as nat);
        assert(diff_walk(a, b, i, j).drop_last() == diff_walk(a, b, i, (j - 1) as nat));
    } else {
        lemma_walk_equal_count(a, b, (i - 1) as nat, j);
        assert(diff_walk(a, b, i, j).drop_last() == diff_walk(a, b, (i - 1) as nat, j));
    }
}

/// Diffing `a[..i]` against itself keeps every line, unchanged.
proof fn lemma_walk_identical(a: Seq<Seq<char>>, i: nat)
    requires
        i <= a.len(),
    ensures
        diff_walk(a, a, i, i) == Seq::new(i, |k: int| DiffLineView::Equal(a[k])),
    decreases i,
{
    if i == 0 {
        assert(diff_walk(a, a, 0, 0) =~= Seq::new(0, |k: int| DiffLineView::Equal(a[k])));
    } else {
        lemma_walk_identical(a, (i - 1) as nat);
        assert(diff_walk(a, a, i, i) =~= Seq::new(i, |k: int| DiffLineView::Equal(a[k])));
    }
}

/// A diff describes how to turn the old text into the new one: its removed and common
/// lines are the lines of `a`, and its added and common lines are the lines of `b`.
pub proof fn law_diff_sides(a: Seq<char>, b: Seq<char>)
    ensures
        old_side(diff_text(a, b)) == lines(a),
        new_side(diff_text(a, b)) == lines(b),
{
    lemma_walk_sides(lines(a), lines(b), lines(a).len(), lines(b).len());
    assert(lines(a).take(lines(a).len() as int) =~= lines(a));
    assert(lines(b).take(lines(b).len() as int) =~= lines(b));
}

/// Diffing a text against itself reports every line as common, in order.
pub proof fn law_diff_identical(a: Seq<char>)
    ensures
        diff_text(a, a) == Seq::new(lines(a).len(), |k: int| DiffLineView::Equal(lines(a)[k])),
{
    lemma_walk_identical(lines(a), lines(a).len());
}

/// A diff keeps as many lines common as the LCS table allows.
pub proof fn law_diff_keeps_lcs(a: Seq<char>, b: Seq<char>)
    ensures
        equal_count(diff_text(a, b)) == lcs_len(lines(a), lines(b), lines(a).len(), lines(b).len()),
{
    lemma_walk_equal_count(lines(a), lines(b), lines(a).len(), lines(b).len());
}

/// `a` and `b` hold the same characters.
fn vec_eq(a: &Vec<char>, b: &Vec<char>) -> (r: bool)
    ensures
        r == (a@ == b@),
{
    let r = range_eq(a, 0, a.len(), b, 0, b.len());
    assert(a@.subrange(0, a@.len() as int) == a@);
    assert(b@.subrange(0, b@.len() as int) == b@);
    r
}

/// The LCS table holds `lcs_len` for every cell of the rows it has.
spec fn table_ok(
    dp: Seq<Vec<usize>>,
    a: Seq<Seq<char>>,
    b: Seq<Seq<char>>,
    rows: int,
    n: int,
) -> bool {
    &&& dp.len() == rows
    &&& forall|r: int| 0 <= r < rows ==> (#[trigger] dp[r])@.len() == n + 1
    &&& forall|r: int, c: int|
        0 <= r < rows && 0 <= c <= n ==> #[trigger] dp[r]@[c] == lcs_len(a, b, r as nat, c as nat)
}

/// Computes the longest-common-subsequence table of two lists of lines.
fn compute_lcs(a: &Vec<Vec<char>>, b: &Vec<Vec<char>>) -> (dp: Vec<Vec<usize>>)
    ensures
        table_ok(dp@, a.deep_view(), b.deep_view(), a.len() + 1, b.len() as int),
{
    let ghost av = a.deep_view();
    let ghost bv = b.deep_view();
    let m = a.len();
    let n = b.len();
    let mut dp: Vec<Vec<usize>> = Vec::new();
    let mut row0: Vec<usize> = Vec::new();
    let mut c: usize = 0;
    while c < n
        invariant
            c <= n,
            n == b.len(),
            row0@.len() == c,
            forall|k: int| 0 <= k < c ==> #[trigger] row0@[k] == 0,
        decreases n - c,
    {
        row0.push(0);
        c = c + 1;
    }
    row0.push(0);
    dp.push(row0);
    let mut ii: usize = 0;
    while ii < m
        invariant
            ii <= m,
            m == a.len(),
            n == b.len(),
            av == a.deep_view(),
            bv == b.deep_view(),
            table_ok(dp@, av, bv, ii + 1, n as int),
        decreases m - ii,
    {
        let i = ii + 1;
        let mut row: Vec<usize> = Vec::new();
        row.push(0);
        let mut k: usize = 0;
        while k < n
            invariant
                1 <= i <= m,
                i == ii + 1,
                k <= n,
                m == a.len(),
                n == b.len(),
                av == a.deep_view(),
                bv == b.deep_view(),
                table_ok(dp@, av, bv, i as int, n as int),
                row@.len() == k + 1,
                forall|c: int| 0 <= c <= k ==> #[trigger] row@[c] == lcs_len(av, bv, i as nat, c as nat),
            decreases n - k,
        {
            let j = k + 1;
            let prev = &dp[i - 1];
            proof {
                lemma_lcs_bound(av, bv, (i - 1) as nat, (j - 1) as nat);
                assert(prev@[j - 1] == lcs_len(av, bv, (i - 1) as nat, (j - 1) as nat));
                assert(prev@[j as int] == lcs_len(av, bv, (i - 1) as nat, j as nat));
                assert(a@[i - 1]@ == av[i - 1]);
                assert(b@[j - 1]@ == bv[j - 1]);
            }
            let v = if vec_eq(&a[i - 1], &b[j - 1]) {
                prev[j - 1] + 1
            } else {
                let up = prev[j];
                let left = row[j - 1];
                if up >= left {
                    up
                } else {
                    left
                }
            };
            row.push(v);
            k = k + 1;
        }
        dp.push(row);
        proof {
            assert forall|r: int, c: int| 0 <= r < i + 1 && 0 <= c <= n implies #[trigger] dp@[r]@[c]
                == lcs_len(av, bv, r as nat, c as nat) by {
                if r < i {
                } else {
                }
            }
        }
        ii = ii + 1;
    }
    dp
}

/// Walks the table back from the bottom-right cell and lists the diff lines in order.
fn build_diff(a: &Vec<Vec<char>>, b: &Vec<Vec<char>>, dp: &Vec<Vec<usize>>) -> (r: Vec<DiffLine>)
    requires
        table_ok(dp@, a.deep_view(), b.deep_view(), a.len() + 1, b.len() as int),
    ensures
        r.deep_view() == diff_walk(a.deep_view(), b.deep_view(), a.len() as nat, b.len() as nat),
{
    let ghost av = a.deep_view();
    let ghost bv = b.deep_view();
    let mut rev: Vec<DiffLine> = Vec::new();
    let mut i = a.len();
    let mut j = b.len();
    assert(rev.deep_view().reverse() =~= Seq::<DiffLineView>::empty());
    assert(diff_walk(av, bv, i as nat, j as nat) + Seq::<DiffLineView>::empty() =~= diff_walk(
        av,
        bv,
        i as nat,
        j as nat,
    ));
    while i > 0 || j > 0
        invariant
            i <= a.len(),
            j <= b.len(),
            av == a.deep_view(),
            bv == b.deep_view(),
            table_ok(dp@, av, bv, a.len() + 1, b.len() as int),
            diff_walk(av, bv, a.len() as nat, b.len() as nat) == diff_walk(
                av,
                bv,
                i as nat,
                j as nat,
            ) + rev.deep_view().reverse(),
        decreases i + j,
    {
        let ghost rev0 = rev;
        let ghost tail = rev.deep_view().reverse();
        if i > 0 && j > 0 && vec_eq(&a[i - 1], &b[j - 1]) {
            assert(a@[i - 1]@ == av[i - 1]);
            assert(b@[j - 1]@ == bv[j - 1]);
            let item = DiffLine::Equal(string_of(&a[i - 1]));
            let ghost it = item;
            rev.push(item);
            proof {
                lemma_deep_view_push(rev0, rev, it);
                assert(rev.deep_view().reverse() =~= seq![it@] + tail);
            }
            i = i - 1;
            j = j - 1;
        } else if j > 0 && (i == 0 || dp[i][j - 1] >= dp[i - 1][j]) {
            proof {
                if i > 0 {
                    assert(a@[i - 1]@ == av[i - 1]);
                    assert(b@[j - 1]@ == bv[j - 1]);
                    assert(dp@[i as int]@[j - 1] == lcs_len(av, bv, i as nat, (j - 1) as nat));
                    assert(dp@[i - 1]@[j as int] == lcs_len(av, bv, (i - 1) as nat, j as nat));
                }
            }
            assert(b@[j - 1]@ == bv[j - 1]);
            let item = DiffLine::Add(string_of(&b[j - 1]));
            let ghost it = item;
            rev.push(item);
            proof {
                lemma_deep_view_push(rev0, rev, it);
                assert(rev.deep_view().reverse() =~= seq![it@] + tail);
            }
            j = j - 1;
        } else {
            proof {
                if j > 0 {
                    assert(a@[i - 1]@ == av[i - 1]);
                    assert(b@[j - 1]@ == bv[j - 1]);
                    assert(dp@[i as int]@[j - 1] == lcs_len(av, bv, i as nat, (j - 1) as nat));
                    assert(dp@[i - 1]@[j as int] == lcs_len(av, bv, (i - 1) as nat, j as nat));
                }
            }
            assert(a@[i - 1]@ == av[i - 1]);
            let item = DiffLine::Remove(string_of(&a[i - 1]));
            let ghost it = item;
            rev.push(item);
            proof {
                lemma_deep_view_push(rev0, rev, it);
                assert(rev.deep_view().reverse() =~= seq![it@] + tail);
            }
            i = i - 1;
        }
    }
    let mut r: Vec<DiffLine> = Vec::new();
    let mut k = rev.len();
    while k > 0
        invariant
            k <= rev.len(),
            r.deep_view() == rev.deep_view().reverse().take(rev.len() - k),
        decreases k,
    {
        let ghost r0 = r;
        let item = rev[k - 1].clone_line();
        let ghost it = item;
        r.push(item);
        proof {
            lemma_deep_view_push(r0, r, it);
            assert(rev.deep_view().reverse().take(rev.len() - k + 1) =~= rev.deep_view().reverse().take(
                rev.len() - k,
            ).push(rev.deep_view()[k - 1]));
        }
        k = k - 1;
    }
    assert(rev.deep_view().reverse().take(rev.len() as int) =~= rev.deep_view().reverse());
    assert(diff_walk(av, bv, 0, 0) + rev.deep_view().reverse() =~= rev.deep_view().reverse());
    r
}

impl DiffLine {
    /// A copy of this line.
    pub fn clone_line(&self) -> (r: Self)
        ensures
            r@ == self@,
    {
        match self {
            DiffLine::Add(s) => DiffLine::Add(s.clone()),
            DiffLine::Remove(s) => DiffLine::Remove(s.clone()),
            DiffLine::Equal(s) => DiffLine::Equal(s.clone()),
        }
    }
}

/// Computes a line-level diff between two strings with the LCS algorithm:
/// the lines that describe how to turn `a` into `b`.
pub fn diff_strings(a: &str, b: &str) -> (r: Vec<DiffLine>)
    ensures
        r.deep_view() == diff_text(a@, b@),
{
    let va = chars_of(a);
    let vb = chars_of(b);
    let a_lines = lines_vec(&va);
    let b_lines = lines_vec(&vb);
    let dp = compute_lcs(&a_lines, &b_lines);
    build_diff(&a_lines, &b_lines, &dp)
}

} // verus!
