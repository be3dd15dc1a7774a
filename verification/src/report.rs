//! Test reports: how many tests of a run passed and failed, and how long they took.
use vstd::prelude::*;
use crate::text::{decimal, decimal_string, push_char, push_str};

verus! {

/// The outcome of one test.
#[derive(Debug, Clone, PartialEq)]
pub struct TestResult {
    pub name: String,
    pub passed: bool,
    pub duration_ms: u64,
    pub error_message: Option<String>,
}

/// How many of `rs` passed.
pub open spec fn count_passed(rs: Seq<TestResult>) -> nat
    decreases rs.len(),
{
    if rs.len() == 0 {
        0
    } else {
        count_passed(rs.drop_last()) + if rs.last().passed {
            1nat
        } else {
            0nat
        }
    }
}

/// The total duration of `rs` in milliseconds.
pub open spec fn total_duration(rs: Seq<TestResult>) -> nat
    decreases rs.len(),
{
    if rs.len() == 0 {
        0
    } else {
        total_duration(rs.drop_last()) + rs.last().duration_ms as nat
    }
}

/// The counts of a report: tests run, passed, failed, and the summed duration.
#[derive(Debug, Clone, Copy, PartialEq, Eq, Structural)]
pub struct ReportCounts {
    pub total: usize,
    pub passed: usize,
    pub failed: usize,
    pub duration_ms: u64,
}

/// The passed count never exceeds the number of results.
proof fn lemma_count_passed_bound(rs: Seq<TestResult>)
    ensures
        count_passed(rs) <= rs.len(),
    decreases rs.len(),
{
    if rs.len() > 0 {
        lemma_count_passed_bound(rs.drop_last());
    }
}

/// Counts the results of a run; the durations must add up within `u64`.
pub fn report_counts(results: &[TestResult]) -> (r: ReportCounts)
    requires
        total_duration(results@) <= u64::MAX,
    ensures
        r.total == results@.len(),
        r.passed == count_passed(results@),
        r.failed == results@.len() - count_passed(results@),
        r.duration_ms == total_duration(results@),
{
    let mut passed: usize = 0;
    let mut duration: u64 = 0;
    let mut i: usize = 0;
    while i < results.len()
        invariant
            i <= results.len(),
            passed == count_passed(results@.take(i as int)),
            duration == total_duration(results@.take(i as int)),
            total_duration(results@) <= u64::MAX,
        decreases results.len() - i,
    {
        proof {
            assert(results@.take(i + 1).drop_last() =~= results@.take(i as int));
            lemma_count_passed_bound(results@.take(i as int));
            lemma_total_duration_prefix(results@, i + 1);
        }
        if results[i].passed {
            passed = passed + 1;
        }
        duration = duration + results[i].duration_ms;
        i = i + 1;
    }
    assert(results@.take(results@.len() as int) =~= results@);
    proof {
        lemma_count_passed_bound(results@);
    }
    ReportCounts { total: results.len(), passed, failed: results.len() - passed, duration_ms: duration }
}

/// The duration of a prefix is at most the duration of the whole.
proof fn lemma_total_duration_prefix(rs: Seq<TestResult>, n: int)
    requires
        0 <= n <= rs.len(),
    ensures
        total_duration(rs.take(n)) <= total_duration(rs),
    decreases rs.len(),
{
    if n < rs.len() {
        assert(rs.drop_last().take(n) =~= rs.take(n));
        lemma_total_duration_prefix(rs.drop_last(), n);
    } else {
        assert(rs.take(n) =~= rs);
    }
}

/// The rule under a report's title: forty dashes.
pub open spec fn report_rule() -> Seq<char> {
    Seq::new(40, |i: int| '-')
}

/// The lines of a formatted report that hold its counts: the title, the rule, then the total,
/// the passed and failed counts and the duration, each on a line of its own.
pub open spec fn counts_text(c: ReportCounts) -> Seq<char> {
    "Test Report\n"@ + report_rule() + "\n"@ + "Total:    "@ + decimal(c.total as nat) + "\n"@
        + "Passed:   "@ + decimal(c.passed as nat) + "\n"@ + "Failed:   "@ + decimal(c.failed as nat)
        + "\n"@ + "Duration: "@ + decimal(c.duration_ms as nat) + "ms\n"@
}

/// Formats the counts of a report, as the terminal shows them above the pass rate.
pub fn format_counts(c: &ReportCounts) -> (r: String)
    ensures
        r@ == counts_text(*c),
{
    let mut out = String::new();
    push_str(&mut out, "Test Report\n");
    let ghost head = out@;
    let mut i: usize = 0;
    while i < 40
        invariant
            i <= 40,
            out@ == head + Seq::new(i as nat, |k: int| '-'),
        decreases 40 - i,
    {
        push_char(&mut out, '-');
        assert(Seq::new((i + 1) as nat, |k: int| '-') =~= Seq::new(i as nat, |k: int| '-').push('-'));
        i = i + 1;
    }
    push_str(&mut out, "\nTotal:    ");
    let t = decimal_string(c.total as u128);
    push_str(&mut out, t.as_str());
    push_str(&mut out, "\nPassed:   ");
    let p = decimal_string(c.passed as u128);
    push_str(&mut out, p.as_str());
    push_str(&mut out, "\nFailed:   ");
    let f = decimal_string(c.failed as u128);
    push_str(&mut out, f.as_str());
    push_str(&mut out, "\nDuration: ");
    let d = decimal_string(c.duration_ms as u128);
    push_str(&mut out, d.as_str());
    push_str(&mut out, "ms\n");
    proof {
        reveal_strlit("Test Report\n");
        reveal_strlit("\nTotal:    ");
        reveal_strlit("\nPassed:   ");
        reveal_strlit("\nFailed:   ");
        reveal_strlit("\nDuration: ");
        reveal_strlit("ms\n");
        reveal_strlit("\n");
        reveal_strlit("Total:    ");
        reveal_strlit("Passed:   ");
        reveal_strlit("Failed:   ");
        reveal_strlit("Duration: ");
        assert(Seq::new(40nat, |k: int| '-') =~= report_rule());
        assert(out@ =~= counts_text(*c));
    }
    out
}

} // verus!
