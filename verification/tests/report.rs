use helios::report::{format_counts, report_counts, TestResult};

fn r(name: &str, passed: bool, ms: u64) -> TestResult {
    TestResult {
        name: name.into(),
        passed,
        duration_ms: ms,
        error_message: if passed { None } else { Some("err".into()) },
    }
}

#[test]
fn test_report_counts() {
    let c = report_counts(&[r("A", true, 100), r("B", false, 200), r("C", true, 150)]);
    assert_eq!(c.total, 3);
    assert_eq!(c.passed, 2);
    assert_eq!(c.failed, 1);
    assert_eq!(c.duration_ms, 450);
}

#[test]
fn test_report_counts_empty() {
    let c = report_counts(&[]);
    assert_eq!((c.total, c.passed, c.failed, c.duration_ms), (0, 0, 0, 0));
}

#[test]
fn test_report_counts_all() {
    let c = report_counts(&[r("A", true, 100), r("B", false, 200), r("C", true, 150)]);
    assert_eq!(c.total, 3);
}

#[test]
fn test_report_passed_failed() {
    let c = report_counts(&[r("A", true, 100), r("B", false, 200)]);
    assert_eq!(c.passed, 1);
    assert_eq!(c.failed, 1);
}

#[test]
fn test_report_duration() {
    let c = report_counts(&[r("A", true, 100), r("B", true, 250)]);
    assert_eq!(c.duration_ms, 350);
}

#[test]
fn test_format_report() {
    let c = report_counts(&[r("A", true, 100)]);
    let formatted = format_counts(&c);
    assert!(formatted.contains("Test Report"));
    assert!(formatted.contains("Passed:   1"));
}

#[test]
fn format_counts_exact_text() {
    let c = report_counts(&[r("A", true, 100), r("B", false, 20)]);
    let expected = format!(
        "Test Report\n{}\nTotal:    2\nPassed:   1\nFailed:   1\nDuration: 120ms\n",
        "-".repeat(40)
    );
    assert_eq!(format_counts(&c), expected);
}
