use helios::scenario::{plan_scenario, ScenarioStep};

#[test]
fn test_scenario_step_default() {
    let step = ScenarioStep::default();
    assert_eq!(step.request_index, 0);
    assert_eq!(step.delay_ms, 0);
    assert!(!step.skip_on_fail);
}

#[test]
fn test_plan_scenario_empty() {
    let results = plan_scenario(&[], 5);
    assert!(results.is_empty());
}

#[test]
fn test_plan_scenario_invalid_index_with_skip() {
    let steps = vec![
        ScenarioStep { request_index: 0, delay_ms: 0, skip_on_fail: false },
        ScenarioStep { request_index: 99, delay_ms: 0, skip_on_fail: true },
        ScenarioStep { request_index: 1, delay_ms: 0, skip_on_fail: false },
    ];
    let results = plan_scenario(&steps, 3);
    assert_eq!(results.len(), 3);
    assert!(!results[0].skipped);
    assert!(results[1].error.is_some());
    assert!(results[2].skipped);
    assert_eq!(results[1].error.as_deref(), Some("request_index 99 out of range (total: 3)"));
}

#[test]
fn test_plan_scenario_error_without_skip_continues() {
    let steps = vec![
        ScenarioStep { request_index: 5, delay_ms: 0, skip_on_fail: false },
        ScenarioStep { request_index: 0, delay_ms: 0, skip_on_fail: false },
    ];
    let results = plan_scenario(&steps, 1);
    assert!(results[0].error.is_some());
    assert!(!results[1].skipped);
    assert!(results[1].error.is_none());
    assert_eq!(results[1].step_index, 1);
}

#[test]
fn plan_has_one_entry_per_step_and_skips_after_refusal() {
    let step = |request_index: usize, skip_on_fail: bool| ScenarioStep { request_index, delay_ms: 0, skip_on_fail };
    let plan = plan_scenario(&[step(0, false), step(7, false), step(1, false), step(9, true), step(0, false), step(5, false)], 2);
    assert_eq!(plan.len(), 6);
    for (i, r) in plan.iter().enumerate() {
        assert_eq!(r.step_index, i);
        assert!(r.response.is_none());
    }
    assert_eq!(plan[1].error.as_deref(), Some("request_index 7 out of range (total: 2)"));
    assert!(!plan[2].skipped && plan[2].error.is_none());
    assert!(plan[3].error.is_some());
    assert!(plan[4].skipped && plan[4].error.is_none());
    assert!(plan[5].skipped && plan[5].error.is_none());
}
