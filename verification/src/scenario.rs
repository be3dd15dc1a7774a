//! Scenario planning: which steps of a scenario run, which are refused and which are skipped.
use vstd::prelude::*;

use crate::models::Response;
use crate::text::{decimal, decimal_string, push_str};

verus! {

/// One step of a scenario: a request of the collection, a pause, and whether a failure skips
/// the steps after it.
#[derive(Debug, Clone, PartialEq, Eq, Structural)]
pub struct ScenarioStep {
    pub request_index: usize,
    pub delay_ms: u64,
    pub skip_on_fail: bool,
}

impl Default for ScenarioStep {
    fn default() -> (r: Self)
        ensures
            r == (ScenarioStep { request_index: 0, delay_ms: 0, skip_on_fail: false }),
    {
        ScenarioStep { request_index: 0, delay_ms: 0, skip_on_fail: false }
    }
}

/// The outcome planned or recorded for one step.
#[derive(Debug)]
pub struct StepResult {
    pub step_index: usize,
    pub request_index: usize,
    pub response: Option<Response>,
    pub skipped: bool,
    pub error: Option<String>,
}

/// What the plan says of one step: its index, its request, whether it is skipped, and the
/// error that refuses it, if any.
pub struct PlannedStep {
    pub step_index: nat,
    pub request_index: nat,
    pub skipped: bool,
    pub error: Option<Seq<char>>,
}

/// The error of a step whose request index is beyond the collection.
pub open spec fn out_of_range_message(index: nat, total: nat) -> Seq<char> {
    "request_index "@ + decimal(index) + " out of range (total: "@ + decimal(total) + ")"@
}

/// The plan of `steps[i..]`: once a step with `skip_on_fail` has been refused every later
/// step is skipped; a step whose request index is not below `total` is refused; the others
/// run.
pub open spec fn plan_from(steps: Seq<ScenarioStep>, total: nat, i: int, skipping: bool) -> Seq<
    PlannedStep,
>
    decreases steps.len() - i,
{
    if i < 0 || i >= steps.len() {
        Seq::empty()
    } else {
        let s = steps[i];
        if skipping {
            seq![
                PlannedStep {
                    step_index: i as nat,
                    request_index: s.request_index as nat,
                    skipped: true,
                    error: None,
                },
            ] + plan_from(steps, total, i + 1, true)
        } else if s.request_index >= total {
            seq![
                PlannedStep {
                    step_index: i as nat,
                    request_index: s.request_index as nat,
                    skipped: false,
                    error: Some(out_of_range_message(s.request_index as nat, total)),
                },
            ] + plan_from(steps, total, i + 1, s.skip_on_fail)
        } else {
            seq![
                PlannedStep {
                    step_index: i as nat,
                    request_index: s.request_index as nat,
                    skipped: false,
                    error: None,
                },
            ] + plan_from(steps, total, i + 1, false)
        }
    }
}

/// What a recorded result says, in the terms of a plan.
pub open spec fn planned_view(r: StepResult) -> PlannedStep {
    PlannedStep {
        step_index: r.step_index as nat,
        request_index: r.request_index as nat,
        skipped: r.skipped,
        error: crate::models::opt_view(r.error),
    }
}

/// Plans a scenario over a collection of `total_requests` requests; no step has a response yet.
pub fn plan_scenario(steps: &[ScenarioStep], total_requests: usize) -> (r: Vec<StepResult>)
    ensures
        r@.map_values(|x: StepResult| planned_view(x)) == plan_from(
            steps@,
            total_requests as nat,
            0,
            false,
        ),
        forall|j: int| 0 <= j < r@.len() ==> (#[trigger] r@[j]).response is None,
{
    let mut results: Vec<StepResult> = Vec::new();
    let mut should_skip = false;
    let mut i: usize = 0;
    while i < steps.len()
        invariant
            i <= steps.len(),
            results@.len() == i,
            plan_from(steps@, total_requests as nat, 0, false) == results@.map_values(
                |x: StepResult| planned_view(x),
            ) + plan_from(steps@, total_requests as nat, i as int, should_skip),
            forall|j: int| 0 <= j < results@.len() ==> (#[trigger] results@[j]).response is None,
        decreases steps.len() - i,
    {
        let step = &steps[i];
        let ghost before = results@;
        if should_skip {
            results.push(
                StepResult {
                    step_index: i,
                    request_index: step.request_index,
                    response: None,
                    skipped: true,
                    error: None,
                },
            );
        } else if step.request_index >= total_requests {
            let mut msg = crate::text::copy_str("request_index ");
            push_str(&mut msg, decimal_string(step.request_index as u128).as_str());
            push_str(&mut msg, " out of range (total: ");
            push_str(&mut msg, decimal_string(total_requests as u128).as_str());
            push_str(&mut msg, ")");
            results.push(
                StepResult {
                    step_index: i,
                    request_index: step.request_index,
                    response: None,
                    skipped: false,
                    error: Some(msg),
                },
            );
            if step.skip_on_fail {
                should_skip = true;
            }
        } else {
            results.push(
                StepResult {
                    step_index: i,
                    request_index: step.request_index,
                    response: None,
                    skipped: false,
                    error: None,
                },
            );
        }
        assert(results@.map_values(|x: StepResult| planned_view(x)) =~= before.map_values(
            |x: StepResult| planned_view(x),
        ).push(planned_view(results@[i as int])));
        i = i + 1;
    }
    results
}

/// The shape of the plan of `steps[i..]`, step by step.
proof fn lemma_plan_from(steps: Seq<ScenarioStep>, total: nat, i: int, skipping: bool)
    requires
        0 <= i <= steps.len(),
    ensures
        ({
            let p = plan_from(steps, total, i, skipping);
            &&& p.len() == steps.len() - i
            &&& forall|k: int| 0 <= k < p.len() ==> (#[trigger] p[k]).step_index == i + k
                && p[k].request_index == steps[i + k].request_index
            &&& forall|k: int| 0 <= k < p.len() && (#[trigger] p[k]).skipped ==> p[k].error is None
            &&& forall|k: int| 0 <= k < p.len() && !(#[trigger] p[k]).skipped ==> (p[k].error is Some
                <==> steps[i + k].request_index >= total)
            &&& skipping ==> forall|k: int| 0 <= k < p.len() ==> (#[trigger] p[k]).skipped
            &&& forall|a: int, b: int|
                0 <= a < b < p.len() && (#[trigger] p[a]).error is Some && steps[i + a].skip_on_fail
                    ==> (#[trigger] p[b]).skipped
        }),
    decreases steps.len() - i,
{
    if i < steps.len() {
        let st = steps[i];
        let next = if skipping {
            true
        } else if st.request_index >= total {
            st.skip_on_fail
        } else {
            false
        };
        lemma_plan_from(steps, total, i + 1, next);
        let p = plan_from(steps, total, i, skipping);
        let rest = plan_from(steps, total, i + 1, next);
        assert(p.drop_first() =~= rest);
        assert forall|k: int| 0 < k < p.len() implies p[k] == rest[k - 1] by {}
    } else {
        assert(plan_from(steps, total, i, skipping) =~= Seq::<PlannedStep>::empty());
    }
}

/// A scenario's plan has one entry per step, in order, naming the step's request; a step runs
/// unless it is skipped or its request index is out of range, which is its only error; a
/// skipped step has no error; and once a step marked to skip on failure is refused, every
/// later step is skipped.
pub proof fn law_scenario_plan(steps: Seq<ScenarioStep>, total: nat)
    ensures
        ({
            let p = plan_from(steps, total, 0, false);
            &&& p.len() == steps.len()
            &&& forall|k: int| 0 <= k < p.len() ==> (#[trigger] p[k]).step_index == k
                && p[k].request_index == steps[k].request_index
            &&& forall|k: int| 0 <= k < p.len() && (#[trigger] p[k]).skipped ==> p[k].error is None
            &&& forall|k: int| 0 <= k < p.len() && !(#[trigger] p[k]).skipped ==> (p[k].error is Some
                <==> steps[k].request_index >= total)
            &&& forall|a: int, b: int|
                0 <= a < b < p.len() && (#[trigger] p[a]).error is Some && steps[a].skip_on_fail
                    ==> (#[trigger] p[b]).skipped
        }),
{
    lemma_plan_from(steps, total, 0, false);
}

} // verus!
