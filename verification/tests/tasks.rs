use mpu6050_async_driver::xtask::{
    first_step, next_step, parse_task, steps, RunDecision, Step, StepKind, Task,
};

fn words(plan: &[Step]) -> Vec<(StepKind, Vec<&'static str>)> {
    plan.iter().map(|s| (s.kind, s.words.clone())).collect()
}

#[test]
fn task_names() {
    assert_eq!(parse_task("help"), Some(Task::Help));
    assert_eq!(parse_task("fmt"), Some(Task::Fmt));
    assert_eq!(parse_task("check"), Some(Task::Check));
    assert_eq!(parse_task("ci"), Some(Task::Ci));
    assert_eq!(parse_task("clean"), Some(Task::Clean));
    assert_eq!(parse_task("size"), Some(Task::Size));
    assert_eq!(parse_task("esp-build"), Some(Task::EspBuild));
    assert_eq!(parse_task("esp-run"), Some(Task::EspRun));
    assert_eq!(parse_task("esp-monitor"), Some(Task::EspMonitor));
    assert_eq!(parse_task("build"), None);
    assert_eq!(parse_task(""), None);
    assert_eq!(parse_task("Help"), None);
}

#[test]
fn check_plan() {
    assert_eq!(
        words(&steps(Task::Check)),
        vec![
            (StepKind::Run, vec!["cargo", "fmt", "--all", "--", "--check"]),
            (StepKind::Run, vec!["cargo", "check", "--workspace"]),
            (StepKind::Run, vec!["cargo", "test", "-p", "driver-core"]),
            (
                StepKind::Run,
                vec!["cargo", "clippy", "--workspace", "--all-targets", "--", "-D", "warnings"]
            ),
        ]
    );
}

#[test]
fn ci_plan_ends_with_firmware_build() {
    let plan = words(&steps(Task::Ci));
    assert_eq!(plan.len(), 5);
    assert_eq!(plan[0], (StepKind::Run, vec!["cargo", "fmt", "--all"]));
    assert_eq!(plan[4], (StepKind::Esp, vec!["cargo +esp build --release --bin app-esp32"]));
}

#[test]
fn clean_and_size_plans() {
    assert_eq!(
        words(&steps(Task::Clean)),
        vec![(StepKind::Run, vec!["cargo", "clean"]), (StepKind::RemoveDir, vec!["app-esp32/target"])]
    );
    assert_eq!(
        words(&steps(Task::Size)),
        vec![(StepKind::Run, vec!["du", "-sh", "--exclude=target", "--exclude=app-esp32/target", "."])]
    );
}

#[test]
fn esp_and_help_plans() {
    assert_eq!(words(&steps(Task::EspRun)), vec![(StepKind::Esp, vec!["cargo +esp run --release --bin app-esp32"])]);
    assert_eq!(words(&steps(Task::EspMonitor)), vec![(StepKind::Esp, vec!["espflash monitor"])]);
    assert_eq!(words(&steps(Task::Help)), vec![(StepKind::PrintHelp, vec![])]);
    assert_eq!(words(&steps(Task::Fmt)), vec![(StepKind::Run, vec!["cargo", "fmt", "--all"])]);
}

/// Runs a plan of `outcomes.len()` steps with canned outcomes; returns the
/// indices performed and the result.
fn drive(outcomes: &[Result<(), &'static str>]) -> (Vec<usize>, Result<(), &'static str>) {
    let mut done = Vec::new();
    let mut decision = first_step(outcomes.len());
    loop {
        match decision {
            RunDecision::Perform(i) => {
                done.push(i);
                decision = next_step(outcomes.len(), i, outcomes[i]);
            }
            RunDecision::Done(r) => return (done, r),
        }
    }
}

#[test]
fn runner_performs_all_steps_on_success() {
    assert_eq!(drive(&[Ok(()), Ok(()), Ok(()), Ok(())]), (vec![0, 1, 2, 3], Ok(())));
}

#[test]
fn runner_stops_at_first_failure() {
    assert_eq!(drive(&[Ok(()), Err("clippy"), Ok(()), Err("late")]), (vec![0, 1], Err("clippy")));
    assert_eq!(drive(&[Err("fmt")]), (vec![0], Err("fmt")));
}

#[test]
fn runner_empty_plan_succeeds() {
    assert_eq!(drive(&[]), (vec![], Ok(())));
    assert_eq!(next_step::<&str>(3, 2, Ok(())), RunDecision::Done(Ok(())));
    assert_eq!(next_step::<&str>(3, 0, Ok(())), RunDecision::Perform(1));
}
