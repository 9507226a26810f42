//! The maintenance tasks of the repository (formatting, checks, cleaning,
//! firmware builds), as plans of steps. Running a plan performs each step in
//! order and stops at the first one that fails.
use vstd::prelude::*;

use crate::text::str_eq;

verus! {

/// A maintenance task, chosen by the first command-line argument.
#[derive(Copy, Clone, Debug, PartialEq, Eq, Structural)]
pub enum Task {
    Help,
    Fmt,
    Check,
    Ci,
    Clean,
    Size,
    EspBuild,
    EspRun,
    EspMonitor,
}

/// The task named `command`, if any.
pub open spec fn task_named(command: Seq<char>) -> Option<Task> {
    if command == "help"@ {
        Some(Task::Help)
    } else if command == "fmt"@ {
        Some(Task::Fmt)
    } else if command == "check"@ {
        Some(Task::Check)
    } else if command == "ci"@ {
        Some(Task::Ci)
    } else if command == "clean"@ {
        Some(Task::Clean)
    } else if command == "size"@ {
        Some(Task::Size)
    } else if command == "esp-build"@ {
        Some(Task::EspBuild)
    } else if command == "esp-run"@ {
        Some(Task::EspRun)
    } else if command == "esp-monitor"@ {
        Some(Task::EspMonitor)
    } else {
        None
    }
}

/// Looks up the task named `command`; an unknown name is refused.
pub fn parse_task(command: &str) -> (r: Option<Task>)
    ensures
        r == task_named(command@),
{
    if str_eq(command, "help") {
        Some(Task::Help)
    } else if str_eq(command, "fmt") {
        Some(Task::Fmt)
    } else if str_eq(command, "check") {
        Some(Task::Check)
    } else if str_eq(command, "ci") {
        Some(Task::Ci)
    } else if str_eq(command, "clean") {
        Some(Task::Clean)
    } else if str_eq(command, "size") {
        Some(Task::Size)
    } else if str_eq(command, "esp-build") {
        Some(Task::EspBuild)
    } else if str_eq(command, "esp-run") {
        Some(Task::EspRun)
    } else if str_eq(command, "esp-monitor") {
        Some(Task::EspMonitor)
    } else {
        None
    }
}

/// What a step does.
#[derive(Copy, Clone, Debug, PartialEq, Eq, Structural)]
pub enum StepKind {
    /// Print the list of tasks.
    PrintHelp,
    /// Run a program: the first word is the program, the rest its arguments.
    Run,
    /// Remove a directory tree if it exists: the one word is its path.
    RemoveDir,
    /// Run a command inside the ESP toolchain environment, in the firmware
    /// directory, which must exist: the one word is the command line.
    Esp,
}

/// One step of a plan.
#[derive(Clone, Debug, PartialEq, Eq)]
pub struct Step {
    pub kind: StepKind,
    pub words: Vec<&'static str>,
}

impl View for Step {
    type V = (StepKind, Seq<Seq<char>>);

    open spec fn view(&self) -> (StepKind, Seq<Seq<char>>) {
        (self.kind, self.words@.map_values(|w: &'static str| w@))
    }
}

/// The words of a step, as character sequences.
pub open spec fn words(ws: Seq<&'static str>) -> Seq<Seq<char>> {
    ws.map_values(|w: &'static str| w@)
}

/// `cargo fmt --all -- --check`, `cargo check --workspace`,
/// `cargo test -p driver-core`, then clippy with warnings denied.
pub open spec fn check_plan() -> Seq<(StepKind, Seq<Seq<char>>)> {
    seq![
        (StepKind::Run, seq!["cargo"@, "fmt"@, "--all"@, "--"@, "--check"@]),
        (StepKind::Run, seq!["cargo"@, "check"@, "--workspace"@]),
        (StepKind::Run, seq!["cargo"@, "test"@, "-p"@, "driver-core"@]),
        (StepKind::Run, clippy_words()),
    ]
}

/// `cargo clippy --workspace --all-targets -- -D warnings`.
pub open spec fn clippy_words() -> Seq<Seq<char>> {
    seq!["cargo"@, "clippy"@, "--workspace"@, "--all-targets"@, "--"@, "-D"@, "warnings"@]
}

/// The steps of each task.
pub open spec fn plan(task: Task) -> Seq<(StepKind, Seq<Seq<char>>)> {
    match task {
        Task::Help => seq![(StepKind::PrintHelp, Seq::empty())],
        Task::Fmt => seq![(StepKind::Run, seq!["cargo"@, "fmt"@, "--all"@])],
        Task::Check => check_plan(),
        Task::Ci => seq![
            (StepKind::Run, seq!["cargo"@, "fmt"@, "--all"@]),
            (StepKind::Run, seq!["cargo"@, "check"@, "--workspace"@]),
            (StepKind::Run, seq!["cargo"@, "test"@, "-p"@, "driver-core"@]),
            (StepKind::Run, clippy_words()),
            (StepKind::Esp, seq!["cargo +esp build --release --bin app-esp32"@]),
        ],
        Task::Clean => seq![
            (StepKind::Run, seq!["cargo"@, "clean"@]),
            (StepKind::RemoveDir, seq!["app-esp32/target"@]),
        ],
        Task::Size => seq![
            (
                StepKind::Run,
                seq!["du"@, "-sh"@, "--exclude=target"@, "--exclude=app-esp32/target"@, "."@],
            ),
        ],
        Task::EspBuild => seq![(StepKind::Esp, seq!["cargo +esp build --release --bin app-esp32"@])],
        Task::EspRun => seq![(StepKind::Esp, seq!["cargo +esp run --release --bin app-esp32"@])],
        Task::EspMonitor => seq![(StepKind::Esp, seq!["espflash monitor"@])],
    }
}

/// The views of a sequence of steps.
pub open spec fn plan_view(steps: Seq<Step>) -> Seq<(StepKind, Seq<Seq<char>>)> {
    steps.map_values(|s: Step| s@)
}

/// A step that runs `words`.
fn step(kind: StepKind, ws: Vec<&'static str>) -> (r: Step)
    ensures
        r@ == (kind, words(ws@)),
{
    Step { kind, words: ws }
}

/// The plan of `task`.
pub fn steps(task: Task) -> (r: Vec<Step>)
    ensures
        plan_view(r@) == plan(task),
{
    let r = match task {
        Task::Help => vec![step(StepKind::PrintHelp, Vec::new())],
        Task::Fmt => vec![step(StepKind::Run, vec!["cargo", "fmt", "--all"])],
        Task::Check => vec![
            step(StepKind::Run, vec!["cargo", "fmt", "--all", "--", "--check"]),
            step(StepKind::Run, vec!["cargo", "check", "--workspace"]),
            step(StepKind::Run, vec!["cargo", "test", "-p", "driver-core"]),
            step(StepKind::Run, vec!["cargo", "clippy", "--workspace", "--all-targets", "--", "-D", "warnings"]),
        ],
        Task::Ci => vec![
            step(StepKind::Run, vec!["cargo", "fmt", "--all"]),
            step(StepKind::Run, vec!["cargo", "check", "--workspace"]),
            step(StepKind::Run, vec!["cargo", "test", "-p", "driver-core"]),
            step(StepKind::Run, vec!["cargo", "clippy", "--workspace", "--all-targets", "--", "-D", "warnings"]),
            step(StepKind::Esp, vec!["cargo +esp build --release --bin app-esp32"]),
        ],
        Task::Clean => vec![
            step(StepKind::Run, vec!["cargo", "clean"]),
            step(StepKind::RemoveDir, vec!["app-esp32/target"]),
        ],
        Task::Size => vec![
            step(StepKind::Run, vec!["du", "-sh", "--exclude=target", "--exclude=app-esp32/target", "."]),
        ],
        Task::EspBuild => vec![step(StepKind::Esp, vec!["cargo +esp build --release --bin app-esp32"])],
        Task::EspRun => vec![step(StepKind::Esp, vec!["cargo +esp run --release --bin app-esp32"])],
        Task::EspMonitor => vec![step(StepKind::Esp, vec!["espflash monitor"])],
    };
    assert(plan_view(r@) =~~= plan(task));
    r
}

/// Wherever a plan runs clippy, it runs it on the whole workspace and all
/// targets with warnings denied, so that any warning fails the task; and
/// `ci` runs what `check` runs after formatting (formatting in place, as
/// `fmt` does) before it builds the firmware.
pub proof fn law_clippy_denies_warnings(task: Task, i: int)
    requires
        0 <= i < plan(task).len(),
        plan(task)[i].1.len() >= 2,
        plan(task)[i].1[1] == "clippy"@,
    ensures
        plan(task)[i] == (
            StepKind::Run,
            seq!["cargo"@, "clippy"@, "--workspace"@, "--all-targets"@, "--"@, "-D"@, "warnings"@],
        ),
        plan(Task::Ci).subrange(1, 4) == plan(Task::Check).subrange(1, 4),
        plan(Task::Ci)[0] == plan(Task::Fmt)[0],
        plan(Task::Ci).len() == 5,
        plan(Task::Check).len() == 4 && plan(Task::Check)[3].1.len() >= 2 && plan(Task::Check)[3].1[1]
            == "clippy"@,
{
    reveal_strlit("clippy");
    reveal_strlit("fmt");
    reveal_strlit("check");
    reveal_strlit("test");
    reveal_strlit("clean");
    reveal_strlit("-sh");
    assert("clippy"@.len() == 6);
    assert("fmt"@.len() == 3);
    assert("check"@.len() == 5);
    assert("test"@.len() == 4);
    assert("clean"@.len() == 5);
    assert("-sh"@.len() == 3);
    assert(plan(Task::Ci).subrange(1, 4) =~= plan(Task::Check).subrange(1, 4));
}

/// Only the `esp-run` task flashes the board (runs the firmware); the
/// `esp-build` task only builds it, with the very step that ends `ci`.
pub proof fn law_only_esp_run_flashes(task: Task, i: int)
    requires
        0 <= i < plan(task).len(),
        plan(task)[i] == (StepKind::Esp, seq!["cargo +esp run --release --bin app-esp32"@]),
    ensures
        task == Task::EspRun,
        plan(Task::EspBuild) == seq![plan(Task::Ci).last()],
        plan(Task::Ci).last() == (StepKind::Esp, seq!["cargo +esp build --release --bin app-esp32"@]),
        plan(Task::EspRun) == seq![(StepKind::Esp, seq!["cargo +esp run --release --bin app-esp32"@])],
{
    reveal_strlit("cargo +esp run --release --bin app-esp32");
    reveal_strlit("cargo +esp build --release --bin app-esp32");
    reveal_strlit("espflash monitor");
    assert("cargo +esp run --release --bin app-esp32"@.len() == 40);
    assert("cargo +esp build --release --bin app-esp32"@.len() == 42);
    assert("espflash monitor"@.len() == 16);
    if task != Task::EspRun {
        assert(plan(task)[i].1[0] == "cargo +esp run --release --bin app-esp32"@);
    }
    assert(plan(Task::EspBuild) =~= seq![plan(Task::Ci).last()]);
}

/// What the runner of a plan does next.
#[derive(Debug, PartialEq, Eq)]
pub enum RunDecision<E> {
    /// Perform the step with this index.
    Perform(usize),
    /// Stop with this result.
    Done(Result<(), E>),
}

/// After step `index` of a plan of `plan_len` steps ended with `outcome`: a
/// failure stops the run with its error; otherwise the next step runs, or
/// the run succeeds after the last.
pub open spec fn run_transition<E>(plan_len: int, index: int, outcome: Result<(), E>) -> RunDecision<E> {
    match outcome {
        Err(e) => RunDecision::Done(Err(e)),
        Ok(()) => if index + 1 < plan_len {
            RunDecision::Perform((index + 1) as usize)
        } else {
            RunDecision::Done(Ok(()))
        },
    }
}

/// How a run starts: with the first step, or with success on an empty plan.
pub fn first_step<E>(plan_len: usize) -> (r: RunDecision<E>)
    ensures
        r == (if plan_len > 0 {
            RunDecision::<E>::Perform(0)
        } else {
            RunDecision::<E>::Done(Ok(()))
        }),
{
    if plan_len > 0 {
        RunDecision::Perform(0)
    } else {
        RunDecision::Done(Ok(()))
    }
}

/// Decides what follows step `index` of a plan of `plan_len` steps.
pub fn next_step<E>(plan_len: usize, index: usize, outcome: Result<(), E>) -> (r: RunDecision<E>)
    requires
        index < plan_len,
    ensures
        r == run_transition(plan_len as int, index as int, outcome),
        r matches RunDecision::Perform(j) ==> j == index + 1 && j < plan_len,
{
    match outcome {
        Err(e) => RunDecision::Done(Err(e)),
        Ok(()) => if index + 1 < plan_len {
            RunDecision::Perform(index + 1)
        } else {
            RunDecision::Done(Ok(()))
        },
    }
}

/// The steps a run performs from step `k` on, when step `i` ends with
/// `outcomes[i]`, and how it ends.
pub open spec fn run_from<E>(plan_len: int, k: int, outcomes: Seq<Result<(), E>>) -> (Seq<int>, Result<(), E>)
    decreases plan_len - k,
{
    if k < 0 || k >= plan_len {
        (Seq::empty(), Ok(()))
    } else {
        match run_transition(plan_len, k, outcomes[k]) {
            RunDecision::Done(r) => (seq![k], r),
            RunDecision::Perform(_) => {
                let (rest, r) = run_from(plan_len, k + 1, outcomes);
                (seq![k] + rest, r)
            },
        }
    }
}

/// The first failed outcome from `k` on, if any.
pub open spec fn first_error<E>(outcomes: Seq<Result<(), E>>, k: int) -> Result<(), E>
    decreases outcomes.len() - k,
{
    if k < 0 || k >= outcomes.len() {
        Ok(())
    } else {
        match outcomes[k] {
            Err(e) => Err(e),
            Ok(()) => first_error(outcomes, k + 1),
        }
    }
}

/// A run from step `k` performs steps `k, k + 1, ...` in order, goes on only
/// after a success, stops after the first failure or the last step, and ends
/// with the first failure from `k` on, or success.
pub proof fn law_run_stops_at_first_failure<E>(plan_len: int, k: int, outcomes: Seq<Result<(), E>>)
    requires
        outcomes.len() == plan_len,
        0 <= k < plan_len,
    ensures
        ({
            let (done, r) = run_from(plan_len, k, outcomes);
            &&& 1 <= done.len() <= plan_len - k
            &&& forall|i: int| 0 <= i < done.len() ==> #[trigger] done[i] == k + i
            &&& forall|i: int| 0 <= i < done.len() - 1 ==> #[trigger] outcomes[k + i] is Ok
            &&& (k + done.len() == plan_len || outcomes[k + done.len() - 1] is Err)
            &&& r == first_error(outcomes, k)
        }),
    decreases plan_len - k,
{
    let (done, r) = run_from(plan_len, k, outcomes);
    if outcomes[k] is Ok && k + 1 < plan_len {
        law_run_stops_at_first_failure(plan_len, k + 1, outcomes);
        let (rest, r2) = run_from(plan_len, k + 1, outcomes);
        assert(done == seq![k] + rest);
        assert forall|i: int| 0 <= i < done.len() implies #[trigger] done[i] == k + i by {
            if i > 0 {
                assert(done[i] == rest[i - 1]);
            }
        }
        assert forall|i: int| 0 <= i < done.len() - 1 implies #[trigger] outcomes[k + i] is Ok by {
            if i > 0 {
                assert(outcomes[(k + 1) + (i - 1)] is Ok);
            }
        }
    } else if outcomes[k] is Ok {
        assert(first_error(outcomes, k + 1) == Ok::<(), E>(()));
    }
}

} // verus!
