//! Running `uupd`, the system updater, and what its runs end with.
//!
//! `uupd` updates four modules: the system image, Flatpak apps, Homebrew packages
//! and Distrobox containers. It must run as root on the host, exits with 0 where all
//! went well, and with 77 where there was nothing to do.

use crate::command::{host_command, on_host, CommandLine, CommandView};
use crate::number::{decimal, i64_text, signed_decimal};
use crate::text::{contains_text, occurs_at, owned_views, views};
use vstd::prelude::*;

verus! {

/// What an update run reports.
#[derive(Debug, Clone)]
pub enum UpdateEvent {
    /// A line of output.
    Output(String),
    /// The run succeeded.
    Complete,
    /// There was nothing to update.
    UpToDate,
    /// The run failed, and why.
    Error(String),
}

/// What an event holds.
pub enum UpdateEventView {
    Output(Seq<char>),
    Complete,
    UpToDate,
    Error(Seq<char>),
}

impl View for UpdateEvent {
    type V = UpdateEventView;

    open spec fn view(&self) -> UpdateEventView {
        match self {
            UpdateEvent::Output(line) => UpdateEventView::Output(line@),
            UpdateEvent::Complete => UpdateEventView::Complete,
            UpdateEvent::UpToDate => UpdateEventView::UpToDate,
            UpdateEvent::Error(message) => UpdateEventView::Error(message@),
        }
    }
}

impl UpdateEventView {
    /// Nothing follows this event.
    pub open spec fn is_terminal(self) -> bool {
        !(self is Output)
    }
}

/// What a simulated run ends with.
#[derive(Debug, Clone, Copy, PartialEq, Eq, Structural)]
pub enum SimulationScenario {
    /// All four modules succeed.
    Success,
    /// The system is current already.
    AlreadyUpToDate,
    /// The system module fails.
    Failure,
}

/// Calls `std::path::Path::exists`: whether the file is there now. It is asked of the
/// sandbox's information file only. Nothing is said of the answer, which depends on the
/// file system at that moment.
#[verifier::external_body]
fn path_exists(path: &str) -> (res: bool)
    requires
        path@ == "/.flatpak-info"@,
{
    std::path::Path::new(path).exists()
}

/// Whether this process runs inside a Flatpak sandbox: whether the sandbox's
/// information file is there. Only the file system knows, so nothing is said of the
/// answer.
pub fn is_flatpak() -> (res: bool) {
    path_exists("/.flatpak-info")
}

/// How a run of the update process ended.
#[derive(Debug, Clone)]
pub enum ProcessOutcome {
    /// The process could not be started, and why.
    NotStarted(String),
    /// The user cancelled the run; the process was killed.
    Cancelled,
    /// The process ended, with its exit code where it has one.
    Exited(Option<i32>),
    /// Waiting for the process failed, and why.
    WaitFailed(String),
}

/// The event that a run ends with.
pub open spec fn final_event(outcome: ProcessOutcome, command: Seq<char>) -> UpdateEventView {
    match outcome {
        ProcessOutcome::NotStarted(reason) => UpdateEventView::Error(
            "Failed to start '"@ + command + "': "@ + reason@,
        ),
        ProcessOutcome::Cancelled => UpdateEventView::Error("Update cancelled by user"@),
        ProcessOutcome::Exited(Some(0)) => UpdateEventView::Complete,
        ProcessOutcome::Exited(Some(77)) => UpdateEventView::UpToDate,
        ProcessOutcome::Exited(Some(code)) => UpdateEventView::Error(
            "Update process exited with code "@ + signed_decimal(code as int),
        ),
        ProcessOutcome::Exited(None) => UpdateEventView::Error(
            "Update process exited with code "@ + signed_decimal(-1),
        ),
        ProcessOutcome::WaitFailed(reason) => UpdateEventView::Error(
            "Error waiting for update process: "@ + reason@,
        ),
    }
}

/// The update process: a command and its arguments.
#[derive(Debug, Clone)]
pub struct UpdateWorker {
    command: String,
    args: Vec<String>,
}

impl View for UpdateWorker {
    type V = CommandView;

    closed spec fn view(&self) -> CommandView {
        CommandView { program: self.command@, args: owned_views(self.args@) }
    }
}

/// The command as it is shown to the user.
pub open spec fn shown_command(in_flatpak: bool, command: Seq<char>) -> Seq<char> {
    if in_flatpak {
        "flatpak-spawn --host "@ + command
    } else {
        command
    }
}

impl UpdateWorker {
    /// A full update: `uupd` without arguments.
    pub fn new() -> (res: UpdateWorker)
        ensures
            res@.program == "uupd"@,
            res@.args.len() == 0,
    {
        UpdateWorker { command: "uupd".to_owned(), args: Vec::new() }
    }

    /// Another command in place of `uupd`.
    pub fn with_command(command: &str, args: Vec<String>) -> (res: UpdateWorker)
        ensures
            res@.program == command@,
            res@.args == owned_views(args@),
    {
        UpdateWorker { command: command.to_owned(), args }
    }

    /// The command line that runs the update on the host.
    pub fn build_command(&self, in_flatpak: bool) -> (res: CommandLine)
        ensures
            res@ == on_host(in_flatpak, self@.program, self@.args),
    {
        let mut args: Vec<&str> = Vec::new();
        let mut i: usize = 0;
        while i < self.args.len()
            invariant
                i <= self.args@.len(),
                views(args@) == owned_views(self.args@).take(i as int),
            decreases self.args@.len() - i,
        {
            let ghost before = args@;
            args.push(self.args[i].as_str());
            proof {
                assert(views(args@) =~= views(before).push(self.args@[i as int]@));
                assert(owned_views(self.args@).take(i + 1) =~= owned_views(self.args@).take(
                    i as int,
                ).push(self.args@[i as int]@));
            }
            i = i + 1;
        }
        assert(owned_views(self.args@).take(i as int) =~= owned_views(self.args@));
        host_command(in_flatpak, self.command.as_str(), &args)
    }

    /// The command as it is shown to the user.
    pub fn command_display(&self, in_flatpak: bool) -> (res: String)
        ensures
            res@ == shown_command(in_flatpak, self@.program),
    {
        if in_flatpak {
            let mut text: String = "flatpak-spawn --host ".to_owned();
            text.append(self.command.as_str());
            text
        } else {
            self.command.as_str().to_owned()
        }
    }

    /// The event that a run of this process ends with.
    pub fn finish(&self, in_flatpak: bool, outcome: &ProcessOutcome) -> (res: UpdateEvent)
        ensures
            res@ == final_event(*outcome, shown_command(in_flatpak, self@.program)),
            res@.is_terminal(),
    {
        match outcome {
            ProcessOutcome::NotStarted(reason) => {
                let mut text: String = "Failed to start '".to_owned();
                text.append(self.command_display(in_flatpak).as_str());
                text.append("': ");
                text.append(reason.as_str());
                UpdateEvent::Error(text)
            },
            ProcessOutcome::Cancelled => UpdateEvent::Error("Update cancelled by user".to_owned()),
            ProcessOutcome::Exited(code) => {
                let number: i64 = match code {
                    Some(n) => *n as i64,
                    None => -1,
                };
                if number == 0 {
                    UpdateEvent::Complete
                } else if number == 77 {
                    UpdateEvent::UpToDate
                } else {
                    let mut text: String = "Update process exited with code ".to_owned();
                    text.append(i64_text(number).as_str());
                    UpdateEvent::Error(text)
                }
            },
            ProcessOutcome::WaitFailed(reason) => {
                let mut text: String = "Error waiting for update process: ".to_owned();
                text.append(reason.as_str());
                UpdateEvent::Error(text)
            },
        }
    }
}

/// A step of a simulated run: a line of output, where it has one, and a pause.
#[derive(Debug, Clone)]
pub struct SimulationStep {
    pub line: Option<String>,
    pub pause_ms: u64,
}

/// What a step holds.
#[verifier::ext_equal]
pub struct StepView {
    pub line: Option<Seq<char>>,
    pub pause_ms: int,
}

impl View for SimulationStep {
    type V = StepView;

    open spec fn view(&self) -> StepView {
        StepView {
            line: match self.line {
                Some(text) => Some(text@),
                None => None,
            },
            pause_ms: self.pause_ms as int,
        }
    }
}

/// The views of a list of steps.
pub open spec fn step_views(list: Seq<SimulationStep>) -> Seq<StepView> {
    list.map_values(|s: SimulationStep| s@)
}

/// A step that writes a log line.
pub open spec fn logs(rest: Seq<char>, pause_ms: int) -> StepView {
    StepView { line: Some("time=2026-05-26T04:00:00Z level="@ + rest), pause_ms }
}

fn log_step(rest: &str, pause_ms: u64) -> (res: SimulationStep)
    ensures
        res@ == logs(rest@, pause_ms as int),
{
    let mut text: String = "time=2026-05-26T04:00:00Z level=".to_owned();
    text.append(rest);
    SimulationStep { line: Some(text), pause_ms }
}

/// How every simulated run begins.
pub open spec fn opening_steps() -> Seq<StepView> {
    seq![
        logs("INFO msg=\"[DEV MODE] Starting finupdate simulation\""@, 300),
        logs("INFO msg=\"Hardware checks passed\""@, 500),
        logs("INFO msg=\"System\" module_name=System"@, 300),
        logs("INFO msg=\"Checking for OS image updates...\""@, 600),
    ]
}

/// How the system module goes on.
pub open spec fn system_steps(scenario: SimulationScenario) -> Seq<StepView> {
    match scenario {
        SimulationScenario::Success => seq![
            logs("INFO msg=\"bootc: Fetching image manifest...\""@, 500),
            logs("INFO msg=\"bootc: Pulling 3 new layers (42.1 MB)\""@, 800),
            logs("INFO msg=\"bootc: Staging complete — reboot to apply\""@, 400),
        ],
        SimulationScenario::AlreadyUpToDate => seq![
            logs("INFO msg=\"Image is already up to date\""@, 400),
        ],
        SimulationScenario::Failure => seq![
            logs("ERROR msg=\"module_fail\" module=System cli=\"bootc upgrade\""@, 400),
        ],
    }
}

/// How the modules after the system go, in every run.
pub open spec fn other_module_steps() -> Seq<StepView> {
    seq![
        logs("INFO msg=\"Flatpak\" module_name=Flatpak"@, 300),
        logs("INFO msg=\"Checking for Flatpak updates...\""@, 500),
        logs("INFO msg=\"Updated: org.mozilla.firefox (130.0.1 → 131.0)\""@, 400),
        logs("INFO msg=\"Updated: com.spotify.Client (1.2.45 → 1.2.46)\""@, 400),
        logs("INFO msg=\"Flatpak: 2 apps updated\""@, 300),
        logs("INFO msg=\"Brew\" module_name=Brew"@, 300),
        logs("INFO msg=\"Upgrading Homebrew packages...\""@, 500),
        logs("INFO msg=\"Already up-to-date: neovim, fzf, ripgrep\""@, 300),
        logs("INFO msg=\"Distrobox\" module_name=Distrobox"@, 300),
        logs("INFO msg=\"Upgrading Distrobox containers...\""@, 500),
        logs("INFO msg=\"ubuntu-22: updated 5 packages\""@, 400),
    ]
}

/// How a run closes: a successful one says so.
pub open spec fn closing_steps(scenario: SimulationScenario) -> Seq<StepView> {
    match scenario {
        SimulationScenario::Success => seq![
            StepView { line: None, pause_ms: 300 },
            logs("INFO msg=\"Updates Completed Successfully\""@, 200),
        ],
        _ => Seq::empty(),
    }
}

/// The steps of a simulated run: all four modules, whatever the run ends with.
pub open spec fn simulated_steps(scenario: SimulationScenario) -> Seq<StepView> {
    opening_steps() + system_steps(scenario) + other_module_steps() + closing_steps(scenario)
}

/// The event that a simulated run ends with.
pub open spec fn simulated_end(scenario: SimulationScenario) -> UpdateEventView {
    match scenario {
        SimulationScenario::Success => UpdateEventView::Complete,
        SimulationScenario::AlreadyUpToDate => UpdateEventView::UpToDate,
        SimulationScenario::Failure => UpdateEventView::Error(
            "[DEV MODE] Simulated system module failure"@,
        ),
    }
}

fn new_opening_steps() -> (res: Vec<SimulationStep>)
    ensures
        step_views(res@) == opening_steps(),
{
    let steps: Vec<SimulationStep> = vec![
        log_step("INFO msg=\"[DEV MODE] Starting finupdate simulation\"", 300),
        log_step("INFO msg=\"Hardware checks passed\"", 500),
        log_step("INFO msg=\"System\" module_name=System", 300),
        log_step("INFO msg=\"Checking for OS image updates...\"", 600),
    ];
    assert(step_views(steps@) =~= opening_steps());
    steps
}

fn new_system_steps(scenario: SimulationScenario) -> (res: Vec<SimulationStep>)
    ensures
        step_views(res@) == system_steps(scenario),
{
    let steps: Vec<SimulationStep> = match scenario {
        SimulationScenario::Success => vec![
            log_step("INFO msg=\"bootc: Fetching image manifest...\"", 500),
            log_step("INFO msg=\"bootc: Pulling 3 new layers (42.1 MB)\"", 800),
            log_step("INFO msg=\"bootc: Staging complete — reboot to apply\"", 400),
        ],
        SimulationScenario::AlreadyUpToDate => vec![
            log_step("INFO msg=\"Image is already up to date\"", 400),
        ],
        SimulationScenario::Failure => vec![
            log_step("ERROR msg=\"module_fail\" module=System cli=\"bootc upgrade\"", 400),
        ],
    };
    assert(step_views(steps@) =~= system_steps(scenario));
    steps
}

fn new_other_module_steps() -> (res: Vec<SimulationStep>)
    ensures
        step_views(res@) == other_module_steps(),
{
    let steps: Vec<SimulationStep> = vec![
        log_step("INFO msg=\"Flatpak\" module_name=Flatpak", 300),
        log_step("INFO msg=\"Checking for Flatpak updates...\"", 500),
        log_step("INFO msg=\"Updated: org.mozilla.firefox (130.0.1 → 131.0)\"", 400),
        log_step("INFO msg=\"Updated: com.spotify.Client (1.2.45 → 1.2.46)\"", 400),
        log_step("INFO msg=\"Flatpak: 2 apps updated\"", 300),
        log_step("INFO msg=\"Brew\" module_name=Brew", 300),
        log_step("INFO msg=\"Upgrading Homebrew packages...\"", 500),
        log_step("INFO msg=\"Already up-to-date: neovim, fzf, ripgrep\"", 300),
        log_step("INFO msg=\"Distrobox\" module_name=Distrobox", 300),
        log_step("INFO msg=\"Upgrading Distrobox containers...\"", 500),
        log_step("INFO msg=\"ubuntu-22: updated 5 packages\"", 400),
    ];
    assert(step_views(steps@) =~= other_module_steps());
    steps
}

fn new_closing_steps(scenario: SimulationScenario) -> (res: Vec<SimulationStep>)
    ensures
        step_views(res@) == closing_steps(scenario),
{
    let mut steps: Vec<SimulationStep> = Vec::new();
    if let SimulationScenario::Success = scenario {
        steps.push(SimulationStep { line: None, pause_ms: 300 });
        steps.push(log_step("INFO msg=\"Updates Completed Successfully\"", 200));
    }
    assert(step_views(steps@) =~= closing_steps(scenario));
    steps
}

/// The steps of a simulated run, one after the other.
pub fn simulation_script(scenario: SimulationScenario) -> (res: Vec<SimulationStep>)
    ensures
        step_views(res@) == simulated_steps(scenario),
{
    let mut steps = new_opening_steps();
    let mut system = new_system_steps(scenario);
    let mut others = new_other_module_steps();
    let mut closing = new_closing_steps(scenario);
    let ghost a = steps@;
    let ghost b = system@;
    let ghost c = others@;
    let ghost d = closing@;
    steps.append(&mut system);
    steps.append(&mut others);
    steps.append(&mut closing);
    assert(step_views(steps@) =~= step_views(a) + step_views(b) + step_views(c) + step_views(d));
    steps
}

/// The event that a simulated run ends with, where the user may have cancelled it.
pub open spec fn simulated_outcome(scenario: SimulationScenario, cancelled: bool) -> UpdateEventView {
    if cancelled {
        final_event(ProcessOutcome::Cancelled, "uupd"@)
    } else {
        simulated_end(scenario)
    }
}

/// The event that a simulated run ends with: that of the cancelled run where the user
/// cancelled it.
pub fn simulation_end(scenario: SimulationScenario, cancelled: bool) -> (res: UpdateEvent)
    ensures
        res@ == simulated_outcome(scenario, cancelled),
        res@.is_terminal(),
{
    if cancelled {
        UpdateEvent::Error("Update cancelled by user".to_owned())
    } else {
        match scenario {
            SimulationScenario::Success => UpdateEvent::Complete,
            SimulationScenario::AlreadyUpToDate => UpdateEvent::UpToDate,
            SimulationScenario::Failure => UpdateEvent::Error(
                "[DEV MODE] Simulated system module failure".to_owned(),
            ),
        }
    }
}

/// A run is reported complete exactly where the process exits with 0, and as having
/// had nothing to do exactly where it exits with 77. Everything else is an error.
pub proof fn law_exit_codes(outcome: ProcessOutcome, command: Seq<char>)
    ensures
        final_event(outcome, command) is Complete <==> outcome == ProcessOutcome::Exited(Some(0)),
        final_event(outcome, command) is UpToDate <==> outcome == ProcessOutcome::Exited(Some(77)),
        final_event(outcome, command).is_terminal(),
{
}

/// Whatever it ends with, every simulated run announces all four modules, in their
/// order, and its last event ends it.
pub proof fn law_simulation_reaches_modules(scenario: SimulationScenario)
    ensures
        ({
            let steps = simulated_steps(scenario);
            exists|a: int, b: int, c: int, d: int|
                0 <= a < b < c < d < steps.len() && #[trigger] announces(steps[a], "System"@)
                    && #[trigger] announces(steps[b], "Flatpak"@) && #[trigger] announces(
                    steps[c],
                    "Brew"@,
                ) && #[trigger] announces(steps[d], "Distrobox"@)
        }),
        simulated_end(scenario).is_terminal(),
        simulated_end(scenario) is Complete <==> scenario == SimulationScenario::Success,
        simulated_end(scenario) is UpToDate <==> scenario == SimulationScenario::AlreadyUpToDate,
        simulated_end(scenario) is Error <==> scenario == SimulationScenario::Failure,
{
    let steps = simulated_steps(scenario);
    let k = 4 + system_steps(scenario).len() as int;
    assert(steps[2] == opening_steps()[2]);
    assert(steps[k] == other_module_steps()[0]);
    assert(steps[k + 5] == other_module_steps()[5]);
    assert(steps[k + 8] == other_module_steps()[8]);
    let lead = "time=2026-05-26T04:00:00Z level="@;
    reveal_strlit("module_name=");
    reveal_strlit("System");
    reveal_strlit("Flatpak");
    reveal_strlit("Brew");
    reveal_strlit("Distrobox");
    reveal_strlit("INFO msg=\"System\" module_name=System");
    reveal_strlit("INFO msg=\"Flatpak\" module_name=Flatpak");
    reveal_strlit("INFO msg=\"Brew\" module_name=Brew");
    reveal_strlit("INFO msg=\"Distrobox\" module_name=Distrobox");
    lemma_ends_in(lead, "INFO msg=\"System\" module_name=System"@, "module_name="@ + "System"@);
    lemma_ends_in(lead, "INFO msg=\"Flatpak\" module_name=Flatpak"@, "module_name="@ + "Flatpak"@);
    lemma_ends_in(lead, "INFO msg=\"Brew\" module_name=Brew"@, "module_name="@ + "Brew"@);
    lemma_ends_in(
        lead,
        "INFO msg=\"Distrobox\" module_name=Distrobox"@,
        "module_name="@ + "Distrobox"@,
    );
    assert(announces(steps[2], "System"@));
    assert(announces(steps[k], "Flatpak"@));
    assert(announces(steps[k + 5], "Brew"@));
    assert(announces(steps[k + 8], "Distrobox"@));
}

proof fn lemma_ends_in(lead: Seq<char>, rest: Seq<char>, end: Seq<char>)
    requires
        end.len() <= rest.len(),
        rest.skip(rest.len() - end.len()) =~= end,
    ensures
        contains_text(lead + rest, end),
{
    let line = lead + rest;
    let at = line.len() - end.len();
    assert(line.subrange(at, at + end.len()) =~= rest.skip(rest.len() - end.len()));
    assert(occurs_at(line, end, at));
}

/// The step writes a line that names a module as starting.
pub open spec fn announces(step: StepView, module: Seq<char>) -> bool {
    step.line matches Some(line) && contains_text(line, "module_name="@ + module)
}

/// What is said of a run that failed: why it could not be started or waited for, that it
/// was cancelled, or its exit code, which is -1 where it has none.
pub proof fn law_failure_messages(command: Seq<char>, reason: String, code: i32)
    ensures
        final_event(ProcessOutcome::NotStarted(reason), command) == UpdateEventView::Error(
            "Failed to start '"@ + command + "': "@ + reason@,
        ),
        final_event(ProcessOutcome::Cancelled, command) == UpdateEventView::Error(
            "Update cancelled by user"@,
        ),
        final_event(ProcessOutcome::WaitFailed(reason), command) == UpdateEventView::Error(
            "Error waiting for update process: "@ + reason@,
        ),
        code != 0 && code != 77 ==> final_event(ProcessOutcome::Exited(Some(code)), command)
            == UpdateEventView::Error(
            "Update process exited with code "@ + signed_decimal(code as int),
        ),
        final_event(ProcessOutcome::Exited(None), command) == UpdateEventView::Error(
            "Update process exited with code "@ + "-1"@,
        ),
        final_event(ProcessOutcome::Exited(Some(0)), command) == UpdateEventView::Complete,
        final_event(ProcessOutcome::Exited(Some(77)), command) == UpdateEventView::UpToDate,
{
    reveal_strlit("-1");
    assert(decimal(1) =~= seq!['1']);
    assert(signed_decimal(-1) =~= "-1"@);
}

/// A command is shown as it stands, and inside the sandbox with the words that hand it to
/// the host.
pub proof fn law_shown_command(command: Seq<char>)
    ensures
        shown_command(false, command) == command,
        shown_command(true, command) == "flatpak-spawn --host "@ + command,
{
}

/// A simulated run that was cancelled ends as any cancelled run; another one ends as its
/// scenario says.
pub proof fn law_simulated_ends(scenario: SimulationScenario)
    ensures
        simulated_outcome(scenario, true) == UpdateEventView::Error("Update cancelled by user"@),
        simulated_outcome(SimulationScenario::Success, false) == UpdateEventView::Complete,
        simulated_outcome(SimulationScenario::AlreadyUpToDate, false) == UpdateEventView::UpToDate,
        simulated_outcome(SimulationScenario::Failure, false) == UpdateEventView::Error(
            "[DEV MODE] Simulated system module failure"@,
        ),
{
}

/// The simulated failure is reported by a line that names it as an error of a module,
/// while the system module is the current one.
pub proof fn law_simulated_failure()
    ensures
        ({
            let steps = simulated_steps(SimulationScenario::Failure);
            &&& announces(steps[2], "System"@)
            &&& steps[4].line matches Some(line) && contains_text(line, "level=ERROR"@)
                && contains_text(line, "module_fail"@)
        }),
{
    let steps = simulated_steps(SimulationScenario::Failure);
    assert(steps[2] == opening_steps()[2]);
    assert(steps[4] == system_steps(SimulationScenario::Failure)[0]);
    let lead = "time=2026-05-26T04:00:00Z level="@;
    let rest = "ERROR msg=\"module_fail\" module=System cli=\"bootc upgrade\""@;
    reveal_strlit("module_name=");
    reveal_strlit("System");
    reveal_strlit("INFO msg=\"System\" module_name=System");
    reveal_strlit("time=2026-05-26T04:00:00Z level=");
    reveal_strlit("ERROR msg=\"module_fail\" module=System cli=\"bootc upgrade\"");
    reveal_strlit("level=ERROR");
    reveal_strlit("module_fail");
    lemma_ends_in(lead, "INFO msg=\"System\" module_name=System"@, "module_name="@ + "System"@);
    let line = lead + rest;
    assert(line.subrange(26, 37) =~= "level=ERROR"@);
    assert(occurs_at(line, "level=ERROR"@, 26));
    assert(line.subrange(43, 54) =~= "module_fail"@);
    assert(occurs_at(line, "module_fail"@, 43));
}

/// What the steps of a simulated run write, and how long they pause.
pub proof fn law_simulated_lines()
    ensures
        ({
            let written = |rest: Seq<char>, pause_ms: int|
                StepView {
                    line: Some("time=2026-05-26T04:00:00Z level="@ + rest),
                    pause_ms,
                };
            &&& opening_steps() == seq![
                written("INFO msg=\"[DEV MODE] Starting finupdate simulation\""@, 300),
                written("INFO msg=\"Hardware checks passed\""@, 500),
                written("INFO msg=\"System\" module_name=System"@, 300),
                written("INFO msg=\"Checking for OS image updates...\""@, 600),
            ]
            &&& system_steps(SimulationScenario::Success) == seq![
                written("INFO msg=\"bootc: Fetching image manifest...\""@, 500),
                written("INFO msg=\"bootc: Pulling 3 new layers (42.1 MB)\""@, 800),
                written("INFO msg=\"bootc: Staging complete — reboot to apply\""@, 400),
            ]
            &&& system_steps(SimulationScenario::AlreadyUpToDate) == seq![
                written("INFO msg=\"Image is already up to date\""@, 400),
            ]
            &&& system_steps(SimulationScenario::Failure) == seq![
                written("ERROR msg=\"module_fail\" module=System cli=\"bootc upgrade\""@, 400),
            ]
            &&& other_module_steps() == seq![
                written("INFO msg=\"Flatpak\" module_name=Flatpak"@, 300),
                written("INFO msg=\"Checking for Flatpak updates...\""@, 500),
                written("INFO msg=\"Updated: org.mozilla.firefox (130.0.1 → 131.0)\""@, 400),
                written("INFO msg=\"Updated: com.spotify.Client (1.2.45 → 1.2.46)\""@, 400),
                written("INFO msg=\"Flatpak: 2 apps updated\""@, 300),
                written("INFO msg=\"Brew\" module_name=Brew"@, 300),
                written("INFO msg=\"Upgrading Homebrew packages...\""@, 500),
                written("INFO msg=\"Already up-to-date: neovim, fzf, ripgrep\""@, 300),
                written("INFO msg=\"Distrobox\" module_name=Distrobox"@, 300),
                written("INFO msg=\"Upgrading Distrobox containers...\""@, 500),
                written("INFO msg=\"ubuntu-22: updated 5 packages\""@, 400),
            ]
            &&& closing_steps(SimulationScenario::Success) == seq![
                StepView { line: None, pause_ms: 300 },
                written("INFO msg=\"Updates Completed Successfully\""@, 200),
            ]
            &&& closing_steps(SimulationScenario::AlreadyUpToDate).len() == 0
            &&& closing_steps(SimulationScenario::Failure).len() == 0
        }),
{
}

/// A simulated run consists of its opening, the system module, the other modules and its
/// closing, in this order.
pub proof fn law_simulated_order(scenario: SimulationScenario)
    ensures
        simulated_steps(scenario) == opening_steps() + system_steps(scenario)
            + other_module_steps() + closing_steps(scenario),
{
}

} // verus!
