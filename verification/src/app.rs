//! The state of the application as a whole, from starting an update to its end.

use crate::text::{owned_views, str_eq};
use crate::update_worker::{final_event, ProcessOutcome, UpdateEvent, UpdateEventView};
use vstd::prelude::*;

verus! {

/// What the check at the start found.
#[derive(Debug, Clone, Copy, PartialEq, Eq, Structural)]
pub enum PreflightStatus {
    /// The check is still running.
    Checking,
    /// There is an update.
    UpdateAvailable,
    /// There is no update.
    UpToDate,
    /// The check could not tell.
    Unknown,
}

/// What the application is doing.
#[derive(Debug, Clone, PartialEq)]
pub enum AppState {
    /// No update is running.
    Idle,
    /// An update is running.
    Updating,
    /// The update succeeded.
    Complete,
    /// There was nothing to update.
    UpToDate,
    /// The update failed, and why.
    Error(String),
}

/// What a state holds.
pub enum AppStateView {
    Idle,
    Updating,
    Complete,
    UpToDate,
    Error(Seq<char>),
}

impl View for AppState {
    type V = AppStateView;

    open spec fn view(&self) -> AppStateView {
        match self {
            AppState::Idle => AppStateView::Idle,
            AppState::Updating => AppStateView::Updating,
            AppState::Complete => AppStateView::Complete,
            AppState::UpToDate => AppStateView::UpToDate,
            AppState::Error(message) => AppStateView::Error(message@),
        }
    }
}

impl Default for AppState {
    fn default() -> (res: AppState)
        ensures
            res@ == AppStateView::Idle,
    {
        AppState::Idle
    }
}

/// A copy of a state.
pub fn copy_state(state: &AppState) -> (res: AppState)
    ensures
        res@ == state@,
{
    match state {
        AppState::Idle => AppState::Idle,
        AppState::Updating => AppState::Updating,
        AppState::Complete => AppState::Complete,
        AppState::UpToDate => AppState::UpToDate,
        AppState::Error(message) => AppState::Error(message.as_str().to_owned()),
    }
}

/// What can happen to the application.
#[derive(Debug, Clone)]
pub enum AppMsg {
    /// The user starts an update, or tries again.
    StartUpdate,
    /// The update printed a line.
    OutputLine(String),
    /// The update succeeded.
    UpdateComplete,
    /// There was nothing to update.
    UpdateUpToDate,
    /// The update failed, and why.
    UpdateFailed(String),
    /// The user cancels the update.
    CancelUpdate,
    /// The user goes back to the start.
    Dismiss,
}

/// What a message holds.
pub enum AppMsgView {
    StartUpdate,
    OutputLine(Seq<char>),
    UpdateComplete,
    UpdateUpToDate,
    UpdateFailed(Seq<char>),
    CancelUpdate,
    Dismiss,
}

impl View for AppMsg {
    type V = AppMsgView;

    open spec fn view(&self) -> AppMsgView {
        match self {
            AppMsg::StartUpdate => AppMsgView::StartUpdate,
            AppMsg::OutputLine(line) => AppMsgView::OutputLine(line@),
            AppMsg::UpdateComplete => AppMsgView::UpdateComplete,
            AppMsg::UpdateUpToDate => AppMsgView::UpdateUpToDate,
            AppMsg::UpdateFailed(message) => AppMsgView::UpdateFailed(message@),
            AppMsg::CancelUpdate => AppMsgView::CancelUpdate,
            AppMsg::Dismiss => AppMsgView::Dismiss,
        }
    }
}

/// What the application does in answer to a message.
#[derive(Debug, Clone)]
pub enum AppEffect {
    /// Show this state.
    ShowState(AppState),
    /// Empty the log.
    ClearLog,
    /// Add a line to the log.
    AppendLog(String),
    /// Start the update process.
    StartWorker,
    /// Stop the update process.
    StopWorker,
    /// Tell the user something in passing.
    Toast(String),
}

/// What an effect holds.
pub enum AppEffectView {
    ShowState(AppStateView),
    ClearLog,
    AppendLog(Seq<char>),
    StartWorker,
    StopWorker,
    Toast(Seq<char>),
}

impl View for AppEffect {
    type V = AppEffectView;

    open spec fn view(&self) -> AppEffectView {
        match self {
            AppEffect::ShowState(state) => AppEffectView::ShowState(state@),
            AppEffect::ClearLog => AppEffectView::ClearLog,
            AppEffect::AppendLog(line) => AppEffectView::AppendLog(line@),
            AppEffect::StartWorker => AppEffectView::StartWorker,
            AppEffect::StopWorker => AppEffectView::StopWorker,
            AppEffect::Toast(text) => AppEffectView::Toast(text@),
        }
    }
}

/// The views of a list of effects.
pub open spec fn effect_views(list: Seq<AppEffect>) -> Seq<AppEffectView> {
    list.map_values(|e: AppEffect| e@)
}

/// The application: its state, and what the update printed so far.
#[derive(Debug, Clone)]
pub struct App {
    state: AppState,
    log_lines: Vec<String>,
}

/// What the application holds.
#[verifier::ext_equal]
pub struct AppView {
    pub state: AppStateView,
    pub log_lines: Seq<Seq<char>>,
}

impl View for App {
    type V = AppView;

    closed spec fn view(&self) -> AppView {
        AppView { state: self.state@, log_lines: owned_views(self.log_lines@) }
    }
}

/// The state after a failure: a cancelled update leads back to the start.
pub open spec fn failed_state(message: Seq<char>) -> AppStateView {
    if message == "Update cancelled by user"@ {
        AppStateView::Idle
    } else {
        AppStateView::Error(message)
    }
}

impl AppView {
    /// What a message does to the application.
    pub open spec fn step(self, msg: AppMsgView) -> AppView {
        match msg {
            AppMsgView::StartUpdate => AppView {
                state: AppStateView::Updating,
                log_lines: Seq::empty(),
            },
            AppMsgView::OutputLine(line) => AppView {
                log_lines: self.log_lines.push(line),
                ..self
            },
            AppMsgView::UpdateComplete => AppView { state: AppStateView::Complete, ..self },
            AppMsgView::UpdateUpToDate => AppView { state: AppStateView::UpToDate, ..self },
            AppMsgView::UpdateFailed(message) => AppView { state: failed_state(message), ..self },
            AppMsgView::CancelUpdate => self,
            AppMsgView::Dismiss => AppView { state: AppStateView::Idle, ..self },
        }
    }

    /// What the application does in answer to a message.
    pub open spec fn effects(self, msg: AppMsgView) -> Seq<AppEffectView> {
        match msg {
            AppMsgView::StartUpdate => seq![
                AppEffectView::ShowState(AppStateView::Updating),
                AppEffectView::ClearLog,
                AppEffectView::StartWorker,
            ],
            AppMsgView::OutputLine(line) => seq![AppEffectView::AppendLog(line)],
            AppMsgView::UpdateComplete => seq![
                AppEffectView::ShowState(AppStateView::Complete),
                AppEffectView::Toast("System update complete"@),
            ],
            AppMsgView::UpdateUpToDate => seq![AppEffectView::ShowState(AppStateView::UpToDate)],
            AppMsgView::UpdateFailed(message) => seq![
                AppEffectView::ShowState(failed_state(message)),
            ],
            AppMsgView::CancelUpdate => if self.state is Updating {
                seq![AppEffectView::StopWorker]
            } else {
                Seq::empty()
            },
            AppMsgView::Dismiss => seq![AppEffectView::ShowState(AppStateView::Idle)],
        }
    }
}

/// The window may be closed.
pub open spec fn closable(state: AppStateView) -> bool {
    !(state is Updating)
}

impl App {
    /// The application at its start.
    pub fn new() -> (res: App)
        ensures
            res@ == (AppView { state: AppStateView::Idle, log_lines: Seq::empty() }),
    {
        let res = App { state: AppState::Idle, log_lines: Vec::new() };
        assert(res@.log_lines =~= Seq::empty());
        res
    }

    /// What the application is doing.
    pub fn state(&self) -> (res: &AppState)
        ensures
            res@ == self@.state,
    {
        &self.state
    }

    /// What the update printed so far.
    pub fn log_lines(&self) -> (res: &Vec<String>)
        ensures
            owned_views(res@) == self@.log_lines,
    {
        &self.log_lines
    }

    /// Whether the window may be closed: not while an update is running.
    pub fn may_close(&self) -> (res: bool)
        ensures
            res == closable(self@.state),
    {
        match self.state {
            AppState::Updating => false,
            _ => true,
        }
    }

    /// Takes a message and tells what to do.
    pub fn update(&mut self, msg: AppMsg) -> (res: Vec<AppEffect>)
        ensures
            final(self)@ == old(self)@.step(msg@),
            effect_views(res@) == old(self)@.effects(msg@),
    {
        let ghost before = self@;
        let ghost view = msg@;
        let mut effects: Vec<AppEffect> = Vec::new();
        match msg {
            AppMsg::StartUpdate => {
                self.state = AppState::Updating;
                self.log_lines = Vec::new();
                assert(self@.log_lines =~= Seq::empty());
                effects.push(AppEffect::ShowState(AppState::Updating));
                effects.push(AppEffect::ClearLog);
                effects.push(AppEffect::StartWorker);
            },
            AppMsg::OutputLine(line) => {
                self.log_lines.push(line.as_str().to_owned());
                assert(self@.log_lines =~= before.log_lines.push(line@));
                effects.push(AppEffect::AppendLog(line));
            },
            AppMsg::UpdateComplete => {
                self.state = AppState::Complete;
                effects.push(AppEffect::ShowState(AppState::Complete));
                effects.push(AppEffect::Toast("System update complete".to_owned()));
            },
            AppMsg::UpdateUpToDate => {
                self.state = AppState::UpToDate;
                effects.push(AppEffect::ShowState(AppState::UpToDate));
            },
            AppMsg::UpdateFailed(message) => {
                let next: AppState = if str_eq(message.as_str(), "Update cancelled by user") {
                    AppState::Idle
                } else {
                    AppState::Error(message)
                };
                effects.push(AppEffect::ShowState(copy_state(&next)));
                self.state = next;
            },
            AppMsg::CancelUpdate => {
                if let AppState::Updating = self.state {
                    effects.push(AppEffect::StopWorker);
                }
            },
            AppMsg::Dismiss => {
                self.state = AppState::Idle;
                effects.push(AppEffect::ShowState(AppState::Idle));
            },
        }
        proof {
            assert(self@ =~= before.step(view));
            assert(effect_views(effects@) =~= before.effects(view));
        }
        effects
    }
}

/// The message that tells the application of an event.
pub open spec fn message_of(event: UpdateEventView) -> AppMsgView {
    match event {
        UpdateEventView::Output(line) => AppMsgView::OutputLine(line),
        UpdateEventView::Complete => AppMsgView::UpdateComplete,
        UpdateEventView::UpToDate => AppMsgView::UpdateUpToDate,
        UpdateEventView::Error(message) => AppMsgView::UpdateFailed(message),
    }
}

/// The message that tells the application of an event.
pub fn message_for(event: UpdateEvent) -> (res: AppMsg)
    ensures
        res@ == message_of(event@),
{
    match event {
        UpdateEvent::Output(line) => AppMsg::OutputLine(line),
        UpdateEvent::Complete => AppMsg::UpdateComplete,
        UpdateEvent::UpToDate => AppMsg::UpdateUpToDate,
        UpdateEvent::Error(message) => AppMsg::UpdateFailed(message),
    }
}

/// The state machine: an update starts from the idle state, ends complete, up to date
/// or in an error, and goes back to the idle state when it is cancelled or its end is
/// dismissed. Output and the wish to cancel leave the state alone.
pub proof fn law_state_machine(app: AppView, line: Seq<char>, message: Seq<char>)
    ensures
        app.step(AppMsgView::StartUpdate).state is Updating,
        app.step(AppMsgView::OutputLine(line)).state == app.state,
        app.step(AppMsgView::CancelUpdate) == app,
        app.step(AppMsgView::UpdateComplete).state is Complete,
        app.step(AppMsgView::UpdateUpToDate).state is UpToDate,
        message != "Update cancelled by user"@ ==> app.step(
            AppMsgView::UpdateFailed(message),
        ).state == AppStateView::Error(message),
        app.step(AppMsgView::UpdateFailed("Update cancelled by user"@)).state is Idle,
        app.step(AppMsgView::Dismiss).state is Idle,
{
}

/// The application after lines of output.
pub open spec fn after_output(app: AppView, lines: Seq<Seq<char>>) -> AppView
    decreases lines.len(),
{
    if lines.len() == 0 {
        app
    } else {
        after_output(app, lines.drop_last()).step(AppMsgView::OutputLine(lines.last()))
    }
}

/// From its start to its end an update stays in the updating state, and the log holds
/// what it printed, whatever was there before.
pub proof fn law_log_of_run(app: AppView, lines: Seq<Seq<char>>)
    ensures
        ({
            let run = after_output(app.step(AppMsgView::StartUpdate), lines);
            run.state is Updating && run.log_lines == lines
        }),
    decreases lines.len(),
{
    if lines.len() > 0 {
        law_log_of_run(app, lines.drop_last());
        assert(lines.drop_last().push(lines.last()) =~= lines);
    } else {
        assert(lines =~= Seq::empty());
    }
}

/// How a run of the update process ends decides the state: complete for exit code 0,
/// up to date for 77, idle for a cancelled run, and an error for everything else.
pub proof fn law_end_of_run(app: AppView, outcome: ProcessOutcome, command: Seq<char>)
    ensures
        ({
            let state = app.step(message_of(final_event(outcome, command))).state;
            &&& state is Complete <==> outcome == ProcessOutcome::Exited(Some(0))
            &&& state is UpToDate <==> outcome == ProcessOutcome::Exited(Some(77))
            &&& state is Idle <==> outcome == ProcessOutcome::Cancelled
            &&& !(state is Updating)
        }),
{
    reveal_strlit("Update cancelled by user");
    reveal_strlit("Update process exited with code ");
    reveal_strlit("Failed to start '");
    reveal_strlit("Error waiting for update process: ");
    let cancelled = "Update cancelled by user"@;
    match final_event(outcome, command) {
        UpdateEventView::Error(message) => {
            if outcome != ProcessOutcome::Cancelled {
                assert(message[0] != cancelled[0] || message[7] != cancelled[7]);
                assert(message != cancelled);
            }
        },
        _ => {},
    }
}

/// What the check for updates found.
pub open spec fn preflight_finding(exit_code: Option<i32>) -> PreflightStatus {
    match exit_code {
        Some(0) => PreflightStatus::UpdateAvailable,
        Some(77) => PreflightStatus::UpToDate,
        _ => PreflightStatus::Unknown,
    }
}

/// What the check for updates found, by its exit code: 0 where there is an update and
/// 77 where there is none.
pub fn preflight_status(exit_code: Option<i32>) -> (res: PreflightStatus)
    ensures
        res == preflight_finding(exit_code),
{
    match exit_code {
        Some(0) => PreflightStatus::UpdateAvailable,
        Some(77) => PreflightStatus::UpToDate,
        _ => PreflightStatus::Unknown,
    }
}

/// The update process is started exactly when the user starts an update, and stopped
/// exactly when the user cancels one that is running. The log is emptied at the start
/// only.
pub proof fn law_process_control(app: AppView, msg: AppMsgView)
    ensures
        app.effects(msg).contains(AppEffectView::StartWorker) <==> msg is StartUpdate,
        app.effects(msg).contains(AppEffectView::ClearLog) <==> msg is StartUpdate,
        app.effects(msg).contains(AppEffectView::StopWorker) <==> msg is CancelUpdate && app.state
            == AppStateView::Updating,
        msg is CancelUpdate && app.state != AppStateView::Updating ==> app.effects(msg).len() == 0,
{
    let effects = app.effects(msg);
    if msg is StartUpdate {
        assert(effects[2] == AppEffectView::StartWorker);
        assert(effects[1] == AppEffectView::ClearLog);
    }
    if msg is CancelUpdate && app.state == AppStateView::Updating {
        assert(effects[0] == AppEffectView::StopWorker);
    }
}

/// Every state that the application takes on is shown, and a finished update is announced;
/// a line of output goes to the log and leaves the state alone. Only output and a new
/// start change what was printed.
pub proof fn law_states_are_shown(app: AppView, msg: AppMsgView)
    ensures
        !(msg is OutputLine) && !(msg is CancelUpdate) ==> app.effects(msg).len() > 0
            && app.effects(msg)[0] == AppEffectView::ShowState(app.step(msg).state),
        msg is UpdateComplete ==> app.effects(msg).contains(
            AppEffectView::Toast("System update complete"@),
        ),
        msg matches AppMsgView::OutputLine(line) ==> app.effects(msg) == seq![
            AppEffectView::AppendLog(line),
        ] && app.step(msg).log_lines == app.log_lines.push(line) && app.step(msg).state
            == app.state,
        !(msg is OutputLine) && !(msg is StartUpdate) ==> app.step(msg).log_lines
            == app.log_lines,
        msg is StartUpdate ==> app.step(msg).log_lines.len() == 0,
{
    if msg is UpdateComplete {
        assert(app.effects(msg)[1] == AppEffectView::Toast("System update complete"@));
    }
}

/// The messages that tell of the events of a run.
pub proof fn law_events_are_told(text: Seq<char>)
    ensures
        message_of(UpdateEventView::Output(text)) == AppMsgView::OutputLine(text),
        message_of(UpdateEventView::Complete) == AppMsgView::UpdateComplete,
        message_of(UpdateEventView::UpToDate) == AppMsgView::UpdateUpToDate,
        message_of(UpdateEventView::Error(text)) == AppMsgView::UpdateFailed(text),
{
}

/// There is an update exactly where the check exits with 0, none exactly where it exits
/// with 77, and otherwise nothing is known.
pub proof fn law_preflight(exit_code: Option<i32>)
    ensures
        preflight_finding(exit_code) == PreflightStatus::UpdateAvailable <==> exit_code == Some(
            0i32,
        ),
        preflight_finding(exit_code) == PreflightStatus::UpToDate <==> exit_code == Some(77i32),
        preflight_finding(exit_code) != PreflightStatus::Checking,
{
}

/// The window can be closed in every state but while an update is running.
pub proof fn law_window_closes(state: AppStateView)
    ensures
        closable(state) <==> state != AppStateView::Updating,
{
}

} // verus!
