//! The main view: what it knows, and how it answers to what happens.

use crate::app::{AppState, AppStateView, PreflightStatus};
use crate::changelog::{
    all_dated, changelog_page, commit_views, optional_diff, page_of, ChangelogPage,
    ChangelogPageView, Commit, CommitView,
};
use crate::deployment::{deployment_views, DeploymentView, MockDeployment};
use crate::history::{
    history_row, history_row_of, lemma_place_of, pin_message, place_of, toggle_pin,
    with_pin_toggled, HistoryRow, HistoryRowView,
};
use crate::log_view::{LogViewInput, LogViewInputView};
use crate::number::{decimal, padded, two_digits, u64_text};
use crate::registry_client::{version_views, ImageVersion, ImageVersionView};
use crate::sbom_diff::{SbomDiffResult, SbomDiffView};
use crate::segmented_progress::{
    same_segment, segment_of, Segment, SegmentStatus, SegmentedProgress,
};
use crate::text::{
    begins_with, contains_str, contains_text, law_split_concat, law_split_join,
    lemma_split_nonempty, optional_view, split, split_char, str_eq, strip_prefix, trim, trim_white,
    views,
};
use crate::update_list::{
    announced_module, append_line, detect_module_start, with_line, Module, UpdateListInput,
    UpdateListInputView,
};
use vstd::prelude::*;

verus! {

/// What the view learns of the system when the state changes.
#[derive(Debug, Clone)]
pub struct Surroundings {
    /// When the last update ran, in words.
    pub last_update_text: Option<String>,
    /// The name of the running image.
    pub image_info: Option<String>,
    /// The deployments on disk.
    pub deployments: Vec<MockDeployment>,
}

/// What can happen to the view.
#[derive(Debug, Clone)]
pub enum StatusViewInput {
    /// The application has another state.
    StateChanged(AppState, Surroundings),
    /// The update printed a line.
    AppendLog(String),
    /// The log is emptied.
    ClearLog,
    /// So many seconds have passed since the update began.
    TimerTick(u64),
    /// The check at the start is done.
    PreflightResult(PreflightStatus),
    /// The banner is dismissed.
    DismissBanner,
    /// The log is to be copied.
    CopyLog,
    /// Another page is to be shown.
    ShowPage(String),
    /// The address of the image is to be edited.
    EditRegistryUri,
    /// The address of the image was edited.
    SaveRegistryUri(String),
    /// Editing the address is given up.
    CancelRegistryUri,
    /// Another tag is chosen.
    SelectTag(String),
    /// A deployment is to be pinned or expanded, or the device reset.
    TogglePin(String),
    /// One wants to roll back to a deployment.
    RollbackTo(MockDeployment),
    /// Rolling back is confirmed.
    ConfirmRollback,
    /// A deployment is to be the default.
    SetDefaultBoot(MockDeployment),
    /// The changelog of a version is to be shown.
    SelectChangelogVersion(String),
    /// The builds of the image are known.
    RegistryVersionsLoaded(Vec<ImageVersion>),
    /// The commits of the image are known.
    GithubCommitsLoaded(Vec<Commit>),
    /// The changed packages are known.
    SbomDiffLoaded(SbomDiffResult),
}

/// What the view asks of the application.
#[derive(Debug, Clone)]
pub enum StatusViewOutput {
    StartUpdate,
    CancelUpdate,
    Reboot,
    ShowRebase,
    OpenCheckDialog,
    PageChanged(String),
}

/// What the view does in answer to an input.
#[derive(Debug, Clone)]
pub enum StatusEffect {
    /// Show a page of the view.
    ShowPage(String),
    /// Tell the list of modules.
    List(UpdateListInput),
    /// Tell the log.
    Log(LogViewInput),
    /// Show the time that has passed.
    Elapsed(String),
    /// Show the idle page anew.
    RefreshIdle,
    /// Show the history anew.
    RebuildHistory,
    /// Show the changelog anew.
    RebuildChangelog,
    /// Show why the update failed.
    ErrorText(String),
    /// Tell the user something in passing.
    Toast(String),
    /// Put a text on the clipboard.
    CopyText(String),
    /// Show or hide the editor for the address of the image.
    ShowEditor(bool),
    /// Put a text into that editor.
    EditorText(String),
    /// Show the address of the image.
    RegistryLabel(String),
    /// Show the name and the tag of the image.
    SourceLabel(String),
    /// Describe the tag.
    TagSubtitle(String),
    /// Learn the builds, commits and packages of an address and a tag.
    FetchChangelog(String, String),
    /// Ask whether to reset the settings.
    AskPowerwash,
    /// Ask whether to erase everything.
    AskFactoryReset,
    /// Ask whether to roll back: the question and what it means.
    AskRollback(String, String),
    /// Tell the application that another page is shown.
    PageChanged(String),
}

/// What an effect holds.
pub enum StatusEffectView {
    ShowPage(Seq<char>),
    List(UpdateListInputView),
    Log(LogViewInputView),
    Elapsed(Seq<char>),
    RefreshIdle,
    RebuildHistory,
    RebuildChangelog,
    ErrorText(Seq<char>),
    Toast(Seq<char>),
    CopyText(Seq<char>),
    ShowEditor(bool),
    EditorText(Seq<char>),
    RegistryLabel(Seq<char>),
    SourceLabel(Seq<char>),
    TagSubtitle(Seq<char>),
    FetchChangelog(Seq<char>, Seq<char>),
    AskPowerwash,
    AskFactoryReset,
    AskRollback(Seq<char>, Seq<char>),
    PageChanged(Seq<char>),
}

impl View for StatusEffect {
    type V = StatusEffectView;

    open spec fn view(&self) -> StatusEffectView {
        match self {
            StatusEffect::ShowPage(page) => StatusEffectView::ShowPage(page@),
            StatusEffect::List(input) => StatusEffectView::List(input@),
            StatusEffect::Log(input) => StatusEffectView::Log(input@),
            StatusEffect::Elapsed(text) => StatusEffectView::Elapsed(text@),
            StatusEffect::RefreshIdle => StatusEffectView::RefreshIdle,
            StatusEffect::RebuildHistory => StatusEffectView::RebuildHistory,
            StatusEffect::RebuildChangelog => StatusEffectView::RebuildChangelog,
            StatusEffect::ErrorText(text) => StatusEffectView::ErrorText(text@),
            StatusEffect::Toast(text) => StatusEffectView::Toast(text@),
            StatusEffect::CopyText(text) => StatusEffectView::CopyText(text@),
            StatusEffect::ShowEditor(shown) => StatusEffectView::ShowEditor(*shown),
            StatusEffect::EditorText(text) => StatusEffectView::EditorText(text@),
            StatusEffect::RegistryLabel(text) => StatusEffectView::RegistryLabel(text@),
            StatusEffect::SourceLabel(text) => StatusEffectView::SourceLabel(text@),
            StatusEffect::TagSubtitle(text) => StatusEffectView::TagSubtitle(text@),
            StatusEffect::FetchChangelog(uri, tag) => StatusEffectView::FetchChangelog(uri@, tag@),
            StatusEffect::AskPowerwash => StatusEffectView::AskPowerwash,
            StatusEffect::AskFactoryReset => StatusEffectView::AskFactoryReset,
            StatusEffect::AskRollback(heading, body) => StatusEffectView::AskRollback(
                heading@,
                body@,
            ),
            StatusEffect::PageChanged(page) => StatusEffectView::PageChanged(page@),
        }
    }
}

/// The views of a list of effects.
pub open spec fn status_effects(list: Seq<StatusEffect>) -> Seq<StatusEffectView> {
    list.map_values(|e: StatusEffect| e@)
}

/// The main view.
#[derive(Debug)]
pub struct StatusView {
    pub state: AppState,
    /// Whether an update is being timed.
    pub timing: bool,
    /// Everything that the update printed.
    pub log_text: String,
    pub preflight_status: PreflightStatus,
    pub last_update_text: Option<String>,
    pub image_info: Option<String>,
    pub segments: SegmentedProgress,
    pub active_module: Option<Module>,
    pub reboot_pending: bool,
    pub registry_uri: String,
    pub registry_editing: bool,
    pub selected_tag: String,
    pub deployments: Vec<MockDeployment>,
    pub expanded_deployment_id: Option<String>,
    pub changelog_version: String,
    pub registry_versions: Vec<ImageVersion>,
    pub github_commits: Vec<Commit>,
    pub sbom_diff: Option<SbomDiffResult>,
    pub rollback_target: Option<MockDeployment>,
}

/// What the view holds.
#[verifier::ext_equal]
pub struct StatusModel {
    pub state: AppStateView,
    pub timing: bool,
    pub log_text: Seq<char>,
    pub preflight_status: PreflightStatus,
    pub last_update_text: Option<Seq<char>>,
    pub image_info: Option<Seq<char>>,
    pub segments: SegmentedProgress,
    pub active_module: Option<Module>,
    pub reboot_pending: bool,
    pub registry_uri: Seq<char>,
    pub registry_editing: bool,
    pub selected_tag: Seq<char>,
    pub deployments: Seq<DeploymentView>,
    pub expanded_deployment_id: Option<Seq<char>>,
    pub changelog_version: Seq<char>,
    pub registry_versions: Seq<ImageVersionView>,
    pub github_commits: Seq<CommitView>,
    pub sbom_diff: Option<SbomDiffView>,
    pub rollback_target: Option<DeploymentView>,
}

/// The view of a deployment that may be missing.
pub open spec fn optional_deployment(d: Option<MockDeployment>) -> Option<DeploymentView> {
    match d {
        Some(deployment) => Some(deployment@),
        None => None,
    }
}

impl View for StatusView {
    type V = StatusModel;

    open spec fn view(&self) -> StatusModel {
        StatusModel {
            state: self.state@,
            timing: self.timing,
            log_text: self.log_text@,
            preflight_status: self.preflight_status,
            last_update_text: optional_view(self.last_update_text),
            image_info: optional_view(self.image_info),
            segments: self.segments,
            active_module: self.active_module,
            reboot_pending: self.reboot_pending,
            registry_uri: self.registry_uri@,
            registry_editing: self.registry_editing,
            selected_tag: self.selected_tag@,
            deployments: deployment_views(self.deployments@),
            expanded_deployment_id: optional_view(self.expanded_deployment_id),
            changelog_version: self.changelog_version@,
            registry_versions: version_views(self.registry_versions@),
            github_commits: commit_views(self.github_commits@),
            sbom_diff: optional_diff(self.sbom_diff),
            rollback_target: optional_deployment(self.rollback_target),
        }
    }
}

/// The page of a state.
pub open spec fn page_of_state(state: AppStateView) -> Seq<char> {
    match state {
        AppStateView::Idle => "idle"@,
        AppStateView::Updating => "updating"@,
        AppStateView::Complete => "complete"@,
        AppStateView::UpToDate => "up_to_date"@,
        AppStateView::Error(_) => "error"@,
    }
}

/// Minutes and seconds.
pub open spec fn elapsed_label(seconds: nat) -> Seq<char> {
    decimal(seconds / 60) + ":"@ + padded(seconds % 60, 2)
}

/// Minutes and seconds.
pub fn elapsed_text(seconds: u64) -> (res: String)
    ensures
        res@ == elapsed_label(seconds as nat),
{
    let mut text: String = u64_text(seconds / 60);
    text.append(":");
    text.append(two_digits(seconds % 60).as_str());
    text
}

/// The last part of an address.
pub open spec fn last_part(uri: Seq<char>) -> Seq<char> {
    split(uri, '/').last()
}

/// The name and the tag of the image.
pub open spec fn source_label(uri: Seq<char>, tag: Seq<char>) -> Seq<char> {
    last_part(uri) + ":"@ + tag
}

/// The name and the tag of the image.
pub fn source_text(uri: &str, tag: &str) -> (res: String)
    ensures
        res@ == source_label(uri@, tag@),
{
    let parts = split_char(uri, '/');
    proof {
        lemma_split_nonempty(uri@, '/');
        assert(views(parts@).len() == parts@.len());
        assert(views(parts@).last() == parts@.last()@);
    }
    let mut text: String = parts[parts.len() - 1].to_owned();
    text.append(":");
    text.append(tag);
    text
}

/// What a tag stands for.
pub open spec fn tag_meaning(tag: Seq<char>) -> Seq<char> {
    if tag == "latest"@ {
        "Always the newest stable release"@
    } else if tag == "42"@ {
        "Pinned to Fedora 42"@
    } else if tag == "41"@ {
        "Pinned to Fedora 41 (older)"@
    } else if tag == "testing"@ {
        "Pre-release builds — may be unstable"@
    } else if tag == "rawhide"@ {
        "Bleeding edge — not for daily use"@
    } else {
        "Custom tag"@
    }
}

/// What a tag stands for.
pub fn tag_description(tag: &str) -> (res: &'static str)
    ensures
        res@ == tag_meaning(tag@),
{
    if str_eq(tag, "latest") {
        "Always the newest stable release"
    } else if str_eq(tag, "42") {
        "Pinned to Fedora 42"
    } else if str_eq(tag, "41") {
        "Pinned to Fedora 41 (older)"
    } else if str_eq(tag, "testing") {
        "Pre-release builds — may be unstable"
    } else if str_eq(tag, "rawhide") {
        "Bleeding edge — not for daily use"
    } else {
        "Custom tag"
    }
}

/// The line reports an error.
pub open spec fn reports_error(line: Seq<char>) -> bool {
    contains_text(line, "level=ERROR"@) || contains_text(line, "level=error"@)
}

impl StatusModel {
    /// The bar after a line of output. A segment is complete only when another one
    /// begins.
    pub open spec fn segments_after(self, line: Seq<char>) -> SegmentedProgress {
        match announced_module(line) {
            Some(next) => match self.active_module {
                Some(previous) => if segment_of(previous) == segment_of(next) {
                    self.segments
                } else {
                    self.segments.with_segment(
                        segment_of(previous),
                        SegmentStatus::Complete,
                    ).with_segment(segment_of(next), SegmentStatus::Active)
                },
                None => self.segments.with_segment(segment_of(next), SegmentStatus::Active),
            },
            None => match self.active_module {
                Some(active) => if reports_error(line) {
                    self.segments.with_segment(segment_of(active), SegmentStatus::Failed)
                } else {
                    self.segments
                },
                None => self.segments,
            },
        }
    }

    /// The view after a line of output.
    pub open spec fn with_output(self, line: Seq<char>) -> StatusModel {
        StatusModel {
            log_text: with_line(self.log_text, line),
            segments: self.segments_after(line),
            active_module: match announced_module(line) {
                Some(next) => Some(next),
                None => self.active_module,
            },
            ..self
        }
    }

    /// The view in another state of the application.
    pub open spec fn with_state(
        self,
        state: AppStateView,
        last_update_text: Option<Seq<char>>,
        image_info: Option<Seq<char>>,
        deployments: Seq<DeploymentView>,
    ) -> StatusModel {
        let timed = StatusModel { state, timing: state is Updating, ..self };
        match state {
            AppStateView::Updating => StatusModel {
                segments: SegmentedProgress::uniform(SegmentStatus::Pending),
                active_module: None,
                reboot_pending: false,
                ..timed
            },
            AppStateView::Complete => StatusModel {
                segments: SegmentedProgress::uniform(SegmentStatus::Complete),
                active_module: None,
                preflight_status: PreflightStatus::UpToDate,
                reboot_pending: true,
                deployments,
                ..timed
            },
            AppStateView::Error(_) => StatusModel {
                segments: match self.active_module {
                    Some(active) => self.segments.with_segment(
                        segment_of(active),
                        SegmentStatus::Failed,
                    ),
                    None => self.segments,
                },
                active_module: None,
                ..timed
            },
            AppStateView::UpToDate => StatusModel {
                preflight_status: PreflightStatus::UpToDate,
                reboot_pending: false,
                ..timed
            },
            AppStateView::Idle => StatusModel { last_update_text, image_info, ..timed },
        }
    }

    /// The view with another deployment expanded, or with none where it was expanded.
    pub open spec fn with_expanded(self, id: Seq<char>) -> StatusModel {
        StatusModel {
            expanded_deployment_id: if self.expanded_deployment_id == Some(id) {
                None
            } else {
                Some(id)
            },
            ..self
        }
    }

    /// The view after the wish to pin, to expand or to reset.
    pub open spec fn with_action(self, action: Seq<char>) -> StatusModel {
        if begins_with(action, "expand:"@) {
            self.with_expanded(action.skip("expand:"@.len() as int))
        } else if action == "powerwash"@ || action == "factory"@ {
            self
        } else {
            StatusModel { deployments: with_pin_toggled(self.deployments, action), ..self }
        }
    }

    /// What the view does after the wish to pin, to expand or to reset.
    pub open spec fn action_effects(self, action: Seq<char>) -> Seq<StatusEffectView> {
        if begins_with(action, "expand:"@) {
            seq![StatusEffectView::RebuildHistory]
        } else if action == "powerwash"@ {
            seq![StatusEffectView::AskPowerwash]
        } else if action == "factory"@ {
            seq![StatusEffectView::AskFactoryReset]
        } else {
            let i = place_of(self.deployments, action);
            if i < self.deployments.len() {
                seq![
                    StatusEffectView::Toast(
                        pin_message(with_pin_toggled(self.deployments, action)[i]),
                    ),
                    StatusEffectView::RebuildHistory,
                ]
            } else {
                seq![StatusEffectView::RebuildHistory]
            }
        }
    }

    /// The view after an input.
    pub open spec fn step(self, input: StatusViewInput) -> StatusModel {
        match input {
            StatusViewInput::StateChanged(state, now) => self.with_state(
                state@,
                optional_view(now.last_update_text),
                optional_view(now.image_info),
                deployment_views(now.deployments@),
            ),
            StatusViewInput::AppendLog(line) => self.with_output(line@),
            StatusViewInput::ClearLog => StatusModel { log_text: Seq::empty(), ..self },
            StatusViewInput::TimerTick(_) => self,
            StatusViewInput::PreflightResult(status) => StatusModel {
                preflight_status: status,
                ..self
            },
            StatusViewInput::DismissBanner => StatusModel {
                reboot_pending: false,
                preflight_status: PreflightStatus::UpToDate,
                ..self
            },
            StatusViewInput::CopyLog => self,
            StatusViewInput::ShowPage(_) => self,
            StatusViewInput::EditRegistryUri => StatusModel { registry_editing: true, ..self },
            StatusViewInput::SaveRegistryUri(uri) => StatusModel {
                registry_uri: if trim_white(uri@).len() > 0 {
                    uri@
                } else {
                    self.registry_uri
                },
                registry_editing: false,
                ..self
            },
            StatusViewInput::CancelRegistryUri => StatusModel { registry_editing: false, ..self },
            StatusViewInput::SelectTag(tag) => StatusModel { selected_tag: tag@, ..self },
            StatusViewInput::TogglePin(action) => self.with_action(action@),
            StatusViewInput::RollbackTo(d) => StatusModel { rollback_target: Some(d@), ..self },
            StatusViewInput::ConfirmRollback => StatusModel { rollback_target: None, ..self },
            StatusViewInput::SetDefaultBoot(_) => self,
            StatusViewInput::SelectChangelogVersion(version) => StatusModel {
                changelog_version: version@,
                ..self
            },
            StatusViewInput::RegistryVersionsLoaded(list) => StatusModel {
                registry_versions: version_views(list@),
                changelog_version: if list@.len() > 0 {
                    list@.last().version@
                } else {
                    self.changelog_version
                },
                ..self
            },
            StatusViewInput::GithubCommitsLoaded(list) => StatusModel {
                github_commits: commit_views(list@),
                ..self
            },
            StatusViewInput::SbomDiffLoaded(diff) => StatusModel {
                sbom_diff: Some(diff@),
                ..self
            },
        }
    }

    /// What the view does in answer to an input.
    pub open spec fn effects(self, input: StatusViewInput) -> Seq<StatusEffectView> {
        match input {
            StatusViewInput::StateChanged(state, _) => seq![
                StatusEffectView::ShowPage(page_of_state(state@)),
            ] + match state@ {
                AppStateView::Updating => seq![
                    StatusEffectView::Elapsed("0:00"@),
                    StatusEffectView::List(UpdateListInputView::Reset),
                ],
                AppStateView::Complete => seq![
                    StatusEffectView::List(UpdateListInputView::MarkAllComplete),
                    StatusEffectView::RefreshIdle,
                    StatusEffectView::RebuildHistory,
                ],
                AppStateView::Error(message) => seq![
                    StatusEffectView::List(UpdateListInputView::MarkCurrentFailed),
                    StatusEffectView::ErrorText(message),
                ],
                AppStateView::UpToDate => seq![StatusEffectView::RefreshIdle],
                AppStateView::Idle => seq![StatusEffectView::RefreshIdle],
            },
            StatusViewInput::AppendLog(line) => seq![
                StatusEffectView::List(UpdateListInputView::ProcessLine(line@)),
                StatusEffectView::Log(LogViewInputView::AppendLine(line@)),
            ],
            StatusViewInput::ClearLog => seq![StatusEffectView::Log(LogViewInputView::Clear)],
            StatusViewInput::TimerTick(seconds) => if self.timing {
                seq![StatusEffectView::Elapsed(elapsed_label(seconds as nat))]
            } else {
                Seq::empty()
            },
            StatusViewInput::PreflightResult(_) => seq![StatusEffectView::RefreshIdle],
            StatusViewInput::DismissBanner => seq![StatusEffectView::RefreshIdle],
            StatusViewInput::CopyLog => seq![
                StatusEffectView::CopyText(self.log_text),
                StatusEffectView::Toast("Log copied to clipboard"@),
            ],
            StatusViewInput::ShowPage(page) => seq![
                StatusEffectView::ShowPage(
                    if page@ == "main"@ || page@ == "idle"@ {
                        "idle"@
                    } else {
                        page@
                    },
                ),
                StatusEffectView::PageChanged(page@),
            ],
            StatusViewInput::EditRegistryUri => seq![
                StatusEffectView::ShowEditor(true),
                StatusEffectView::EditorText(self.registry_uri),
            ],
            StatusViewInput::SaveRegistryUri(uri) => if trim_white(uri@).len() > 0 {
                seq![
                    StatusEffectView::RegistryLabel(uri@),
                    StatusEffectView::SourceLabel(source_label(uri@, self.selected_tag)),
                    StatusEffectView::Toast("Image source updated"@),
                    StatusEffectView::FetchChangelog(uri@, self.selected_tag),
                    StatusEffectView::ShowEditor(false),
                ]
            } else {
                seq![StatusEffectView::ShowEditor(false)]
            },
            StatusViewInput::CancelRegistryUri => seq![StatusEffectView::ShowEditor(false)],
            StatusViewInput::SelectTag(tag) => seq![
                StatusEffectView::TagSubtitle(tag_meaning(tag@)),
                StatusEffectView::SourceLabel(source_label(self.registry_uri, tag@)),
                StatusEffectView::Toast("Tag set to :"@ + tag@),
                StatusEffectView::FetchChangelog(self.registry_uri, tag@),
            ],
            StatusViewInput::TogglePin(action) => self.action_effects(action@),
            StatusViewInput::RollbackTo(d) => seq![
                StatusEffectView::AskRollback(
                    "Roll back to "@ + d@.tag + "?"@,
                    "The next boot will use "@ + d@.image + ":"@ + d@.tag
                        + ".\nYour current image stays on disk and remains available to roll forward."@,
                ),
            ],
            StatusViewInput::ConfirmRollback => match self.rollback_target {
                Some(d) => seq![StatusEffectView::Toast("Rolling back to "@ + d.tag + "…"@)],
                None => Seq::empty(),
            },
            StatusViewInput::SetDefaultBoot(d) => seq![
                StatusEffectView::Toast("Set "@ + d@.tag + " as default boot"@),
            ],
            StatusViewInput::SelectChangelogVersion(_) => seq![
                StatusEffectView::RebuildChangelog,
                StatusEffectView::ShowPage("changelog"@),
                StatusEffectView::PageChanged("changelog"@),
            ],
            StatusViewInput::RegistryVersionsLoaded(_) => seq![StatusEffectView::RebuildChangelog],
            StatusViewInput::GithubCommitsLoaded(_) => seq![StatusEffectView::RebuildChangelog],
            StatusViewInput::SbomDiffLoaded(_) => seq![StatusEffectView::RebuildChangelog],
        }
    }
}

/// The view at the start.
pub open spec fn initial_model(
    state: AppStateView,
    registry_uri: Option<Seq<char>>,
    selected_tag: Seq<char>,
    last_update_text: Option<Seq<char>>,
    image_info: Option<Seq<char>>,
    deployments: Seq<DeploymentView>,
) -> StatusModel {
    StatusModel {
        state,
        timing: false,
        log_text: Seq::empty(),
        preflight_status: PreflightStatus::Checking,
        last_update_text,
        image_info,
        segments: SegmentedProgress::uniform(SegmentStatus::Pending),
        active_module: None,
        reboot_pending: false,
        registry_uri: match registry_uri {
            Some(uri) => uri,
            None => "quay.io/fedora/fedora-bootc"@,
        },
        registry_editing: false,
        selected_tag,
        deployments,
        expanded_deployment_id: None,
        changelog_version: "43"@,
        registry_versions: Seq::empty(),
        github_commits: Seq::empty(),
        sbom_diff: None,
        rollback_target: None,
    }
}

/// Builds that an input brings have days and times that exist.
pub open spec fn input_valid(input: StatusViewInput) -> bool {
    input matches StatusViewInput::RegistryVersionsLoaded(list) ==> all_dated(list@)
}

impl StatusView {
    /// The known builds have days and times that exist.
    pub open spec fn wf(&self) -> bool {
        all_dated(self.registry_versions@)
    }

    /// The view at the start, with what is known of the system.
    pub fn new(
        state: AppState,
        registry_uri: Option<String>,
        selected_tag: String,
        now: Surroundings,
    ) -> (res: StatusView)
        ensures
            res.wf(),
            res@ == initial_model(
                state@,
                match registry_uri {
                    Some(uri) => Some(uri@),
                    None => None,
                },
                selected_tag@,
                optional_view(now.last_update_text),
                optional_view(now.image_info),
                deployment_views(now.deployments@),
            ),
    {
        let uri: String = match registry_uri {
            Some(u) => u,
            None => "quay.io/fedora/fedora-bootc".to_owned(),
        };
        let view = StatusView {
            state,
            timing: false,
            log_text: String::new(),
            preflight_status: PreflightStatus::Checking,
            last_update_text: now.last_update_text,
            image_info: now.image_info,
            segments: SegmentedProgress::all(SegmentStatus::Pending),
            active_module: None,
            reboot_pending: false,
            registry_uri: uri,
            registry_editing: false,
            selected_tag,
            deployments: now.deployments,
            expanded_deployment_id: None,
            changelog_version: "43".to_owned(),
            registry_versions: Vec::new(),
            github_commits: Vec::new(),
            sbom_diff: None,
            rollback_target: None,
        };
        proof {
            assert(view@.log_text =~= Seq::empty());
            assert(view@.registry_versions =~= Seq::empty());
            assert(view@.github_commits =~= Seq::empty());
        }
        view
    }

    fn change_state(&mut self, state: AppState, now: Surroundings) -> (res: Vec<StatusEffect>)
        requires
            old(self).wf(),
        ensures
            final(self).wf(),
            final(self)@ == old(self)@.step(StatusViewInput::StateChanged(state, now)),
            status_effects(res@) == old(self)@.effects(StatusViewInput::StateChanged(state, now)),
    {
        let ghost before = self@;
        let mut effects: Vec<StatusEffect> = Vec::new();
        match &state {
            AppState::Updating => {
                effects.push(StatusEffect::ShowPage("updating".to_owned()));
                effects.push(StatusEffect::Elapsed("0:00".to_owned()));
                effects.push(StatusEffect::List(UpdateListInput::Reset));
                self.timing = true;
                self.segments = SegmentedProgress::all(SegmentStatus::Pending);
                self.active_module = None;
                self.reboot_pending = false;
            },
            AppState::Complete => {
                effects.push(StatusEffect::ShowPage("complete".to_owned()));
                effects.push(StatusEffect::List(UpdateListInput::MarkAllComplete));
                effects.push(StatusEffect::RefreshIdle);
                effects.push(StatusEffect::RebuildHistory);
                self.timing = false;
                self.segments = SegmentedProgress::all(SegmentStatus::Complete);
                self.active_module = None;
                self.preflight_status = PreflightStatus::UpToDate;
                self.reboot_pending = true;
                self.deployments = now.deployments;
            },
            AppState::Error(message) => {
                effects.push(StatusEffect::ShowPage("error".to_owned()));
                effects.push(StatusEffect::List(UpdateListInput::MarkCurrentFailed));
                effects.push(StatusEffect::ErrorText(message.as_str().to_owned()));
                self.timing = false;
                if let Some(active) = self.active_module {
                    self.segments = self.segments.with_module(active, SegmentStatus::Failed);
                }
                self.active_module = None;
            },
            AppState::UpToDate => {
                effects.push(StatusEffect::ShowPage("up_to_date".to_owned()));
                effects.push(StatusEffect::RefreshIdle);
                self.timing = false;
                self.preflight_status = PreflightStatus::UpToDate;
                self.reboot_pending = false;
            },
            AppState::Idle => {
                effects.push(StatusEffect::ShowPage("idle".to_owned()));
                effects.push(StatusEffect::RefreshIdle);
                self.timing = false;
                self.last_update_text = now.last_update_text;
                self.image_info = now.image_info;
            },
        }
        self.state = state;
        proof {
            let input = StatusViewInput::StateChanged(state, now);
            assert(self@ =~= before.step(input));
            assert(status_effects(effects@) =~= before.effects(input));
        }
        effects
    }

    fn append_log(&mut self, line: &str)
        requires
            old(self).wf(),
        ensures
            final(self).wf(),
            final(self)@ == old(self)@.with_output(line@),
    {
        let ghost before = self@;
        self.log_text = append_line(self.log_text.as_str(), line);
        if let Some(next) = detect_module_start(line) {
            let same: bool = match self.active_module {
                Some(previous) => same_segment(previous, next),
                None => false,
            };
            if !same {
                if let Some(previous) = self.active_module {
                    self.segments = self.segments.with_module(previous, SegmentStatus::Complete);
                }
                self.segments = self.segments.with_module(next, SegmentStatus::Active);
            }
            self.active_module = Some(next);
        } else if contains_str(line, "level=ERROR") || contains_str(line, "level=error") {
            if let Some(active) = self.active_module {
                self.segments = self.segments.with_module(active, SegmentStatus::Failed);
            }
        }
        assert(self@ =~= before.with_output(line@));
    }

    fn take_action(&mut self, action: String) -> (res: Vec<StatusEffect>)
        requires
            old(self).wf(),
        ensures
            final(self).wf(),
            final(self)@ == old(self)@.with_action(action@),
            status_effects(res@) == old(self)@.action_effects(action@),
    {
        let ghost before = self@;
        let mut effects: Vec<StatusEffect> = Vec::new();
        if let Some(id) = strip_prefix(action.as_str(), "expand:") {
            let shown: bool = match &self.expanded_deployment_id {
                Some(e) => str_eq(e.as_str(), id),
                None => false,
            };
            self.expanded_deployment_id = if shown {
                None
            } else {
                Some(id.to_owned())
            };
            effects.push(StatusEffect::RebuildHistory);
        } else if str_eq(action.as_str(), "powerwash") {
            effects.push(StatusEffect::AskPowerwash);
        } else if str_eq(action.as_str(), "factory") {
            effects.push(StatusEffect::AskFactoryReset);
        } else {
            if let Some(text) = toggle_pin(&mut self.deployments, action.as_str()) {
                effects.push(StatusEffect::Toast(text));
            }
            effects.push(StatusEffect::RebuildHistory);
        }
        proof {
            assert(before.deployments.len() == self@.deployments.len());
            assert(self@ =~= before.with_action(action@));
            assert(status_effects(effects@) =~= before.action_effects(action@));
        }
        effects
    }

    /// Takes an input and tells what to do.
    pub fn update(&mut self, input: StatusViewInput) -> (res: Vec<StatusEffect>)
        requires
            old(self).wf(),
            input_valid(input),
        ensures
            final(self).wf(),
            final(self)@ == old(self)@.step(input),
            status_effects(res@) == old(self)@.effects(input),
    {
        let ghost before = self@;
        let ghost given = input;
        let mut effects: Vec<StatusEffect> = Vec::new();
        match input {
            StatusViewInput::StateChanged(state, now) => {
                return self.change_state(state, now);
            },
            StatusViewInput::AppendLog(line) => {
                self.append_log(line.as_str());
                effects.push(
                    StatusEffect::List(UpdateListInput::ProcessLine(line.as_str().to_owned())),
                );
                effects.push(StatusEffect::Log(LogViewInput::AppendLine(line)));
            },
            StatusViewInput::ClearLog => {
                self.log_text = String::new();
                assert(self@.log_text =~= Seq::empty());
                effects.push(StatusEffect::Log(LogViewInput::Clear));
            },
            StatusViewInput::TimerTick(seconds) => {
                if self.timing {
                    effects.push(StatusEffect::Elapsed(elapsed_text(seconds)));
                }
            },
            StatusViewInput::PreflightResult(status) => {
                self.preflight_status = status;
                effects.push(StatusEffect::RefreshIdle);
            },
            StatusViewInput::DismissBanner => {
                self.reboot_pending = false;
                self.preflight_status = PreflightStatus::UpToDate;
                effects.push(StatusEffect::RefreshIdle);
            },
            StatusViewInput::CopyLog => {
                effects.push(StatusEffect::CopyText(self.log_text.as_str().to_owned()));
                effects.push(StatusEffect::Toast("Log copied to clipboard".to_owned()));
            },
            StatusViewInput::ShowPage(page) => {
                let target: String = if str_eq(page.as_str(), "main") || str_eq(
                    page.as_str(),
                    "idle",
                ) {
                    "idle".to_owned()
                } else {
                    page.as_str().to_owned()
                };
                effects.push(StatusEffect::ShowPage(target));
                effects.push(StatusEffect::PageChanged(page));
            },
            StatusViewInput::EditRegistryUri => {
                self.registry_editing = true;
                effects.push(StatusEffect::ShowEditor(true));
                effects.push(StatusEffect::EditorText(self.registry_uri.as_str().to_owned()));
            },
            StatusViewInput::SaveRegistryUri(uri) => {
                if trim(uri.as_str()).unicode_len() > 0 {
                    effects.push(StatusEffect::RegistryLabel(uri.as_str().to_owned()));
                    effects.push(
                        StatusEffect::SourceLabel(
                            source_text(uri.as_str(), self.selected_tag.as_str()),
                        ),
                    );
                    effects.push(StatusEffect::Toast("Image source updated".to_owned()));
                    effects.push(
                        StatusEffect::FetchChangelog(
                            uri.as_str().to_owned(),
                            self.selected_tag.as_str().to_owned(),
                        ),
                    );
                    self.registry_uri = uri;
                }
                self.registry_editing = false;
                effects.push(StatusEffect::ShowEditor(false));
            },
            StatusViewInput::CancelRegistryUri => {
                self.registry_editing = false;
                effects.push(StatusEffect::ShowEditor(false));
            },
            StatusViewInput::SelectTag(tag) => {
                effects.push(StatusEffect::TagSubtitle(tag_description(tag.as_str()).to_owned()));
                effects.push(
                    StatusEffect::SourceLabel(
                        source_text(self.registry_uri.as_str(), tag.as_str()),
                    ),
                );
                let mut text: String = "Tag set to :".to_owned();
                text.append(tag.as_str());
                effects.push(StatusEffect::Toast(text));
                effects.push(
                    StatusEffect::FetchChangelog(
                        self.registry_uri.as_str().to_owned(),
                        tag.as_str().to_owned(),
                    ),
                );
                self.selected_tag = tag;
            },
            StatusViewInput::TogglePin(action) => {
                return self.take_action(action);
            },
            StatusViewInput::RollbackTo(d) => {
                let mut heading: String = "Roll back to ".to_owned();
                heading.append(d.tag.as_str());
                heading.append("?");
                let mut body: String = "The next boot will use ".to_owned();
                body.append(d.image.as_str());
                body.append(":");
                body.append(d.tag.as_str());
                body.append(
                    ".\nYour current image stays on disk and remains available to roll forward.",
                );
                effects.push(StatusEffect::AskRollback(heading, body));
                self.rollback_target = Some(d);
            },
            StatusViewInput::ConfirmRollback => {
                if let Some(d) = &self.rollback_target {
                    let mut text: String = "Rolling back to ".to_owned();
                    text.append(d.tag.as_str());
                    text.append("…");
                    effects.push(StatusEffect::Toast(text));
                }
                self.rollback_target = None;
            },
            StatusViewInput::SetDefaultBoot(d) => {
                let mut text: String = "Set ".to_owned();
                text.append(d.tag.as_str());
                text.append(" as default boot");
                effects.push(StatusEffect::Toast(text));
            },
            StatusViewInput::SelectChangelogVersion(version) => {
                self.changelog_version = version;
                effects.push(StatusEffect::RebuildChangelog);
                effects.push(StatusEffect::ShowPage("changelog".to_owned()));
                effects.push(StatusEffect::PageChanged("changelog".to_owned()));
            },
            StatusViewInput::RegistryVersionsLoaded(list) => {
                if list.len() > 0 {
                    self.changelog_version = list[list.len() - 1].version.as_str().to_owned();
                }
                self.registry_versions = list;
                effects.push(StatusEffect::RebuildChangelog);
            },
            StatusViewInput::GithubCommitsLoaded(list) => {
                self.github_commits = list;
                effects.push(StatusEffect::RebuildChangelog);
            },
            StatusViewInput::SbomDiffLoaded(diff) => {
                self.sbom_diff = Some(diff);
                effects.push(StatusEffect::RebuildChangelog);
            },
        }
        proof {
            assert(self@ =~= before.step(given));
            assert(status_effects(effects@) =~= before.effects(given));
        }
        effects
    }
}

/// The banner of the idle page.
#[derive(Debug, Clone)]
pub struct Banner {
    pub title: &'static str,
    pub subtitle: &'static str,
    /// Whether it offers to install and to show what is new.
    pub offers_install: bool,
    /// Whether it offers to restart and to discard.
    pub offers_restart: bool,
}

/// What a banner holds.
#[verifier::ext_equal]
pub struct BannerView {
    pub title: Seq<char>,
    pub subtitle: Seq<char>,
    pub offers_install: bool,
    pub offers_restart: bool,
}

/// What the idle page shows.
#[derive(Debug, Clone)]
pub struct IdlePage {
    pub title: String,
    pub subtitle: String,
    /// The words of the status pill.
    pub pill: &'static str,
    /// The style of the status pill.
    pub pill_class: &'static str,
    pub banner: Option<Banner>,
}

/// What the idle page holds.
#[verifier::ext_equal]
pub struct IdlePageView {
    pub title: Seq<char>,
    pub subtitle: Seq<char>,
    pub pill: Seq<char>,
    pub pill_class: Seq<char>,
    pub banner: Option<BannerView>,
}

impl View for Banner {
    type V = BannerView;

    open spec fn view(&self) -> BannerView {
        BannerView {
            title: self.title@,
            subtitle: self.subtitle@,
            offers_install: self.offers_install,
            offers_restart: self.offers_restart,
        }
    }
}

impl View for IdlePage {
    type V = IdlePageView;

    open spec fn view(&self) -> IdlePageView {
        IdlePageView {
            title: self.title@,
            subtitle: self.subtitle@,
            pill: self.pill@,
            pill_class: self.pill_class@,
            banner: match self.banner {
                Some(b) => Some(b@),
                None => None,
            },
        }
    }
}

impl StatusModel {
    /// When the last update ran, or that a reboot is needed.
    pub open spec fn idle_note(self) -> Seq<char> {
        if self.reboot_pending {
            "Reboot to update"@
        } else {
            match self.last_update_text {
                Some(text) => text,
                None => "Booted 3 days ago"@,
            }
        }
    }

    /// The words and the style of the status pill.
    pub open spec fn pill(self) -> (Seq<char>, Seq<char>) {
        if self.reboot_pending {
            ("Staged"@, "status-pill-staged"@)
        } else {
            match self.preflight_status {
                PreflightStatus::UpdateAvailable => ("Update ready"@, "status-pill-ready"@),
                PreflightStatus::UpToDate => ("Up to date"@, "status-pill-ok"@),
                PreflightStatus::Checking => ("Checking"@, "dim-label"@),
                PreflightStatus::Unknown => ("Ready"@, "dim-label"@),
            }
        }
    }

    /// The banner, where something is to be done.
    pub open spec fn banner(self) -> Option<BannerView> {
        if self.reboot_pending {
            Some(
                BannerView {
                    title: "Reboot to finish updating"@,
                    subtitle: "Next boot uses version 43."@,
                    offers_install: false,
                    offers_restart: true,
                },
            )
        } else if self.preflight_status == PreflightStatus::UpdateAvailable {
            Some(
                BannerView {
                    title: "Version 43 available"@,
                    subtitle: "Includes a kernel update. 412 MB."@,
                    offers_install: true,
                    offers_restart: false,
                },
            )
        } else {
            None
        }
    }

    /// What the idle page shows.
    pub open spec fn idle_page(self) -> IdlePageView {
        IdlePageView {
            title: match self.image_info {
                Some(name) => name,
                None => "Fedora bootc"@,
            },
            subtitle: "Version "@ + (if self.reboot_pending {
                "43"@
            } else {
                self.selected_tag
            }) + "  ·  "@ + self.idle_note(),
            pill: self.pill().0,
            pill_class: self.pill().1,
            banner: self.banner(),
        }
    }

    /// What the changelog shows of the chosen version.
    pub open spec fn changelog(self, booted_tag: Seq<char>) -> ChangelogPageView {
        page_of(
            self.changelog_version,
            self.registry_uri,
            self.registry_versions,
            self.github_commits,
            self.sbom_diff,
            booted_tag,
            self.reboot_pending,
            self.preflight_status,
        )
    }

    /// The rows of the history.
    pub open spec fn history_rows(self) -> Seq<HistoryRowView> {
        self.deployments.map_values(
            |d: DeploymentView| history_row_of(d, self.expanded_deployment_id),
        )
    }
}

impl StatusView {
    /// The name of the running image.
    fn hero_title(&self) -> (res: String)
        ensures
            res@ == self@.idle_page().title,
    {
        match &self.image_info {
            Some(name) => name.as_str().to_owned(),
            None => "Fedora bootc".to_owned(),
        }
    }

    /// When the last update ran, or that a reboot is needed.
    fn idle_subtitle(&self) -> (res: String)
        ensures
            res@ == self@.idle_note(),
    {
        if self.reboot_pending {
            "Reboot to update".to_owned()
        } else {
            match &self.last_update_text {
                Some(text) => text.as_str().to_owned(),
                None => "Booted 3 days ago".to_owned(),
            }
        }
    }

    /// What the idle page shows.
    pub fn idle_page(&self) -> (res: IdlePage)
        ensures
            res@ == self@.idle_page(),
    {
        let mut subtitle: String = "Version ".to_owned();
        if self.reboot_pending {
            subtitle.append("43");
        } else {
            subtitle.append(self.selected_tag.as_str());
        }
        subtitle.append("  ·  ");
        subtitle.append(self.idle_subtitle().as_str());
        let (pill, pill_class): (&'static str, &'static str) = if self.reboot_pending {
            ("Staged", "status-pill-staged")
        } else {
            match self.preflight_status {
                PreflightStatus::UpdateAvailable => ("Update ready", "status-pill-ready"),
                PreflightStatus::UpToDate => ("Up to date", "status-pill-ok"),
                PreflightStatus::Checking => ("Checking", "dim-label"),
                PreflightStatus::Unknown => ("Ready", "dim-label"),
            }
        };
        let banner: Option<Banner> = if self.reboot_pending {
            Some(
                Banner {
                    title: "Reboot to finish updating",
                    subtitle: "Next boot uses version 43.",
                    offers_install: false,
                    offers_restart: true,
                },
            )
        } else if self.preflight_status == PreflightStatus::UpdateAvailable {
            Some(
                Banner {
                    title: "Version 43 available",
                    subtitle: "Includes a kernel update. 412 MB.",
                    offers_install: true,
                    offers_restart: false,
                },
            )
        } else {
            None
        };
        IdlePage { title: self.hero_title(), subtitle, pill, pill_class, banner }
    }

    /// The rows of the history.
    pub fn history_rows(&self) -> (res: Vec<HistoryRow>)
        ensures
            res@.map_values(|r: HistoryRow| r@) == self@.history_rows(),
    {
        let ghost want = self@.history_rows();
        let mut out: Vec<HistoryRow> = Vec::new();
        let mut i: usize = 0;
        while i < self.deployments.len()
            invariant
                i <= self.deployments@.len(),
                want == self@.history_rows(),
                out@.map_values(|r: HistoryRow| r@) == want.take(i as int),
            decreases self.deployments@.len() - i,
        {
            let ghost before = out@;
            let expanded: Option<&str> = match &self.expanded_deployment_id {
                Some(id) => Some(id.as_str()),
                None => None,
            };
            out.push(history_row(&self.deployments[i], expanded));
            proof {
                assert(self@.deployments[i as int] == self.deployments@[i as int]@);
                assert(out@.last()@ == want[i as int]);
                assert(out@.map_values(|r: HistoryRow| r@) =~= before.map_values(
                    |r: HistoryRow| r@,
                ).push(want[i as int]));
                assert(want.take(i + 1) =~= want.take(i as int).push(want[i as int]));
            }
            i = i + 1;
        }
        assert(want.take(i as int) =~= want);
        out
    }

    /// What the changelog shows of the chosen version, where `booted_tag` is running.
    pub fn changelog_page(&self, booted_tag: &str) -> (res: ChangelogPage)
        requires
            self.wf(),
        ensures
            res@ == self@.changelog(booted_tag@),
    {
        changelog_page(
            self.changelog_version.as_str(),
            self.registry_uri.as_str(),
            &self.registry_versions,
            &self.github_commits,
            &self.sbom_diff,
            booted_tag,
            self.reboot_pending,
            self.preflight_status,
        )
    }
}

/// An update that succeeds leaves a reboot pending, which the idle page asks for;
/// dismissing the banner settles that, and so does starting another update.
pub proof fn law_reboot_pending(model: StatusModel, now: Surroundings)
    ensures
        ({
            let done = model.step(StatusViewInput::StateChanged(AppState::Complete, now));
            let dismissed = done.step(StatusViewInput::DismissBanner);
            let again = done.step(StatusViewInput::StateChanged(AppState::Updating, now));
            &&& done.reboot_pending
            &&& (done.banner() matches Some(b) && b.offers_restart && !b.offers_install)
            &&& !dismissed.reboot_pending && dismissed.banner() is None
            &&& !again.reboot_pending
        }),
{
}

/// The idle page never offers to install and to restart at once, and offers to install
/// only where an update is available.
pub proof fn law_banner(model: StatusModel)
    ensures
        model.banner() matches Some(b) ==> b.offers_install != b.offers_restart
            && (b.offers_install ==> model.preflight_status == PreflightStatus::UpdateAvailable
            && !model.reboot_pending),
        model.banner() is None <==> !model.reboot_pending && model.preflight_status
            != PreflightStatus::UpdateAvailable,
{
}

/// The time is kept exactly while the application is updating.
pub proof fn law_timing(model: StatusModel, state: AppState, now: Surroundings)
    ensures
        model.step(StatusViewInput::StateChanged(state, now)).timing <==> state@ is Updating,
        model.step(StatusViewInput::StateChanged(state, now)).state == state@,
{
}

/// Asking for the same deployment twice shows it exactly where it was shown before;
/// asking once for another one than that shown shows that one alone.
pub proof fn law_expanding(model: StatusModel, id: Seq<char>)
    ensures
        model.with_expanded(id).with_expanded(id).expanded_deployment_id == if model.expanded_deployment_id
            == Some(id) {
            Some(id)
        } else {
            None
        },
        model.expanded_deployment_id != Some(id) ==> model.with_expanded(id).expanded_deployment_id
            == Some(id),
{
}

/// Asking to roll back and confirming it names the deployment asked for, once.
pub proof fn law_rollback(model: StatusModel, d: MockDeployment)
    ensures
        ({
            let asked = model.step(StatusViewInput::RollbackTo(d));
            let confirmed = asked.step(StatusViewInput::ConfirmRollback);
            &&& asked.effects(StatusViewInput::ConfirmRollback) == seq![
                StatusEffectView::Toast("Rolling back to "@ + d@.tag + "…"@),
            ]
            &&& confirmed.rollback_target is None
            &&& confirmed.effects(StatusViewInput::ConfirmRollback).len() == 0
        }),
{
}

/// A line of output changes nothing but the log and the bar. The log grows by the
/// line, and an announced module becomes the active one.
pub proof fn law_output_line(model: StatusModel, line: Seq<char>)
    ensures
        ({
            let after = model.with_output(line);
            &&& after == (StatusModel {
                log_text: with_line(model.log_text, line),
                segments: after.segments,
                active_module: after.active_module,
                ..model
            })
            &&& announced_module(line) matches Some(next) ==> after.active_module == Some(next)
            &&& announced_module(line) is None ==> after.active_module == model.active_module
        }),
{
}

/// Where there was nothing to update, the view says so from whatever it showed before: the
/// system is up to date, no reboot is pending, the pill reads so and there is no banner.
/// Nothing else changes but the state and the timer.
pub proof fn law_nothing_to_update(model: StatusModel, now: Surroundings)
    ensures
        ({
            let after = model.step(StatusViewInput::StateChanged(AppState::UpToDate, now));
            &&& after.preflight_status == PreflightStatus::UpToDate
            &&& !after.reboot_pending
            &&& after.banner() is None
            &&& after.idle_page().banner is None
            &&& after.pill().0 == "Up to date"@
            &&& after.idle_page().pill == "Up to date"@
            &&& after.idle_page().pill_class == "status-pill-ok"@
            &&& after == (StatusModel {
                state: AppStateView::UpToDate,
                timing: false,
                preflight_status: PreflightStatus::UpToDate,
                reboot_pending: false,
                ..model
            })
        }),
{
}

/// A run that succeeds or finds nothing to do leaves no install on offer, neither on the
/// idle page nor in the changelog of any version. A run that fails leaves on offer what
/// was on offer before it.
pub proof fn law_run_ends_without_offer(
    model: StatusModel,
    state: AppState,
    now: Surroundings,
    version: Seq<char>,
    booted_tag: Seq<char>,
)
    ensures
        ({
            let after = model.step(StatusViewInput::StateChanged(state, now));
            let page = page_of(
                version,
                after.registry_uri,
                after.registry_versions,
                after.github_commits,
                after.sbom_diff,
                booted_tag,
                after.reboot_pending,
                after.preflight_status,
            );
            &&& state@ == AppStateView::Complete || state@ == AppStateView::UpToDate ==> {
                &&& after.preflight_status == PreflightStatus::UpToDate
                &&& after.reboot_pending == (state@ == AppStateView::Complete)
                &&& after.idle_page().banner matches Some(b) ==> !b.offers_install
                &&& after.pill().0 != "Update ready"@
                &&& !page.installable
            }
            &&& state@ is Error ==> {
                &&& after.preflight_status == model.preflight_status
                &&& after.reboot_pending == model.reboot_pending
                &&& after.banner() == model.banner()
                &&& after.pill() == model.pill()
            }
        }),
{
    reveal_strlit("Update ready");
    reveal_strlit("Up to date");
    reveal_strlit("Staged");
    assert("Update ready"@.len() == 12 && "Up to date"@.len() == 10 && "Staged"@.len() == 6);
}

/// A run starts with an empty bar, no module and no reboot pending, and changes nothing
/// else but the state and the timer.
pub proof fn law_run_starts(model: StatusModel, now: Surroundings)
    ensures
        model.step(StatusViewInput::StateChanged(AppState::Updating, now)) == (StatusModel {
            state: AppStateView::Updating,
            timing: true,
            segments: SegmentedProgress {
                system: SegmentStatus::Pending,
                apps: SegmentStatus::Pending,
                dev_tools: SegmentStatus::Pending,
            },
            active_module: None,
            reboot_pending: false,
            ..model
        }),
        model.effects(StatusViewInput::StateChanged(AppState::Updating, now)) == seq![
            StatusEffectView::ShowPage("updating"@),
            StatusEffectView::Elapsed("0:00"@),
            StatusEffectView::List(UpdateListInputView::Reset),
        ],
{
}

/// A run that succeeds fills the bar, asks for a reboot and brings the deployments that
/// are on disk then.
pub proof fn law_run_succeeds(model: StatusModel, now: Surroundings)
    ensures
        model.step(StatusViewInput::StateChanged(AppState::Complete, now)) == (StatusModel {
            state: AppStateView::Complete,
            timing: false,
            segments: SegmentedProgress {
                system: SegmentStatus::Complete,
                apps: SegmentStatus::Complete,
                dev_tools: SegmentStatus::Complete,
            },
            active_module: None,
            preflight_status: PreflightStatus::UpToDate,
            reboot_pending: true,
            deployments: deployment_views(now.deployments@),
            ..model
        }),
        model.effects(StatusViewInput::StateChanged(AppState::Complete, now)) == seq![
            StatusEffectView::ShowPage("complete"@),
            StatusEffectView::List(UpdateListInputView::MarkAllComplete),
            StatusEffectView::RefreshIdle,
            StatusEffectView::RebuildHistory,
        ],
{
}

/// A run that fails marks the segment of the module that was active, and no other, as
/// failed. The reason is shown, and nothing else changes but the state and the timer.
pub proof fn law_run_fails(model: StatusModel, message: String, now: Surroundings)
    ensures
        ({
            let input = StatusViewInput::StateChanged(AppState::Error(message), now);
            let after = model.step(input);
            &&& after == (StatusModel {
                state: AppStateView::Error(message@),
                timing: false,
                segments: after.segments,
                active_module: None,
                ..model
            })
            &&& model.active_module is None ==> after.segments == model.segments
            &&& model.active_module == Some(Module::System) ==> after.segments
                == (SegmentedProgress { system: SegmentStatus::Failed, ..model.segments })
            &&& model.active_module == Some(Module::Flatpak) ==> after.segments
                == (SegmentedProgress { apps: SegmentStatus::Failed, ..model.segments })
            &&& model.active_module == Some(Module::Brew) || model.active_module == Some(
                Module::Distrobox,
            ) ==> after.segments == (SegmentedProgress {
                dev_tools: SegmentStatus::Failed,
                ..model.segments
            })
            &&& model.effects(input) == seq![
                StatusEffectView::ShowPage("error"@),
                StatusEffectView::List(UpdateListInputView::MarkCurrentFailed),
                StatusEffectView::ErrorText(message@),
            ]
        }),
{
}

/// Back at the start the view learns anew when the last update ran and which image is
/// running, and changes nothing else but the state and the timer.
pub proof fn law_back_at_start(model: StatusModel, now: Surroundings)
    ensures
        model.step(StatusViewInput::StateChanged(AppState::Idle, now)) == (StatusModel {
            state: AppStateView::Idle,
            timing: false,
            last_update_text: optional_view(now.last_update_text),
            image_info: optional_view(now.image_info),
            ..model
        }),
        model.effects(StatusViewInput::StateChanged(AppState::Idle, now)) == seq![
            StatusEffectView::ShowPage("idle"@),
            StatusEffectView::RefreshIdle,
        ],
        model.effects(StatusViewInput::StateChanged(AppState::UpToDate, now)) == seq![
            StatusEffectView::ShowPage("up_to_date"@),
            StatusEffectView::RefreshIdle,
        ],
{
}

/// The bar after a line that announces a module: the segment of the module is active. The
/// segment of the module before is complete, unless the two share it, in which case the
/// bar stays as it is. No other segment changes.
pub proof fn law_bar_follows_modules(model: StatusModel, line: Seq<char>, next: Module)
    requires
        announced_module(line) == Some(next),
    ensures
        ({
            let before = model.segments;
            let after = model.with_output(line).segments;
            &&& model.active_module is None ==> after.status_of(segment_of(next))
                == SegmentStatus::Active && forall|other: Segment|
                other != segment_of(next) ==> #[trigger] after.status_of(other)
                    == before.status_of(other)
            &&& model.active_module matches Some(previous) ==> {
                &&& segment_of(previous) == segment_of(next) ==> after == before
                &&& segment_of(previous) != segment_of(next) ==> {
                    &&& after.status_of(segment_of(previous)) == SegmentStatus::Complete
                    &&& after.status_of(segment_of(next)) == SegmentStatus::Active
                    &&& forall|other: Segment|
                        other != segment_of(next) && other != segment_of(previous)
                            ==> #[trigger] after.status_of(other) == before.status_of(other)
                }
            }
        }),
{
}

/// The bar after any other line: where the line reports an error, the segment of the
/// active module has failed; otherwise the bar stays as it is.
pub proof fn law_bar_shows_errors(model: StatusModel, line: Seq<char>)
    requires
        announced_module(line) is None,
    ensures
        ({
            let before = model.segments;
            let after = model.with_output(line).segments;
            let error = contains_text(line, "level=ERROR"@) || contains_text(
                line,
                "level=error"@,
            );
            &&& !error || model.active_module is None ==> after == before
            &&& error && model.active_module is Some ==> {
                let failed = segment_of(model.active_module.unwrap());
                &&& after.status_of(failed) == SegmentStatus::Failed
                &&& forall|other: Segment|
                    other != failed ==> #[trigger] after.status_of(other) == before.status_of(
                        other,
                    )
            }
        }),
{
}

/// A line goes to the list of modules and to the log, and is added below what the view
/// keeps for copying.
pub proof fn law_line_is_passed_on(model: StatusModel, line: String)
    ensures
        model.step(StatusViewInput::AppendLog(line)) == model.with_output(line@),
        model.with_output(line@).log_text == if model.log_text.len() == 0 {
            line@
        } else {
            model.log_text + seq!['\n'] + line@
        },
        model.effects(StatusViewInput::AppendLog(line)) == seq![
            StatusEffectView::List(UpdateListInputView::ProcessLine(line@)),
            StatusEffectView::Log(LogViewInputView::AppendLine(line@)),
        ],
        model.step(StatusViewInput::ClearLog) == (StatusModel { log_text: Seq::empty(), ..model }),
        model.effects(StatusViewInput::ClearLog) == seq![
            StatusEffectView::Log(LogViewInputView::Clear),
        ],
        model.step(StatusViewInput::CopyLog) == model,
        model.effects(StatusViewInput::CopyLog) == seq![
            StatusEffectView::CopyText(model.log_text),
            StatusEffectView::Toast("Log copied to clipboard"@),
        ],
{
    assert(model.log_text.push('\n') + line@ =~= model.log_text + seq!['\n'] + line@);
}

/// The time is shown while a run is timed and at no other time: minutes, a colon and two
/// digits of seconds.
pub proof fn law_elapsed(model: StatusModel, seconds: u64, minutes: nat, rest: nat)
    requires
        seconds == minutes * 60 + rest,
        rest < 60,
    ensures
        elapsed_label(seconds as nat) == decimal(minutes) + ":"@ + padded(rest, 2),
        model.step(StatusViewInput::TimerTick(seconds)) == model,
        model.timing ==> model.effects(StatusViewInput::TimerTick(seconds)) == seq![
            StatusEffectView::Elapsed(decimal(minutes) + ":"@ + padded(rest, 2)),
        ],
        !model.timing ==> model.effects(StatusViewInput::TimerTick(seconds)).len() == 0,
{
}

/// What the check finds is kept and shown, and changes nothing else. Dismissing the
/// banner leaves nothing to do.
pub proof fn law_check_is_shown(model: StatusModel, status: PreflightStatus)
    ensures
        model.step(StatusViewInput::PreflightResult(status)) == (StatusModel {
            preflight_status: status,
            ..model
        }),
        model.effects(StatusViewInput::PreflightResult(status)) == seq![
            StatusEffectView::RefreshIdle,
        ],
        model.step(StatusViewInput::DismissBanner) == (StatusModel {
            reboot_pending: false,
            preflight_status: PreflightStatus::UpToDate,
            ..model
        }),
        model.effects(StatusViewInput::DismissBanner) == seq![StatusEffectView::RefreshIdle],
{
}

/// The address is edited from what it is. A new address that is not blank is kept and
/// shown, and its changelog fetched; a blank one, or giving up, leaves the address as it
/// was. Either way editing ends.
pub proof fn law_address_is_edited(model: StatusModel, uri: String)
    ensures
        model.step(StatusViewInput::EditRegistryUri) == (StatusModel {
            registry_editing: true,
            ..model
        }),
        model.effects(StatusViewInput::EditRegistryUri) == seq![
            StatusEffectView::ShowEditor(true),
            StatusEffectView::EditorText(model.registry_uri),
        ],
        model.step(StatusViewInput::CancelRegistryUri) == (StatusModel {
            registry_editing: false,
            ..model
        }),
        model.effects(StatusViewInput::CancelRegistryUri) == seq![
            StatusEffectView::ShowEditor(false),
        ],
        trim_white(uri@).len() > 0 ==> {
            let saved = StatusViewInput::SaveRegistryUri(uri);
            &&& model.step(saved) == (StatusModel {
                registry_uri: uri@,
                registry_editing: false,
                ..model
            })
            &&& model.effects(saved) == seq![
                StatusEffectView::RegistryLabel(uri@),
                StatusEffectView::SourceLabel(source_label(uri@, model.selected_tag)),
                StatusEffectView::Toast("Image source updated"@),
                StatusEffectView::FetchChangelog(uri@, model.selected_tag),
                StatusEffectView::ShowEditor(false),
            ]
        },
        trim_white(uri@).len() == 0 ==> {
            let saved = StatusViewInput::SaveRegistryUri(uri);
            &&& model.step(saved) == (StatusModel { registry_editing: false, ..model })
            &&& model.effects(saved) == seq![StatusEffectView::ShowEditor(false)]
        },
{
}

/// The image is named by the last part of its address, a colon and the tag.
pub proof fn law_source_label(path: Seq<char>, name: Seq<char>, tag: Seq<char>)
    requires
        !name.contains('/'),
    ensures
        source_label(path + "/"@ + name, tag) == name + ":"@ + tag,
        source_label(name, tag) == name + ":"@ + tag,
{
    reveal_strlit("/");
    assert(path + "/"@ + name =~= path.push('/') + name);
    law_split_concat(path, name, '/');
    law_split_join(seq![name], '/');
}

/// A chosen tag is kept and described, and the changelog of the address is fetched for
/// it.
pub proof fn law_tag_is_chosen(model: StatusModel, tag: String)
    ensures
        model.step(StatusViewInput::SelectTag(tag)) == (StatusModel { selected_tag: tag@, ..model }),
        model.effects(StatusViewInput::SelectTag(tag)) == seq![
            StatusEffectView::TagSubtitle(tag_meaning(tag@)),
            StatusEffectView::SourceLabel(source_label(model.registry_uri, tag@)),
            StatusEffectView::Toast("Tag set to :"@ + tag@),
            StatusEffectView::FetchChangelog(model.registry_uri, tag@),
        ],
{
}

/// The usual tags are described each by itself, and every other one as a custom tag.
pub proof fn law_tag_meanings(tag: Seq<char>)
    ensures
        tag == "latest"@ ==> tag_meaning(tag) == "Always the newest stable release"@,
        tag == "42"@ ==> tag_meaning(tag) == "Pinned to Fedora 42"@,
        tag == "41"@ ==> tag_meaning(tag) == "Pinned to Fedora 41 (older)"@,
        tag == "testing"@ ==> tag_meaning(tag) == "Pre-release builds — may be unstable"@,
        tag == "rawhide"@ ==> tag_meaning(tag) == "Bleeding edge — not for daily use"@,
        tag != "latest"@ && tag != "42"@ && tag != "41"@ && tag != "testing"@ && tag
            != "rawhide"@ ==> tag_meaning(tag) == "Custom tag"@,
{
    reveal_strlit("latest");
    reveal_strlit("42");
    reveal_strlit("41");
    reveal_strlit("testing");
    reveal_strlit("rawhide");
    assert("42"@[1] != "41"@[1]);
    assert("testing"@[0] != "rawhide"@[0]);
}

/// A page is shown and told of under the name that was asked for; the main page is the
/// idle one.
pub proof fn law_pages(model: StatusModel, page: String)
    ensures
        model.step(StatusViewInput::ShowPage(page)) == model,
        model.effects(StatusViewInput::ShowPage(page)).len() == 2,
        model.effects(StatusViewInput::ShowPage(page))[1] == StatusEffectView::PageChanged(page@),
        page@ == "main"@ ==> model.effects(StatusViewInput::ShowPage(page))[0]
            == StatusEffectView::ShowPage("idle"@),
        page@ != "main"@ ==> model.effects(StatusViewInput::ShowPage(page))[0]
            == StatusEffectView::ShowPage(page@),
{
}

/// A deployment is expanded by its id behind a word. The two words for a reset ask before
/// anything happens and change nothing. Every other word is the id of a deployment whose
/// pin is set or taken away, which is said in passing.
#[verifier::spinoff_prover]
#[verifier::rlimit(40)]
pub proof fn law_actions(model: StatusModel, action: String, id: Seq<char>)
    ensures
        action@ == "expand:"@ + id ==> model.step(StatusViewInput::TogglePin(action))
            == model.with_expanded(id) && model.effects(StatusViewInput::TogglePin(action)) == seq![
            StatusEffectView::RebuildHistory,
        ],
        model.with_expanded(id) == (StatusModel {
            expanded_deployment_id: if model.expanded_deployment_id == Some(id) {
                None
            } else {
                Some(id)
            },
            ..model
        }),
        action@ == "powerwash"@ ==> model.step(StatusViewInput::TogglePin(action)) == model
            && model.effects(StatusViewInput::TogglePin(action)) == seq![
            StatusEffectView::AskPowerwash,
        ],
        action@ == "factory"@ ==> model.step(StatusViewInput::TogglePin(action)) == model
            && model.effects(StatusViewInput::TogglePin(action)) == seq![
            StatusEffectView::AskFactoryReset,
        ],
        (action@.len() < 7 || action@.take(7) != "expand:"@) && action@ != "powerwash"@ && action@
            != "factory"@ ==> {
            let input = StatusViewInput::TogglePin(action);
            &&& model.step(input) == (StatusModel {
                deployments: with_pin_toggled(model.deployments, action@),
                ..model
            })
            &&& forall|i: int|
                0 <= i < model.deployments.len() && (#[trigger] model.deployments[i]).id == action@
                    && (forall|k: int|
                    0 <= k < i ==> (#[trigger] model.deployments[k]).id != action@)
                    ==> model.effects(input) == seq![
                    StatusEffectView::Toast(
                        if model.deployments[i].pinned {
                            "Unpinned "@ + model.deployments[i].tag + " (allowing pruning)"@
                        } else {
                            "Pinned "@ + model.deployments[i].tag + " (preventing pruning)"@
                        },
                    ),
                    StatusEffectView::RebuildHistory,
                ]
            &&& (forall|k: int|
                0 <= k < model.deployments.len() ==> (#[trigger] model.deployments[k]).id
                    != action@) ==> model.effects(input) == seq![StatusEffectView::RebuildHistory]
        },
{
    reveal_strlit("expand:");
    reveal_strlit("powerwash");
    reveal_strlit("factory");
    if action@ == "expand:"@ + id {
        assert(action@.take(7) =~= "expand:"@);
        assert(action@.skip(7) =~= id);
    }
    if action@ == "powerwash"@ {
        assert(action@[0] != "expand:"@[0]);
        assert(action@.take(7)[0] != "expand:"@[0]);
        assert(action@.len() != "factory"@.len());
    }
    if action@ == "factory"@ {
        assert(action@.take(7)[0] != "expand:"@[0]);
    }
    let all = model.deployments;
    let p = place_of(all, action@);
    lemma_place_of(all, action@);
    assert forall|i: int|
        0 <= i < all.len() && (#[trigger] all[i]).id == action@ && (forall|k: int|
            0 <= k < i ==> (#[trigger] all[k]).id != action@) implies p == i by {
        if p < i {
            assert(all[p].id != action@);
        }
    }
}

/// Asking to roll back names the deployment by its tag and its address; making it the
/// default names it by its tag and changes nothing in the view.
pub proof fn law_rollback_is_asked(model: StatusModel, d: MockDeployment)
    ensures
        model.step(StatusViewInput::RollbackTo(d)) == (StatusModel {
            rollback_target: Some(d@),
            ..model
        }),
        model.effects(StatusViewInput::RollbackTo(d)) == seq![
            StatusEffectView::AskRollback(
                "Roll back to "@ + d@.tag + "?"@,
                "The next boot will use "@ + d@.image + ":"@ + d@.tag
                    + ".\nYour current image stays on disk and remains available to roll forward."@,
            ),
        ],
        model.step(StatusViewInput::ConfirmRollback) == (StatusModel {
            rollback_target: None,
            ..model
        }),
        model.step(StatusViewInput::SetDefaultBoot(d)) == model,
        model.effects(StatusViewInput::SetDefaultBoot(d)) == seq![
            StatusEffectView::Toast("Set "@ + d@.tag + " as default boot"@),
        ],
{
}

/// What is learned for the changelog is kept and shown. The newest build, the last of
/// the list, is the one whose changelog is shown next.
pub proof fn law_changelog_is_learned(
    model: StatusModel,
    version: String,
    versions: Vec<ImageVersion>,
    commits: Vec<Commit>,
    diff: SbomDiffResult,
)
    ensures
        model.step(StatusViewInput::SelectChangelogVersion(version)) == (StatusModel {
            changelog_version: version@,
            ..model
        }),
        model.effects(StatusViewInput::SelectChangelogVersion(version)) == seq![
            StatusEffectView::RebuildChangelog,
            StatusEffectView::ShowPage("changelog"@),
            StatusEffectView::PageChanged("changelog"@),
        ],
        versions@.len() > 0 ==> model.step(StatusViewInput::RegistryVersionsLoaded(versions))
            == (StatusModel {
            registry_versions: version_views(versions@),
            changelog_version: versions@[versions@.len() - 1].version@,
            ..model
        }),
        versions@.len() == 0 ==> model.step(StatusViewInput::RegistryVersionsLoaded(versions))
            == (StatusModel { registry_versions: Seq::empty(), ..model }),
        model.effects(StatusViewInput::RegistryVersionsLoaded(versions)) == seq![
            StatusEffectView::RebuildChangelog,
        ],
        model.step(StatusViewInput::GithubCommitsLoaded(commits)) == (StatusModel {
            github_commits: commit_views(commits@),
            ..model
        }),
        model.effects(StatusViewInput::GithubCommitsLoaded(commits)) == seq![
            StatusEffectView::RebuildChangelog,
        ],
        model.step(StatusViewInput::SbomDiffLoaded(diff)) == (StatusModel {
            sbom_diff: Some(diff@),
            ..model
        }),
        model.effects(StatusViewInput::SbomDiffLoaded(diff)) == seq![
            StatusEffectView::RebuildChangelog,
        ],
{
    if versions@.len() == 0 {
        assert(version_views(versions@) =~= Seq::empty());
    }
}

/// What the idle page shows: the name of the image; the version and when the last update
/// ran; and a pill and a banner that tell of a pending reboot, else of what the check
/// found.
pub proof fn law_idle_page(model: StatusModel)
    ensures
        ({
            let page = model.idle_page();
            &&& model.image_info matches Some(name) ==> page.title == name
            &&& model.image_info is None ==> page.title == "Fedora bootc"@
            &&& model.reboot_pending ==> {
                &&& page.subtitle == "Version "@ + "43"@ + "  ·  "@ + "Reboot to update"@
                &&& page.pill == "Staged"@ && page.pill_class == "status-pill-staged"@
                &&& page.banner == Some(
                    BannerView {
                        title: "Reboot to finish updating"@,
                        subtitle: "Next boot uses version 43."@,
                        offers_install: false,
                        offers_restart: true,
                    },
                )
            }
            &&& !model.reboot_pending ==> {
                &&& model.last_update_text matches Some(text) ==> page.subtitle == "Version "@
                    + model.selected_tag + "  ·  "@ + text
                &&& model.last_update_text is None ==> page.subtitle == "Version "@
                    + model.selected_tag + "  ·  "@ + "Booted 3 days ago"@
                &&& model.preflight_status == PreflightStatus::UpdateAvailable ==> {
                    &&& page.pill == "Update ready"@ && page.pill_class == "status-pill-ready"@
                    &&& page.banner == Some(
                        BannerView {
                            title: "Version 43 available"@,
                            subtitle: "Includes a kernel update. 412 MB."@,
                            offers_install: true,
                            offers_restart: false,
                        },
                    )
                }
                &&& model.preflight_status == PreflightStatus::UpToDate ==> page.pill
                    == "Up to date"@ && page.pill_class == "status-pill-ok"@
                &&& model.preflight_status == PreflightStatus::Checking ==> page.pill
                    == "Checking"@ && page.pill_class == "dim-label"@
                &&& model.preflight_status == PreflightStatus::Unknown ==> page.pill == "Ready"@
                    && page.pill_class == "dim-label"@
                &&& model.preflight_status != PreflightStatus::UpdateAvailable
                    ==> page.banner is None
            }
        }),
{
}

/// The history has a row for each deployment, in their order.
pub proof fn law_history_rows(model: StatusModel, i: int)
    requires
        0 <= i < model.deployments.len(),
    ensures
        model.history_rows().len() == model.deployments.len(),
        model.history_rows()[i] == history_row_of(
            model.deployments[i],
            model.expanded_deployment_id,
        ),
{
}

/// The view starts with nothing printed, nothing chosen and the check still running, and
/// shows what is known of the system.
pub proof fn law_view_at_start(
    state: AppStateView,
    uri: Option<Seq<char>>,
    tag: Seq<char>,
    text: Option<Seq<char>>,
    info: Option<Seq<char>>,
    deployments: Seq<DeploymentView>,
)
    ensures
        ({
            let model = initial_model(state, uri, tag, text, info, deployments);
            &&& model.state == state && !model.timing && model.log_text.len() == 0
            &&& model.preflight_status == PreflightStatus::Checking && !model.reboot_pending
            &&& model.last_update_text == text && model.image_info == info
            &&& model.segments == (SegmentedProgress {
                system: SegmentStatus::Pending,
                apps: SegmentStatus::Pending,
                dev_tools: SegmentStatus::Pending,
            }) && model.active_module is None
            &&& uri matches Some(u) ==> model.registry_uri == u
            &&& uri is None ==> model.registry_uri == "quay.io/fedora/fedora-bootc"@
            &&& !model.registry_editing && model.selected_tag == tag
            &&& model.deployments == deployments && model.expanded_deployment_id is None
            &&& model.changelog_version == "43"@ && model.registry_versions.len() == 0
            &&& model.github_commits.len() == 0 && model.sbom_diff is None
            &&& model.rollback_target is None
        }),
{
}

/// The changelog is that of the chosen version at the address of the view, with the
/// builds, commits and packages that the view knows. It offers an install only where the
/// view knows of an update and no reboot is pending.
pub proof fn law_changelog(model: StatusModel, booted_tag: Seq<char>)
    ensures
        ({
            let page = model.changelog(booted_tag);
            &&& page == page_of(
                model.changelog_version,
                model.registry_uri,
                model.registry_versions,
                model.github_commits,
                model.sbom_diff,
                booted_tag,
                model.reboot_pending,
                model.preflight_status,
            )
            &&& page.reference == model.registry_uri + ":"@ + model.changelog_version
            &&& page.installable ==> model.preflight_status == PreflightStatus::UpdateAvailable
                && !model.reboot_pending
        }),
{
}

} // verus!
