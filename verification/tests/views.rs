//! What the pages show.

use finupdate::app::{AppState, PreflightStatus};
use finupdate::changelog::{changelog_page, commits_from, shorten_commit, Badge, Commit};
use finupdate::date::CalendarDate;
use finupdate::deployment::{
    get_real_deployments_from_json, list_deployments, make_deployment, DeploymentSource,
    MockDeployment, Slot,
};
use finupdate::history::{get_sample_deployments, history_row, images_count_label, toggle_pin};
use finupdate::rebase_dialog::{
    build_details, calendar_month, confirm_text, current_date, fetch_step, generate_mock_versions,
    switch_result, toggle_selection, version_on, FetchProgress, FetchStep, SwitchOutcome,
};
use finupdate::registry_client::{ImageVersion, RegistryClient};
use finupdate::sbom_diff::{PackageDiff, SbomDiffResult};
use finupdate::segmented_progress::SegmentStatus;
use finupdate::status_view::{
    elapsed_text, source_text, tag_description, StatusEffect, StatusView, StatusViewInput,
    Surroundings,
};
use finupdate::system_info::{
    active_tag, auto_updates_enabled, changelog_client, commits_url, connection_note,
    describe_booted_image, detect_bootc_image_info, get_last_update_time, parse_org_repo,
    read_file_command, read_image_info, read_logo_icon_name, read_selected_tag, status_command,
    strip_day, switch_command, tag_choices, tagged, timer_enabled, timer_query_command,
    timer_switch_command, update_check_command, FileAge,
};
use finupdate::tag::parse_dated_tag;
use finupdate::update_list::UpdateListInput;

fn day(y: i32, m: u32, d: u32) -> CalendarDate {
    CalendarDate::from_ymd_opt(y, m, d).unwrap()
}

fn version(name: &str, date: CalendarDate) -> ImageVersion {
    ImageVersion {
        date,
        full_ref: format!("ghcr.io/a/b:{}", name),
        version: name.to_string(),
        kernel: "6.14".to_string(),
        revision: "0123456789".to_string(),
        created: date.at(4, 30),
    }
}

// ── Changelog ────────────────────────────────────────────────────────────────

#[test]
fn changelog_of_an_example() {
    let page = changelog_page(
        "43",
        "quay.io/fedora/fedora-bootc",
        &vec![],
        &vec![],
        &None,
        "latest",
        false,
        PreflightStatus::UpdateAvailable,
    );
    assert_eq!(page.choices.len(), 3);
    assert_eq!(page.choices[0].label, "05-27");
    assert!(page.choices[0].selected && !page.choices[1].selected);
    assert_eq!(page.reference, "quay.io/fedora/fedora-bootc:43");
    assert_eq!(page.badge, Badge::Update);
    assert!(page.installable);
    assert_eq!(page.meta, "stable-20260527  ·  May 27, 2026");
    assert_eq!(page.summary, "Fedora 43 base bump · new kernel · GNOME 50.1");
    assert_eq!(page.stack.len(), 9);
    assert_eq!(page.stack[0].label(), "6.14.1-300.fc43 ↑");
    assert_eq!(page.stack[2].label(), "26.0.7");
    assert_eq!(page.upgrades_title.as_deref(), Some("Updated  ·  7"));
    assert_eq!(page.removals_title.as_deref(), Some("Removed  ·  4"));
    assert_eq!(page.commits.len(), 4);
    assert_eq!(page.commits[2].author, "Italo");
}

#[test]
fn changelog_examples_while_a_reboot_is_pending() {
    let booted = changelog_page(
        "42", "u", &vec![], &vec![], &None, "latest", false, PreflightStatus::UpToDate,
    );
    assert_eq!(booted.badge, Badge::Booted);
    assert!(!booted.installable);
    assert!(booted.removals_title.is_none());
    let pending = changelog_page(
        "43", "u", &vec![], &vec![], &None, "latest", true, PreflightStatus::UpdateAvailable,
    );
    assert_eq!(pending.badge, Badge::Plain);
    let unknown = changelog_page(
        "7", "u", &vec![], &vec![], &None, "latest", false, PreflightStatus::UpdateAvailable,
    );
    assert_eq!(unknown.meta, "  ·  ");
    assert!(unknown.stack.is_empty() && unknown.upgrades.is_empty() && unknown.commits.is_empty());
}

#[test]
fn changelog_of_a_known_build() {
    let versions: Vec<ImageVersion> =
        (1..=6).map(|d| version(&format!("v{}", d), day(2026, 5, d))).collect();
    let diff = SbomDiffResult {
        upgraded: vec![PackageDiff {
            name: "vim".to_string(),
            old_version: "1".to_string(),
            new_version: "2".to_string(),
        }],
        removed: vec!["old".to_string()],
        added: vec![PackageDiff {
            name: "new".to_string(),
            old_version: String::new(),
            new_version: "9".to_string(),
        }],
    };
    let commits = vec![Commit {
        sha: "abc".to_string(),
        message: "m".to_string(),
        author: "a".to_string(),
    }];
    let page = changelog_page(
        "v6",
        "ghcr.io/a/b",
        &versions,
        &commits,
        &Some(diff.clone()),
        "v1",
        false,
        PreflightStatus::UpdateAvailable,
    );
    let labels: Vec<&str> = page.choices.iter().map(|c| c.label.as_str()).collect();
    assert_eq!(labels, vec!["05-06", "05-05", "05-04", "05-03"]);
    assert!(page.choices[0].selected);
    assert_eq!(page.badge, Badge::Update);
    assert_eq!(page.meta, "v6  ·  May 6, 2026");
    assert_eq!(page.summary, "Image build. Kernel 6.14 · git commit 0123456.");
    assert_eq!(page.stack.len(), 4);
    assert_eq!(page.upgrades.len(), 2);
    assert_eq!(page.upgrades[1].from, "(added)");
    assert_eq!(page.removals, vec!["old"]);
    assert_eq!(page.commits[0].sha, "abc");
    let booted = changelog_page(
        "v1", "u", &versions, &commits, &Some(diff), "v1", false, PreflightStatus::UpdateAvailable,
    );
    assert_eq!(booted.badge, Badge::Booted);
    assert_eq!(booted.summary, "Currently booted. Kernel 6.14 · stable point release.");
}

#[test]
fn commits_are_shortened() {
    assert_eq!(shorten_commit("0123456789"), "0123456");
    assert_eq!(shorten_commit("012"), "012");
    let list = commits_from(vec![Commit {
        sha: "60e72be0000".to_string(),
        message: "fix".to_string(),
        author: "Me".to_string(),
    }]);
    assert_eq!(list[0].sha, "60e72be");
    assert_eq!(list[0].message, "fix");
    assert_eq!(list[0].author, "Me");
}

// ── Deployments ──────────────────────────────────────────────────────────────

#[test]
fn deployments_of_a_status() {
    let json = br#"{"status":{
        "staged":null,
        "booted":{"pinned":true,"image":{"image":{"image":"ghcr.io/ublue-os/bluefin:stable"},
            "imageDigest":"sha256:0123456789","timestamp":"2026-05-24T14:22:00Z"}},
        "rollback":{"image":{"image":"ghcr.io/ublue-os/aurora"}}}}"#;
    let list = get_real_deployments_from_json(json).unwrap();
    assert_eq!(list.len(), 2);
    assert_eq!(list[0].id, "d-current");
    assert_eq!(list[0].state, "current");
    assert_eq!(list[0].title, "bluefin");
    assert_eq!(list[0].tag, "stable");
    assert_eq!(list[0].digest, "sha256:0123456789");
    assert_eq!(list[0].deployed_full, "Built: 2026-05-24");
    assert_eq!(list[0].package_count, 1342);
    assert!(list[0].pinned);
    assert_eq!(list[1].state, "previous");
    assert_eq!(list[1].title, "aurora");
    assert_eq!(list[1].tag, "latest");
    assert_eq!(list[1].deployed_full, "Built: recently");
    assert!(!list[1].pinned);
    assert!(get_real_deployments_from_json(b"{\"status\":{}}").is_none());
    assert!(get_real_deployments_from_json(b"{}").is_none());
    assert!(get_real_deployments_from_json(b"?").is_none());
    let odd = get_real_deployments_from_json(b"{\"status\":{\"staged\":1}}").unwrap();
    assert_eq!(odd[0].title, "Fedora bootc");
    assert_eq!(odd[0].tag, "latest");
}

#[test]
fn deployments_from_their_sources() {
    let source = DeploymentSource {
        image_ref: Some("localhost:5000/x:tag".to_string()),
        digest: None,
        timestamp: Some("2026".to_string()),
        pinned: Some(true),
    };
    let staged = make_deployment(Slot::Staged, &source);
    assert_eq!(staged.title, "localhost");
    assert_eq!(staged.tag, "5000/x");
    assert_eq!(staged.digest, "");
    assert_eq!(staged.deployed_full, "Built: recently");
    assert!(!staged.pinned);
    let all = list_deployments(&Some(source.clone()), &None, &Some(source)).unwrap();
    assert_eq!(all[0].state, "staged");
    assert_eq!(all[1].id, "d-rollback");
    assert!(list_deployments(&None, &None, &None).is_none());
}

#[test]
fn example_deployments() {
    let list = get_sample_deployments(None, None, None, false);
    assert_eq!(list.len(), 3);
    assert_eq!(list[0].title, "Fedora bootc");
    assert_eq!(list[0].image, "quay.io/fedora/fedora-bootc");
    let pending = get_sample_deployments(None, Some("t"), Some("i"), true);
    assert_eq!(pending.len(), 4);
    assert_eq!(pending[0].state, "staged");
    assert_eq!(pending[3].title, "t");
    let own = get_sample_deployments(Some(vec![list[2].clone()]), None, None, true);
    assert_eq!(own.len(), 1);
    assert_eq!(images_count_label(own.len()), "1 images");
}

#[test]
fn pins_are_toggled() {
    let mut list = get_sample_deployments(None, None, None, false);
    assert_eq!(
        toggle_pin(&mut list, "d-arch"),
        Some("Pinned 41 (preventing pruning)".to_string())
    );
    assert!(list[2].pinned && !list[0].pinned);
    assert_eq!(
        toggle_pin(&mut list, "d-arch"),
        Some("Unpinned 41 (allowing pruning)".to_string())
    );
    assert!(!list[2].pinned);
    assert_eq!(toggle_pin(&mut list, "nothing"), None);
}

#[test]
fn rows_of_the_history() {
    let list = get_sample_deployments(None, Some("t"), Some("i"), true);
    let staged = history_row(&list[0], None);
    assert_eq!(staged.indicator, "deploy-indicator-staged");
    assert_eq!(staged.state_pill, Some(("Staged", "status-pill-ready")));
    assert!(!staged.can_roll_back && staged.can_set_default && !staged.expanded);
    assert_eq!(staged.chevron, "go-down-symbolic");
    assert_eq!(staged.subtitle, "i:43  ·  sha256:f4e8c…  ·  Staged · pending reboot");
    let current = history_row(&list[1], Some("d-current"));
    assert_eq!(current.state_pill, Some(("Booted", "status-pill-ok")));
    assert!(!current.can_roll_back && !current.can_set_default && current.expanded);
    let previous = history_row(&list[2], Some("d-current"));
    assert!(previous.state_pill.is_none());
    assert!(previous.pinned && previous.can_roll_back && !previous.expanded);
    assert_eq!(previous.pin_hint, "Unpin");
    assert_eq!(previous.details[5], ("Packages", "1338 installed".to_string()));
    assert_eq!(previous.details[6], ("Signature", "✓ Verified  ·  fedora-42 (sigstore)".to_string()));
    let mut short = list[3].clone();
    short.digest = "abc".to_string();
    assert_eq!(history_row(&short, None).subtitle, "i:41  ·  abc…  ·  6 weeks ago");
}

// ── The main view ────────────────────────────────────────────────────────────

fn now() -> Surroundings {
    Surroundings {
        last_update_text: Some("Last update: 2 hours ago".to_string()),
        image_info: Some("ublue-os/bluefin".to_string()),
        deployments: get_sample_deployments(None, None, None, true),
    }
}

fn view() -> StatusView {
    StatusView::new(AppState::Idle, None, "stable".to_string(), now())
}

#[test]
fn the_idle_page() {
    let mut v = view();
    assert_eq!(v.registry_uri, "quay.io/fedora/fedora-bootc");
    let page = v.idle_page();
    assert_eq!(page.title, "ublue-os/bluefin");
    assert_eq!(page.subtitle, "Version stable  ·  Last update: 2 hours ago");
    assert_eq!((page.pill, page.pill_class), ("Checking", "dim-label"));
    assert!(page.banner.is_none());
    v.update(StatusViewInput::PreflightResult(PreflightStatus::UpdateAvailable));
    let page = v.idle_page();
    assert_eq!(page.pill, "Update ready");
    let banner = page.banner.unwrap();
    assert_eq!(banner.title, "Version 43 available");
    assert!(banner.offers_install && !banner.offers_restart);
    v.image_info = None;
    v.last_update_text = None;
    assert_eq!(v.idle_page().title, "Fedora bootc");
    assert_eq!(v.idle_page().subtitle, "Version stable  ·  Booted 3 days ago");
}

#[test]
fn a_finished_update_asks_for_a_reboot() {
    let mut v = view();
    let effects = v.update(StatusViewInput::StateChanged(AppState::Updating, now()));
    assert!(v.timing);
    assert_eq!(effects.len(), 3);
    assert!(matches!(&effects[0], StatusEffect::ShowPage(p) if p == "updating"));
    assert!(matches!(&effects[2], StatusEffect::List(UpdateListInput::Reset)));
    v.update(StatusViewInput::AppendLog("a module_name=Brew".to_string()));
    v.update(StatusViewInput::AppendLog("b module_name=Distrobox".to_string()));
    assert_eq!(v.segments.dev_tools, SegmentStatus::Active);
    v.update(StatusViewInput::AppendLog("c module_name=System".to_string()));
    assert_eq!(v.segments.dev_tools, SegmentStatus::Complete);
    assert_eq!(v.segments.system, SegmentStatus::Active);
    v.update(StatusViewInput::AppendLog("level=error".to_string()));
    assert_eq!(v.segments.system, SegmentStatus::Failed);
    assert_eq!(v.log_text.lines().count(), 4);
    v.update(StatusViewInput::StateChanged(AppState::Complete, now()));
    assert!(!v.timing && v.reboot_pending);
    assert_eq!(v.deployments.len(), 4);
    let page = v.idle_page();
    assert_eq!(page.subtitle, "Version 43  ·  Reboot to update");
    assert_eq!(page.pill, "Staged");
    assert!(page.banner.unwrap().offers_restart);
    v.update(StatusViewInput::DismissBanner);
    assert!(v.idle_page().banner.is_none());
    assert_eq!(v.idle_page().pill, "Up to date");
}

#[test]
fn a_failed_update_shows_why() {
    let mut v = view();
    v.update(StatusViewInput::StateChanged(AppState::Updating, now()));
    v.update(StatusViewInput::AppendLog("module_name=Flatpak".to_string()));
    let effects =
        v.update(StatusViewInput::StateChanged(AppState::Error("why".to_string()), now()));
    assert_eq!(v.segments.apps, SegmentStatus::Failed);
    assert!(v.active_module.is_none());
    assert!(matches!(&effects[0], StatusEffect::ShowPage(p) if p == "error"));
    assert!(matches!(&effects[2], StatusEffect::ErrorText(t) if t == "why"));
}

#[test]
fn time_passes_only_while_updating() {
    let mut v = view();
    assert!(v.update(StatusViewInput::TimerTick(5)).is_empty());
    v.update(StatusViewInput::StateChanged(AppState::Updating, now()));
    let effects = v.update(StatusViewInput::TimerTick(125));
    assert!(matches!(&effects[0], StatusEffect::Elapsed(t) if t == "2:05"));
    assert_eq!(elapsed_text(0), "0:00");
    assert_eq!(elapsed_text(3600), "60:00");
}

#[test]
fn pages_and_logs() {
    let mut v = view();
    v.update(StatusViewInput::AppendLog("line".to_string()));
    let effects = v.update(StatusViewInput::CopyLog);
    assert!(matches!(&effects[0], StatusEffect::CopyText(t) if t == "line"));
    v.update(StatusViewInput::ClearLog);
    assert_eq!(v.log_text, "");
    let effects = v.update(StatusViewInput::ShowPage("main".to_string()));
    assert!(matches!(&effects[0], StatusEffect::ShowPage(p) if p == "idle"));
    assert!(matches!(&effects[1], StatusEffect::PageChanged(p) if p == "main"));
    let effects = v.update(StatusViewInput::ShowPage("history".to_string()));
    assert!(matches!(&effects[0], StatusEffect::ShowPage(p) if p == "history"));
}

#[test]
fn the_image_source_is_edited() {
    let mut v = view();
    let effects = v.update(StatusViewInput::EditRegistryUri);
    assert!(v.registry_editing);
    assert!(matches!(&effects[1], StatusEffect::EditorText(t) if t == "quay.io/fedora/fedora-bootc"));
    let effects = v.update(StatusViewInput::SaveRegistryUri("  \n".to_string()));
    assert!(!v.registry_editing);
    assert_eq!(effects.len(), 1);
    assert_eq!(v.registry_uri, "quay.io/fedora/fedora-bootc");
    let effects = v.update(StatusViewInput::SaveRegistryUri("ghcr.io/a/b".to_string()));
    assert_eq!(v.registry_uri, "ghcr.io/a/b");
    assert!(matches!(&effects[1], StatusEffect::SourceLabel(t) if t == "b:stable"));
    assert!(matches!(&effects[3], StatusEffect::FetchChangelog(u, t) if u == "ghcr.io/a/b" && t == "stable"));
    let effects = v.update(StatusViewInput::SelectTag("testing".to_string()));
    assert!(matches!(&effects[0], StatusEffect::TagSubtitle(t) if t == "Pre-release builds — may be unstable"));
    assert!(matches!(&effects[2], StatusEffect::Toast(t) if t == "Tag set to :testing"));
    assert_eq!(source_text("b", "x"), "b:x");
    assert_eq!(tag_description("latest"), "Always the newest stable release");
    assert_eq!(tag_description("?"), "Custom tag");
    v.update(StatusViewInput::EditRegistryUri);
    v.update(StatusViewInput::CancelRegistryUri);
    assert!(!v.registry_editing);
}

#[test]
fn deployments_are_expanded_pinned_and_rolled_back_to() {
    let mut v = view();
    v.update(StatusViewInput::TogglePin("expand:d-prev".to_string()));
    assert_eq!(v.expanded_deployment_id.as_deref(), Some("d-prev"));
    assert!(v.history_rows()[2].expanded);
    v.update(StatusViewInput::TogglePin("expand:d-arch".to_string()));
    assert_eq!(v.expanded_deployment_id.as_deref(), Some("d-arch"));
    v.update(StatusViewInput::TogglePin("expand:d-arch".to_string()));
    assert!(v.expanded_deployment_id.is_none());
    let effects = v.update(StatusViewInput::TogglePin("d-prev".to_string()));
    assert!(matches!(&effects[0], StatusEffect::Toast(t) if t == "Unpinned 42 (allowing pruning)"));
    assert_eq!(v.update(StatusViewInput::TogglePin("?".to_string())).len(), 1);
    assert!(matches!(
        v.update(StatusViewInput::TogglePin("powerwash".to_string())).as_slice(),
        [StatusEffect::AskPowerwash]
    ));
    assert!(matches!(
        v.update(StatusViewInput::TogglePin("factory".to_string())).as_slice(),
        [StatusEffect::AskFactoryReset]
    ));
    let d: MockDeployment = v.deployments[3].clone();
    let effects = v.update(StatusViewInput::RollbackTo(d.clone()));
    assert!(matches!(&effects[0], StatusEffect::AskRollback(h, b)
        if h == "Roll back to 41?" && b.starts_with("The next boot will use quay.io/fedora/fedora-bootc:41.\n")));
    let effects = v.update(StatusViewInput::ConfirmRollback);
    assert!(matches!(&effects[0], StatusEffect::Toast(t) if t == "Rolling back to 41…"));
    assert!(v.update(StatusViewInput::ConfirmRollback).is_empty());
    let effects = v.update(StatusViewInput::SetDefaultBoot(d));
    assert!(matches!(&effects[0], StatusEffect::Toast(t) if t == "Set 41 as default boot"));
}

#[test]
fn the_changelog_follows_what_is_loaded() {
    let mut v = view();
    assert_eq!(v.changelog_version, "43");
    v.update(StatusViewInput::RegistryVersionsLoaded(vec![]));
    assert_eq!(v.changelog_version, "43");
    v.update(StatusViewInput::RegistryVersionsLoaded(vec![
        version("v1", day(2026, 5, 1)),
        version("v2", day(2026, 5, 2)),
    ]));
    assert_eq!(v.changelog_version, "v2");
    let effects = v.update(StatusViewInput::SelectChangelogVersion("v1".to_string()));
    assert_eq!(effects.len(), 3);
    assert_eq!(v.changelog_page("v1").badge, Badge::Booted);
    v.update(StatusViewInput::GithubCommitsLoaded(vec![]));
    v.update(StatusViewInput::SbomDiffLoaded(SbomDiffResult {
        upgraded: vec![],
        removed: vec!["x".to_string()],
        added: vec![],
    }));
    assert_eq!(v.changelog_page("v1").removals, vec!["x"]);
}

// ── The running system ───────────────────────────────────────────────────────

#[test]
fn the_booted_image() {
    let b = describe_booted_image("ghcr.io/ublue-os/bluefin:stable-daily-43.20260222").unwrap();
    assert_eq!(b.title, "ublue-os/bluefin");
    assert_eq!(b.registry_uri, "ghcr.io/ublue-os/bluefin");
    assert_eq!(b.selected_tag, "43");
    assert!(describe_booted_image("bluefin:latest").is_none());
    let json = br#"{"status":{"booted":{"image":{"image":"ghcr.io/a/b:latest"}}}}"#;
    let booted = detect_bootc_image_info(json);
    assert_eq!(read_selected_tag(&booted), "latest");
    assert_eq!(booted.unwrap().title, "a/b");
    assert_eq!(read_selected_tag(&None), "latest");
    assert_eq!(strip_day("testing-43.20260308"), "testing-43");
    assert_eq!(strip_day("testing-43.20260308.1"), "testing-43.20260308.1");
}

#[test]
fn names_and_logos_in_release_files() {
    let files = vec![
        None,
        Some("ID=x\nLOGO=\"\"\n".to_string()),
        Some("IMAGE_ID=\"bluefin\"\nVARIANT_ID=silverblue\nLOGO=\"ublue\"\n".to_string()),
    ];
    assert_eq!(read_image_info(&None, &files).as_deref(), Some("bluefin  ·  silverblue"));
    let plain = vec![Some("IMAGE_ID=a".to_string())];
    assert_eq!(read_image_info(&None, &plain).as_deref(), Some("a"));
    assert_eq!(read_image_info(&None, &vec![None]), None);
    let booted = describe_booted_image("r/o/i:t");
    assert_eq!(read_image_info(&booted, &files).as_deref(), Some("o/i"));
    assert_eq!(read_logo_icon_name(&files), "ublue");
    assert_eq!(read_logo_icon_name(&vec![]), "distributor-logo-symbolic");
}

#[test]
fn ages_in_words() {
    let deployed = FileAge::Seconds(90000);
    let text = |marks: &[FileAge], d: FileAge| get_last_update_time(&marks.to_vec(), d);
    assert_eq!(
        text(&[FileAge::Seconds(3599)], deployed).as_deref(),
        Some("Last update: less than an hour ago")
    );
    assert_eq!(
        text(&[FileAge::Missing, FileAge::Seconds(7200)], deployed).as_deref(),
        Some("Last update: 2 hours ago")
    );
    assert_eq!(
        text(&[FileAge::Seconds(86400)], deployed).as_deref(),
        Some("Last update: 1 days ago")
    );
    assert_eq!(text(&[FileAge::Future, FileAge::Seconds(1)], deployed), None);
    assert_eq!(text(&[FileAge::Missing], deployed).as_deref(), Some("System deployed: 1 days ago"));
    assert_eq!(
        text(&[], FileAge::Seconds(10)).as_deref(),
        Some("System deployed: 0 hours ago")
    );
    assert_eq!(text(&[], FileAge::Future), None);
}

#[test]
fn addresses_of_the_source() {
    let pair = |a: &str, b: &str| Some((a.to_string(), b.to_string()));
    assert_eq!(parse_org_repo("ghcr.io/a/b/c"), pair("a", "b/c"));
    assert_eq!(parse_org_repo("docker://ghcr.io/a/b"), pair("a", "b"));
    assert_eq!(parse_org_repo("a/b"), pair("a", "b"));
    assert_eq!(parse_org_repo("a"), None);
    assert_eq!(
        commits_url("ghcr.io/a/b").as_deref(),
        Some("https://api.github.com/repos/a/b/commits")
    );
    assert_eq!(commits_url("a"), None);
    let client = changelog_client("ghcr.io/a/b/c", "gts.20260101").unwrap();
    assert_eq!(client.registry(), "ghcr.io");
    assert_eq!(client.image(), "b/c");
    assert_eq!(client.stream(), "gts");
    assert!(changelog_client("a/b", "x").is_none());
    assert_eq!(tagged("a/b", "t"), "a/b:t");
}

#[test]
fn tags_to_choose_from() {
    let usual = tag_choices(None);
    assert_eq!(usual, vec!["latest", "42", "41", "testing", "rawhide"]);
    assert_eq!(active_tag(&usual, "41"), Some("41"));
    assert_eq!(active_tag(&usual, "gts"), Some("latest"));
    assert_eq!(active_tag(&tag_choices(Some(vec![])), "x"), None);
}

#[test]
fn the_update_timer() {
    assert_eq!(timer_enabled(Some("enabled\n")), Some(true));
    assert_eq!(timer_enabled(Some(" disabled ")), Some(false));
    assert_eq!(timer_enabled(Some("static")), None);
    assert_eq!(timer_enabled(None), None);
    assert!(auto_updates_enabled(Some(true), false));
    assert!(auto_updates_enabled(None, true));
    assert!(!auto_updates_enabled(Some(false), true));
    assert_eq!(timer_query_command(false).args, vec!["is-enabled", "uupd.timer"]);
    let on = timer_switch_command(false, true);
    assert_eq!(on.program, "pkexec");
    assert_eq!(on.args, vec!["systemctl", "enable", "--now", "uupd.timer"]);
    assert_eq!(
        timer_switch_command(true, false).args,
        vec!["--host", "pkexec", "systemctl", "disable", "--now", "uupd.timer"]
    );
}

#[test]
fn commands_for_the_image() {
    assert_eq!(update_check_command(false).program, "uupd");
    assert_eq!(update_check_command(true).args, vec!["--host", "uupd", "update-check"]);
    assert_eq!(status_command(false, false).program, "bootc");
    assert_eq!(status_command(false, true).args, vec!["bootc", "status", "--json"]);
    assert_eq!(
        switch_command(true, "ref").args,
        vec!["--host", "pkexec", "bootc", "switch", "ref"]
    );
    assert_eq!(
        read_file_command(true, "/etc/os-release").args,
        vec!["--host", "cat", "/etc/os-release"]
    );
    assert_eq!(connection_note(true).1, "warning");
    assert_eq!(connection_note(false).1, "success");
}

// ── Switching to another build ───────────────────────────────────────────────

#[test]
fn a_month_of_builds() {
    let list = vec![
        version("a", day(2026, 5, 3)),
        version("b", day(2026, 5, 27)),
        version("c", day(2026, 5, 30)),
    ];
    let today = day(2026, 5, 28);
    let month = calendar_month(
        day(2026, 5, 1),
        &list,
        current_date(&list),
        Some(day(2026, 5, 3)),
        today,
    );
    assert_eq!(month.title, "May 2026");
    assert!(!month.has_next);
    assert_eq!(month.cells.len(), 42);
    // The first of May 2026 is a Friday.
    assert!(month.cells[3].is_none());
    let first = month.cells[4].unwrap();
    assert_eq!(first.date, day(2026, 5, 1));
    assert!(!first.available && !first.enabled);
    let third = month.cells[6].unwrap();
    assert!(third.available && third.enabled && third.selected && !third.current);
    assert!(month.cells[31].unwrap().today);
    let future = month.cells[33].unwrap();
    assert!(future.available && future.current && !future.enabled);
    assert_eq!(month.cells[34].unwrap().date.day, 31);
    assert!(month.cells[35].is_none());
    assert!(calendar_month(day(2026, 4, 1), &list, None, None, today).has_next);
}

#[test]
fn builds_by_day() {
    let list = vec![
        version("a", day(2026, 5, 3)),
        version("b", day(2026, 5, 3)),
        version("c", day(2026, 5, 4)),
    ];
    assert_eq!(version_on(&list, day(2026, 5, 3)).unwrap().version, "b");
    assert!(version_on(&list, day(2026, 5, 5)).is_none());
    assert_eq!(current_date(&list), Some(day(2026, 5, 4)));
    assert_eq!(current_date(&vec![]), None);
    let d = day(2026, 5, 3);
    assert_eq!(toggle_selection(None, d), Some(d));
    assert_eq!(toggle_selection(Some(d), d), None);
    assert_eq!(toggle_selection(Some(day(2026, 5, 4)), d), Some(d));
}

#[test]
fn details_of_a_build() {
    let mut v = version("a", day(2026, 5, 3));
    let details = build_details(&v, v.date, Some(day(2026, 5, 4)));
    assert_eq!(details.built, "May 3, 2026 · 04:30 UTC");
    assert_eq!(details.commit, "0123456789");
    assert_eq!(details.action, "Rebase to May 3…");
    assert!(details.enabled);
    v.revision = String::new();
    let current = build_details(&v, v.date, Some(v.date));
    assert_eq!(current.commit, "—");
    assert_eq!(current.action, "Currently Installed");
    assert!(!current.enabled);
    assert_eq!(
        confirm_text(v.date, "a"),
        "Your system will be rebased to the May 3, 2026 build (version a).\n\nThis requires a restart to take effect and will re-download the full image."
    );
}

#[test]
fn made_up_builds() {
    let list = generate_mock_versions(&None, day(2026, 5, 27));
    assert_eq!(list.len(), 13);
    assert_eq!(list[0].date, day(2026, 4, 27));
    let last = list.last().unwrap();
    assert_eq!(last.date, day(2026, 5, 25));
    assert_eq!(last.version, "latest-20260525");
    assert_eq!(last.full_ref, "ghcr.io/projectbluefin/dakota:latest-20260525");
    assert_eq!(last.kernel, "6.12.1-200.fc42.x86_64");
    assert_eq!(last.revision, "deadbe01");
    assert_eq!(last.created, last.date.at(4, 30));
    assert_eq!(list[11].date, day(2026, 5, 23));
    assert_eq!(list[9].date, day(2026, 5, 18));
    for pair in list.windows(2) {
        assert!(pair[0].date.key() < pair[1].date.key());
    }
    for v in &list {
        assert_eq!(parse_dated_tag(&v.version, "latest"), Some(v.date));
    }
    let client = RegistryClient::new("r", "o", "i", "s");
    assert_eq!(
        generate_mock_versions(&Some(client), day(2026, 5, 27))[12].full_ref,
        "r/o/i:latest-20260525"
    );
}

#[test]
fn ends_of_a_switch() {
    assert_eq!(switch_result(&SwitchOutcome::Exited(Some(0))), Ok(()));
    assert_eq!(
        switch_result(&SwitchOutcome::Exited(Some(2))),
        Err("bootc switch exited with code 2".to_string())
    );
    assert_eq!(
        switch_result(&SwitchOutcome::Exited(None)),
        Err("bootc switch exited with code -1".to_string())
    );
    assert_eq!(
        switch_result(&SwitchOutcome::NotRun("gone".to_string())),
        Err("Failed to run bootc switch: gone".to_string())
    );
}

#[test]
fn waiting_for_builds() {
    assert!(matches!(fetch_step(FetchProgress::Waiting, 20000), FetchStep::KeepWaiting));
    assert!(matches!(
        fetch_step(FetchProgress::Waiting, 20001),
        FetchStep::ShowError("Check your internet connection and try again.")
    ));
    assert!(matches!(fetch_step(FetchProgress::Loaded, 90000), FetchStep::ShowBuilds));
    assert!(matches!(
        fetch_step(FetchProgress::NotDetected, 0),
        FetchStep::ShowError(
            "Could not detect the current image. Is bootc installed and managing this system?"
        )
    ));
    assert!(matches!(fetch_step(FetchProgress::Failed, 0), FetchStep::ShowError(_)));
}
