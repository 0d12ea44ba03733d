//! Running an update: its process, its modules and the state of the application.

use finupdate::app::{
    message_for, preflight_status, App, AppEffect, AppMsg, AppState, PreflightStatus,
};
use finupdate::family::{known_families, Family};
use finupdate::log_view::text_to_append;
use finupdate::segmented_progress::{same_segment, SegmentStatus, SegmentedProgress, Segment};
use finupdate::settings::{Settings, UpdateInterval};
use finupdate::update_list::{
    append_line, detect_module_start, Module, ModuleStatus, UpdateList, UpdateListInput,
};
use finupdate::update_worker::{
    is_flatpak, simulation_end, simulation_script, ProcessOutcome, SimulationScenario, UpdateEvent,
    UpdateWorker,
};

#[test]
fn the_default_command_is_a_full_update() {
    let worker = UpdateWorker::new();
    let native = worker.build_command(false);
    assert_eq!(native.program, "uupd");
    assert!(native.args.is_empty());
    let inside = worker.build_command(true);
    assert_eq!(inside.program, "flatpak-spawn");
    assert_eq!(inside.args, vec!["--host", "uupd"]);
    assert_eq!(worker.command_display(false), "uupd");
    assert_eq!(worker.command_display(true), "flatpak-spawn --host uupd");
}

#[test]
fn another_command_keeps_its_arguments() {
    let worker = UpdateWorker::with_command("echo", vec!["a".to_string(), "b".to_string()]);
    assert_eq!(worker.build_command(false).args, vec!["a", "b"]);
    assert_eq!(worker.build_command(true).args, vec!["--host", "echo", "a", "b"]);
}

fn error_text(event: UpdateEvent) -> String {
    match event {
        UpdateEvent::Error(text) => text,
        other => panic!("not an error: {:?}", other),
    }
}

#[test]
fn ends_of_a_run() {
    let worker = UpdateWorker::new();
    assert!(matches!(
        worker.finish(false, &ProcessOutcome::Exited(Some(0))),
        UpdateEvent::Complete
    ));
    assert!(matches!(
        worker.finish(false, &ProcessOutcome::Exited(Some(77))),
        UpdateEvent::UpToDate
    ));
    assert_eq!(
        error_text(worker.finish(false, &ProcessOutcome::Exited(Some(3)))),
        "Update process exited with code 3"
    );
    assert_eq!(
        error_text(worker.finish(false, &ProcessOutcome::Exited(None))),
        "Update process exited with code -1"
    );
    assert_eq!(
        error_text(worker.finish(true, &ProcessOutcome::NotStarted("no such file".to_string()))),
        "Failed to start 'flatpak-spawn --host uupd': no such file"
    );
    assert_eq!(
        error_text(worker.finish(false, &ProcessOutcome::WaitFailed("lost".to_string()))),
        "Error waiting for update process: lost"
    );
    assert_eq!(
        error_text(worker.finish(false, &ProcessOutcome::Cancelled)),
        "Update cancelled by user"
    );
}

#[test]
fn the_sandbox_is_told_by_its_file() {
    assert_eq!(is_flatpak(), std::path::Path::new("/.flatpak-info").exists());
}

#[test]
fn simulated_runs() {
    let ok = simulation_script(SimulationScenario::Success);
    assert_eq!(ok.len(), 20);
    assert_eq!(
        ok[0].line.as_deref(),
        Some("time=2026-05-26T04:00:00Z level=INFO msg=\"[DEV MODE] Starting finupdate simulation\"")
    );
    assert_eq!(ok[0].pause_ms, 300);
    assert_eq!(ok[1].pause_ms, 500);
    assert!(ok[18].line.is_none());
    assert_eq!(
        ok[19].line.as_deref(),
        Some("time=2026-05-26T04:00:00Z level=INFO msg=\"Updates Completed Successfully\"")
    );
    assert!(matches!(simulation_end(SimulationScenario::Success, false), UpdateEvent::Complete));
    let current = simulation_script(SimulationScenario::AlreadyUpToDate);
    assert_eq!(current.len(), 16);
    assert_eq!(
        current[4].line.as_deref(),
        Some("time=2026-05-26T04:00:00Z level=INFO msg=\"Image is already up to date\"")
    );
    assert!(matches!(
        simulation_end(SimulationScenario::AlreadyUpToDate, false),
        UpdateEvent::UpToDate
    ));
    let failed = simulation_script(SimulationScenario::Failure);
    assert_eq!(
        failed[4].line.as_deref(),
        Some("time=2026-05-26T04:00:00Z level=ERROR msg=\"module_fail\" module=System cli=\"bootc upgrade\"")
    );
    assert_eq!(
        error_text(simulation_end(SimulationScenario::Failure, false)),
        "[DEV MODE] Simulated system module failure"
    );
    assert_eq!(
        error_text(simulation_end(SimulationScenario::Success, true)),
        "Update cancelled by user"
    );
}

#[test]
fn every_simulated_run_announces_all_modules() {
    for scenario in [
        SimulationScenario::Success,
        SimulationScenario::AlreadyUpToDate,
        SimulationScenario::Failure,
    ] {
        let seen: Vec<Module> = simulation_script(scenario)
            .into_iter()
            .filter_map(|step| step.line)
            .filter_map(|line| detect_module_start(&line))
            .collect();
        assert_eq!(seen, Module::all());
    }
}

#[test]
fn a_simulated_success_runs_through_all_modules() {
    let mut list = UpdateList::new();
    let mut seen = vec![];
    for step in simulation_script(SimulationScenario::Success) {
        if let Some(line) = step.line {
            if let Some(module) = detect_module_start(&line) {
                seen.push(module);
            }
            list.update(&UpdateListInput::ProcessLine(line));
        }
    }
    assert_eq!(seen, Module::all());
    assert_eq!(list.status(Module::System), ModuleStatus::Complete);
    assert_eq!(list.status(Module::Brew), ModuleStatus::Complete);
    assert_eq!(list.status(Module::Distrobox), ModuleStatus::Running);
    list.update(&UpdateListInput::MarkAllComplete);
    for module in Module::all() {
        assert_eq!(list.status(module), ModuleStatus::Complete);
    }
    assert_eq!(list.log_text(Module::System).lines().count(), 5);
}

#[test]
fn a_failed_module_stays_failed() {
    let mut list = UpdateList::new();
    list.update(&UpdateListInput::ProcessLine("nobody's line".to_string()));
    list.update(&UpdateListInput::ProcessLine("x module_name=System".to_string()));
    list.update(&UpdateListInput::ProcessLine("level=ERROR".to_string()));
    assert_eq!(list.status(Module::System), ModuleStatus::Failed);
    assert_eq!(list.log_text(Module::System), "x module_name=System\nlevel=ERROR");
    list.update(&UpdateListInput::ProcessLine("module_name=Flatpak".to_string()));
    assert_eq!(list.status(Module::System), ModuleStatus::Failed);
    assert_eq!(list.status(Module::Flatpak), ModuleStatus::Running);
    list.update(&UpdateListInput::MarkCurrentFailed);
    assert_eq!(list.status(Module::Flatpak), ModuleStatus::Failed);
    assert_eq!(list.status(Module::Brew), ModuleStatus::Pending);
    list.update(&UpdateListInput::MarkAllComplete);
    assert_eq!(list.status(Module::Flatpak), ModuleStatus::Failed);
    assert_eq!(list.status(Module::Brew), ModuleStatus::Complete);
    list.update(&UpdateListInput::SetNerdMode(true));
    assert!(list.nerd_mode());
    list.update(&UpdateListInput::Reset);
    assert!(!list.nerd_mode());
    assert_eq!(list.status(Module::System), ModuleStatus::Pending);
    assert_eq!(list.log_text(Module::System), "");
}

#[test]
fn an_announcement_can_fail_at_once() {
    let mut list = UpdateList::new();
    list.update(&UpdateListInput::ProcessLine("module_name=Brew module_fail".to_string()));
    assert_eq!(list.status(Module::Brew), ModuleStatus::Failed);
}

#[test]
fn words_for_modules() {
    assert_eq!(Module::System.name(), "System");
    assert_eq!(Module::Distrobox.key(), "distrobox");
    assert_eq!(Module::Brew.index(), 2);
    assert_eq!(ModuleStatus::Pending.subtitle(Module::Flatpak), "Applications");
    assert_eq!(ModuleStatus::Running.subtitle(Module::Flatpak), "Updating…");
    assert_eq!(ModuleStatus::Failed.page(), "failed");
    assert_eq!(detect_module_start("module_name=Nothing"), None);
}

#[test]
fn segments_of_modules() {
    assert!(same_segment(Module::Brew, Module::Distrobox));
    assert!(!same_segment(Module::System, Module::Flatpak));
    let bar = SegmentedProgress::all(SegmentStatus::Pending)
        .with_module(Module::Distrobox, SegmentStatus::Active);
    assert_eq!(bar.status(Segment::DevTools), SegmentStatus::Active);
    assert_eq!(bar.status(Segment::System), SegmentStatus::Pending);
    assert_eq!(bar.status(Segment::Apps), SegmentStatus::Pending);
}

#[test]
fn a_log_of_lines() {
    assert_eq!(append_line("", "a"), "a");
    assert_eq!(append_line("a", "b"), "a\nb");
    assert_eq!(text_to_append(true, "a"), "a");
    assert_eq!(text_to_append(false, "b"), "\nb");
}

#[test]
fn the_application_from_start_to_end() {
    let mut app = App::new();
    assert_eq!(*app.state(), AppState::Idle);
    assert!(app.may_close());
    let effects = app.update(AppMsg::StartUpdate);
    assert!(matches!(
        effects.as_slice(),
        [AppEffect::ShowState(AppState::Updating), AppEffect::ClearLog, AppEffect::StartWorker]
    ));
    assert!(!app.may_close());
    app.update(message_for(UpdateEvent::Output("one".to_string())));
    let effects = app.update(AppMsg::OutputLine("two".to_string()));
    assert!(matches!(effects.as_slice(), [AppEffect::AppendLog(l)] if l == "two"));
    assert_eq!(app.log_lines(), &vec!["one".to_string(), "two".to_string()]);
    let effects = app.update(message_for(UpdateEvent::Complete));
    assert_eq!(*app.state(), AppState::Complete);
    assert!(matches!(
        effects.as_slice(),
        [AppEffect::ShowState(AppState::Complete), AppEffect::Toast(t)]
            if t == "System update complete"
    ));
    app.update(AppMsg::Dismiss);
    assert_eq!(*app.state(), AppState::Idle);
    assert_eq!(app.log_lines().len(), 2);
    app.update(AppMsg::StartUpdate);
    assert!(app.log_lines().is_empty());
}

#[test]
fn a_cancelled_update_goes_back_to_the_start() {
    let mut app = App::new();
    assert!(app.update(AppMsg::CancelUpdate).is_empty());
    app.update(AppMsg::StartUpdate);
    let effects = app.update(AppMsg::CancelUpdate);
    assert!(matches!(effects.as_slice(), [AppEffect::StopWorker]));
    assert_eq!(*app.state(), AppState::Updating);
    let event = UpdateWorker::new().finish(false, &ProcessOutcome::Cancelled);
    app.update(message_for(event));
    assert_eq!(*app.state(), AppState::Idle);
}

#[test]
fn a_failed_update_can_be_tried_again() {
    let mut app = App::new();
    app.update(AppMsg::StartUpdate);
    let event = UpdateWorker::new().finish(false, &ProcessOutcome::Exited(Some(1)));
    app.update(message_for(event));
    assert_eq!(*app.state(), AppState::Error("Update process exited with code 1".to_string()));
    app.update(AppMsg::StartUpdate);
    assert_eq!(*app.state(), AppState::Updating);
    app.update(message_for(UpdateEvent::UpToDate));
    assert_eq!(*app.state(), AppState::UpToDate);
}

#[test]
fn intervals_and_their_places() {
    for (i, interval) in [
        UpdateInterval::Hourly,
        UpdateInterval::Daily,
        UpdateInterval::Weekly,
        UpdateInterval::Custom,
    ]
    .iter()
    .enumerate()
    {
        assert_eq!(interval.to_index(), i as u32);
        assert_eq!(UpdateInterval::from_index(i as u32), *interval);
    }
    assert_eq!(UpdateInterval::from_index(99), UpdateInterval::Custom);
}

#[test]
fn settings_at_first() {
    let s = Settings::default();
    assert!(s.auto_updates && s.pause_on_metered && !s.dev_mode);
    assert_eq!(s.update_interval, UpdateInterval::Daily);
    assert_eq!(s.custom_interval_hours, 6);
    assert_eq!(s.sim_scenario, SimulationScenario::Success);
    assert!(s.mock_identity.is_none());
}

#[test]
fn every_derived_image_is_selected_by_its_features() {
    for family in known_families() {
        let base = family.base_image();
        assert_eq!(family.select_image_for_features(&[]), Some(base));
        for image in &family.images {
            if *image == base {
                continue;
            }
            let features: Vec<&str> = image[base.len() + 1..].split('-').collect();
            assert_eq!(family.select_image_for_features(&features), Some(*image));
            for feature in features {
                assert!(family.available_features().contains(&feature));
            }
        }
    }
}

#[test]
fn features_count_as_often_as_they_are_named() {
    let bluefin = Family::best_match("ublue-os", "bluefin", "stable").unwrap();
    assert!(bluefin.select_image_for_features(&["nvidia", "nvidia"]).is_none());
    assert!(bluefin.select_image_for_features(&["unheard-of"]).is_none());
    assert_eq!(known_families().len(), 7);
    assert!(Family::all_for_image("projectbluefin", "bluefin").is_empty());
}

#[test]
fn the_check_for_updates() {
    assert_eq!(preflight_status(Some(0)), PreflightStatus::UpdateAvailable);
    assert_eq!(preflight_status(Some(77)), PreflightStatus::UpToDate);
    assert_eq!(preflight_status(Some(1)), PreflightStatus::Unknown);
    assert_eq!(preflight_status(None), PreflightStatus::Unknown);
}
