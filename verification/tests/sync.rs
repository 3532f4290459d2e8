use vestige_sync::export::{
    export_command_args, export_loop_action, ExistingFile, ExportAction,
    ExportEvent, ExportLoopAction, ExportLoopEvent, ExportOutcome, ExportRun,
};
use vestige_sync::import::{
    import_candidates, import_command_args, is_import_candidate, select_watch_imports,
    MtimeTracker, WatchEvent, WatchKind,
};
use vestige_sync::cli::ExportFormat;
use vestige_sync::proxy::{exit_code, mcp_args, ChildExit};
use vestige_sync::text::string_of;

fn strings(v: &[&str]) -> Vec<String> {
    v.iter().map(|s| s.to_string()).collect()
}

#[test]
fn string_of_builds_the_characters() {
    assert_eq!(string_of(&['a', 'é', 'z']), "aéz");
    assert_eq!(string_of(&[]), "");
}

#[test]
fn export_loop_exports_until_shutdown() {
    assert_eq!(export_loop_action(ExportLoopEvent::Tick), ExportLoopAction::Export);
    assert_eq!(export_loop_action(ExportLoopEvent::Shutdown), ExportLoopAction::Stop);
}

#[test]
fn export_writes_first_to_the_dotfile() {
    let (run, args) = ExportRun::start("/sync/host.jsonl", ExportFormat::Jsonl, None);
    assert_eq!(run.tmp_file(), "/sync/.host.jsonl");
    assert_eq!(args, strings(&["export", "--format", "jsonl", "/sync/.host.jsonl"]));
    let (run, args) = ExportRun::start("/sync/host.json.gz", ExportFormat::JsonGz, Some("/db"));
    assert_eq!(run.tmp_file(), "/sync/.host.json.gz");
    assert_eq!(
        args,
        strings(&["--data-dir", "/db", "export", "--format", "json.gz", "/sync/.host.json.gz"])
    );
}

#[test]
fn command_arguments() {
    assert_eq!(
        export_command_args(None, ExportFormat::Json, "/s/.a.json"),
        strings(&["export", "--format", "json", "/s/.a.json"])
    );
    assert_eq!(
        export_command_args(Some("/db"), ExportFormat::JsonlGz, "/s/.a.jsonl.gz"),
        strings(&["--data-dir", "/db", "export", "--format", "jsonl.gz", "/s/.a.jsonl.gz"])
    );
    assert_eq!(
        import_command_args(Some("/db"), "/s/b.json"),
        strings(&["--data-dir", "/db", "import", "/s/b.json"])
    );
    assert_eq!(import_command_args(None, "/s/b.json"), strings(&["import", "/s/b.json"]));
}

fn finish(a: ExportAction) -> ExportOutcome {
    match a {
        ExportAction::Finish(o) => o,
        other => panic!("expected a finish, got {:?}", other),
    }
}

#[test]
fn export_cycle_unchanged_content_discards_tmp() {
    let (mut run, args) = ExportRun::start("/s/host.json", ExportFormat::Json, None);
    assert_eq!(args, strings(&["export", "--format", "json", "/s/.host.json"]));
    assert_eq!(run.tmp_file(), "/s/.host.json");
    assert_eq!(run.export_file(), "/s/host.json");
    assert!(matches!(run.step(ExportEvent::CommandFinished { success: true, stderr: vec![] }), ExportAction::CheckOutput));
    assert!(matches!(run.step(ExportEvent::OutputChecked { exists: true }), ExportAction::RestrictPermissions));
    assert!(matches!(run.step(ExportEvent::PermissionsRestricted { ok: true }), ExportAction::ReadExisting));
    assert!(matches!(run.step(ExportEvent::ExistingRead(ExistingFile::Contents(vec![1, 2, 3]))), ExportAction::ReadNew));
    assert!(matches!(run.step(ExportEvent::NewRead(Some(vec![1, 2, 3]))), ExportAction::RemoveTmp));
    assert!(matches!(finish(run.step(ExportEvent::TmpRemoved { ok: true })), ExportOutcome::Unchanged));
    assert!(run.is_finished());
}

#[test]
fn export_cycle_changed_content_renames() {
    let (mut run, _) = ExportRun::start("/s/host.json", ExportFormat::Json, Some("/db"));
    run.step(ExportEvent::CommandFinished { success: true, stderr: vec![] });
    run.step(ExportEvent::OutputChecked { exists: true });
    run.step(ExportEvent::PermissionsRestricted { ok: true });
    run.step(ExportEvent::ExistingRead(ExistingFile::Contents(vec![1, 2, 3])));
    assert!(matches!(run.step(ExportEvent::NewRead(Some(vec![1, 2]))), ExportAction::RenameTmp));
    assert!(matches!(finish(run.step(ExportEvent::TmpRenamed { ok: true })), ExportOutcome::Updated));
}

#[test]
fn export_cycle_first_export_renames() {
    let (mut run, _) = ExportRun::start("/s/host.json", ExportFormat::Json, None);
    run.step(ExportEvent::CommandFinished { success: true, stderr: vec![] });
    run.step(ExportEvent::OutputChecked { exists: true });
    run.step(ExportEvent::PermissionsRestricted { ok: true });
    assert!(matches!(run.step(ExportEvent::ExistingRead(ExistingFile::NotFound)), ExportAction::RenameTmp));
    assert!(matches!(finish(run.step(ExportEvent::TmpRenamed { ok: false })), ExportOutcome::IoFailed));
}

#[test]
fn export_cycle_failures() {
    let (mut run, _) = ExportRun::start("/s/host.json", ExportFormat::Json, None);
    match finish(run.step(ExportEvent::CommandFinished { success: false, stderr: b"boom".to_vec() })) {
        ExportOutcome::CommandFailed { stderr } => assert_eq!(stderr, b"boom".to_vec()),
        other => panic!("unexpected {:?}", other),
    }
    let (mut run, _) = ExportRun::start("/s/host.json", ExportFormat::Json, None);
    run.step(ExportEvent::CommandFinished { success: true, stderr: vec![] });
    assert!(matches!(finish(run.step(ExportEvent::OutputChecked { exists: false })), ExportOutcome::MissingOutput));
    let (mut run, _) = ExportRun::start("/s/host.json", ExportFormat::Json, None);
    run.step(ExportEvent::CommandFinished { success: true, stderr: vec![] });
    run.step(ExportEvent::OutputChecked { exists: true });
    run.step(ExportEvent::PermissionsRestricted { ok: true });
    assert!(matches!(finish(run.step(ExportEvent::ExistingRead(ExistingFile::Failed))), ExportOutcome::IoFailed));
    let (mut run, _) = ExportRun::start("/s/host.json", ExportFormat::Json, None);
    assert!(matches!(finish(run.step(ExportEvent::TmpRemoved { ok: true })), ExportOutcome::Unexpected));
    assert!(matches!(finish(run.step(ExportEvent::TmpRemoved { ok: true })), ExportOutcome::Unexpected));
}

#[test]
fn import_candidate_rules() {
    let own = "/sync/laptop.json";
    assert!(is_import_candidate("/sync/desktop.json", own));
    assert!(!is_import_candidate("/sync/laptop.json", own));
    assert!(!is_import_candidate("/sync//laptop.json", own));
    assert!(!is_import_candidate("/sync/./laptop.json/", own));
    assert!(!is_import_candidate("/sync/desktop.json.tmp", own));
    assert!(is_import_candidate("/sync/desktop.jsonl", own));
    assert!(is_import_candidate("/sync/desktop.json.gz", own));
    assert!(is_import_candidate("/sync/desktop.jsonl.gz", own));
    assert!(!is_import_candidate("/sync/notes.txt", own));
    assert!(!is_import_candidate("/sync/.json", own));
    assert!(!is_import_candidate("/sync/.desktop.json", own));
    assert!(!is_import_candidate(&ExportFormat::tmp_path(own), own));
    assert!(!is_import_candidate(&ExportFormat::tmp_path("/sync/desktop.jsonl"), own));
    assert!(is_import_candidate("/sync/laptop.jsonl", own));
}

#[test]
fn import_candidates_keep_listing_order() {
    let listing = strings(&[
        "/sync/b.json",
        "/sync/laptop.json",
        "/sync/a.json",
        "/sync/a.json.tmp",
        "/sync/notes.txt",
        "/sync/c.jsonl.gz",
        "/sync/.d.json",
    ]);
    assert_eq!(
        import_candidates(&listing, "/sync/laptop.json"),
        strings(&["/sync/b.json", "/sync/a.json", "/sync/c.jsonl.gz"])
    );
    assert!(import_candidates(&vec![], "/sync/laptop.json").is_empty());
}

#[test]
fn mtime_tracker_imports_new_and_changed_files_only() {
    let mut t = MtimeTracker::new();
    assert!(t.observe("/sync/a.json", 100));
    assert!(!t.observe("/sync/a.json", 100));
    assert!(!t.observe("/sync//a.json", 90));
    assert!(t.observe("/sync/b.json", 50));
    assert!(t.observe("/sync/a.json", 101));
    assert!(!t.observe("/sync/a.json", 101));
    assert!(!t.observe("/sync/b.json", -5));
}

fn ev(kind: WatchKind, p: &str) -> WatchEvent {
    WatchEvent { kind, path: p.to_string() }
}

#[test]
fn watch_batch_is_sorted_and_distinct() {
    let events = vec![
        ev(WatchKind::Any, "/sync/c.json"),
        ev(WatchKind::Any, "/sync/a.json"),
        ev(WatchKind::AnyContinuous, "/sync/b.json"),
        ev(WatchKind::Any, "/sync/c.json"),
        ev(WatchKind::Any, "/sync/laptop.json"),
        ev(WatchKind::Any, "/sync/a.json.tmp"),
        ev(WatchKind::Any, "/sync/.b.json"),
        ev(WatchKind::Any, "/sync//a.json"),
        ev(WatchKind::Any, "/sync/b.jsonl"),
    ];
    assert_eq!(
        select_watch_imports(&events, "/sync/laptop.json"),
        strings(&["/sync/a.json", "/sync/b.jsonl", "/sync/c.json"])
    );
}

#[test]
fn watch_batch_orders_by_components() {
    // As paths, "/sync/a-b/x.json" sorts after "/sync/a/x.json" ("a" < "a-b"),
    // although '-' sorts before '/' as a character.
    let events = vec![ev(WatchKind::Any, "/sync/a-b/x.json"), ev(WatchKind::Any, "/sync/a/x.json")];
    assert_eq!(
        select_watch_imports(&events, "/sync/own.json"),
        strings(&["/sync/a/x.json", "/sync/a-b/x.json"])
    );
    assert!(select_watch_imports(&vec![], "/sync/own.json").is_empty());
}

#[test]
fn mcp_arguments_put_data_dir_first() {
    let fwd = strings(&["--http-port", "9000"]);
    assert_eq!(mcp_args(Some("/db"), &fwd), strings(&["--data-dir", "/db", "--http-port", "9000"]));
    assert_eq!(mcp_args(None, &fwd), fwd);
}

#[test]
fn exit_codes() {
    assert_eq!(exit_code(ChildExit::Signaled(15)), 143);
    assert_eq!(exit_code(ChildExit::Signaled(9)), 137);
    assert_eq!(exit_code(ChildExit::Exited(Some(0))), 0);
    assert_eq!(exit_code(ChildExit::Exited(Some(3))), 3);
    assert_eq!(exit_code(ChildExit::Exited(Some(257))), 1);
    assert_eq!(exit_code(ChildExit::Exited(None)), 1);
    assert_eq!(exit_code(ChildExit::WaitFailed), 1);
}
