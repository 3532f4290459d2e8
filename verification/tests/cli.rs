use vestige_sync::cli::{
    expand_tilde, expand_tilde_with_home, is_tilde_path, Args, ExportFormat, SUPPORTED_EXTENSIONS,
};

#[test]
fn extension_returns_correct_values() {
    assert_eq!(ExportFormat::Json.extension(), "json");
    assert_eq!(ExportFormat::Jsonl.extension(), "jsonl");
    assert_eq!(ExportFormat::JsonGz.extension(), "json.gz");
    assert_eq!(ExportFormat::JsonlGz.extension(), "jsonl.gz");
}

#[test]
fn export_path_uses_extension() {
    let dir = "/sync";
    assert_eq!(ExportFormat::Json.export_path(dir, "host"), "/sync/host.json");
    assert_eq!(ExportFormat::JsonGz.export_path(dir, "host"), "/sync/host.json.gz");
}

#[test]
fn tmp_path_prepends_dot() {
    assert_eq!(ExportFormat::tmp_path("/sync/host.json"), "/sync/.host.json");
    assert_eq!(ExportFormat::tmp_path("/sync/host.json.gz"), "/sync/.host.json.gz");
    // Bare filename (no parent directory component)
    assert_eq!(ExportFormat::tmp_path("host.jsonl"), ".host.jsonl");
}

#[test]
fn is_supported_path_covers_all_variants() {
    for ext in SUPPORTED_EXTENSIONS {
        let path = format!("host.{ext}");
        assert!(
            ExportFormat::is_supported_path(&path),
            "is_supported_path should match .{ext}"
        );
    }
}

#[test]
fn is_supported_path_rejects_unsupported() {
    assert!(!ExportFormat::is_supported_path("host.txt"));
    assert!(!ExportFormat::is_supported_path("host.csv"));
    assert!(!ExportFormat::is_supported_path(".host.json")); // dotfile
}

#[test]
fn vestige_flag_matches_extension() {
    for f in [ExportFormat::Json, ExportFormat::Jsonl, ExportFormat::JsonGz, ExportFormat::JsonlGz] {
        assert_eq!(f.vestige_flag(), f.extension());
        assert!(SUPPORTED_EXTENSIONS.contains(&f.extension()));
    }
}

#[test]
fn export_path_joins_like_a_path() {
    assert_eq!(ExportFormat::Jsonl.export_path("/sync/", "host"), "/sync/host.jsonl");
    assert_eq!(ExportFormat::Jsonl.export_path("", "host"), "host.jsonl");
    assert_eq!(ExportFormat::Json.export_path("/sync", "/abs/host"), "/abs/host.json");
}

#[test]
fn exported_files_are_supported_and_tmp_files_are_not() {
    for f in [ExportFormat::Json, ExportFormat::Jsonl, ExportFormat::JsonGz, ExportFormat::JsonlGz] {
        let p = f.export_path("/sync", "laptop");
        assert!(ExportFormat::is_supported_path(&p));
        let t = ExportFormat::tmp_path(&p);
        assert!(!ExportFormat::is_supported_path(&t));
        assert!(t.ends_with(f.extension()));
    }
}

#[test]
fn is_supported_path_reads_the_file_name() {
    assert!(ExportFormat::is_supported_path("/sync/host.json/"));
    assert!(ExportFormat::is_supported_path("/sync/host.json/."));
    assert!(!ExportFormat::is_supported_path("/sync/host.json/.."));
    assert!(!ExportFormat::is_supported_path("/"));
    assert!(!ExportFormat::is_supported_path(""));
    assert!(!ExportFormat::is_supported_path("host.json.bak"));
    assert!(!ExportFormat::is_supported_path("json"));
    assert!(ExportFormat::is_supported_path("a.jsonl.gz"));
}

#[test]
fn tmp_path_edge_cases() {
    assert_eq!(ExportFormat::tmp_path("/sync//host.json/"), "/sync/.host.json");
    assert_eq!(ExportFormat::tmp_path("foo.txt/."), ".foo.txt");
    assert_eq!(ExportFormat::tmp_path("./host.json"), "./.host.json");
    assert_eq!(ExportFormat::tmp_path("/host.json"), "/.host.json");
    assert_eq!(ExportFormat::tmp_path("/"), "./.");
}

#[test]
fn expand_tilde_with_home_cases() {
    assert_eq!(expand_tilde_with_home("~", Some("/home/u")), "/home/u");
    assert_eq!(expand_tilde_with_home("~/sync", Some("/home/u")), "/home/u/sync");
    assert_eq!(expand_tilde_with_home("~/sync", Some("/home/u/")), "/home/u/sync");
    assert_eq!(expand_tilde_with_home("~/", Some("/home/u")), "/home/u/");
    assert_eq!(expand_tilde_with_home("~//abs", Some("/home/u")), "/abs");
    assert_eq!(expand_tilde_with_home("~user/x", Some("/home/u")), "~user/x");
    assert_eq!(expand_tilde_with_home("/tmp/~", Some("/home/u")), "/tmp/~");
    assert_eq!(expand_tilde_with_home("~/sync", None), "~/sync");
    let once = expand_tilde_with_home("~/sync", Some("/home/u"));
    assert_eq!(expand_tilde_with_home(&once, Some("/home/u")), once);
}

#[test]
fn resolve_paths_expands_every_path_argument() {
    let mut args = Args {
        sync_dir: "~/Sync/vestige".to_string(),
        filename: "{hostname}".to_string(),
        format: ExportFormat::Jsonl,
        export_interval: 900,
        poll_interval: Some(5),
        export_on_exit: true,
        db_path: Some("~/.vestige".to_string()),
        restore_on_start: false,
        vestige_bin: "vestige-mcp".to_string(),
        vestige_cli: "~/bin/vestige".to_string(),
        vestige_args: vec!["--x".to_string()],
    };
    assert_eq!(args.resolve_paths_with_home(Some("/home/u")), 0);
    assert_eq!(args.sync_dir, "/home/u/Sync/vestige");
    assert_eq!(args.db_path.as_deref(), Some("/home/u/.vestige"));
    assert_eq!(args.vestige_bin, "vestige-mcp");
    assert_eq!(args.vestige_cli, "/home/u/bin/vestige");
    assert_eq!(args.filename, "{hostname}");
    assert_eq!(args.export_interval, 900);
    assert_eq!(args.vestige_args, vec!["--x".to_string()]);
}

#[test]
fn resolve_paths_leaves_plain_paths() {
    let mut args = Args {
        sync_dir: "/srv/sync".to_string(),
        filename: "host".to_string(),
        format: ExportFormat::Json,
        export_interval: 1,
        poll_interval: None,
        export_on_exit: false,
        db_path: None,
        restore_on_start: true,
        vestige_bin: "/usr/bin/vestige-mcp".to_string(),
        vestige_cli: "vestige".to_string(),
        vestige_args: vec![],
    };
    assert_eq!(args.resolve_paths(), 0);
    assert_eq!(args.sync_dir, "/srv/sync");
    assert_eq!(args.db_path, None);
    assert_eq!(args.vestige_bin, "/usr/bin/vestige-mcp");
    assert_eq!(args.vestige_cli, "vestige");
}

fn tilde_args() -> Args {
    Args {
        sync_dir: "~/Sync".to_string(),
        filename: "h".to_string(),
        format: ExportFormat::Json,
        export_interval: 1,
        poll_interval: None,
        export_on_exit: false,
        db_path: Some("~".to_string()),
        restore_on_start: false,
        vestige_bin: "vestige-mcp".to_string(),
        vestige_cli: "~/bin/vestige".to_string(),
        vestige_args: vec![],
    }
}

#[test]
fn resolve_paths_counts_paths_left_unexpanded_without_a_home() {
    let mut args = tilde_args();
    assert_eq!(args.resolve_paths_with_home(None), 3);
    assert_eq!(args.sync_dir, "~/Sync");
    assert_eq!(args.db_path.as_deref(), Some("~"));
    assert_eq!(args.vestige_cli, "~/bin/vestige");
    let mut args = tilde_args();
    assert_eq!(args.resolve_paths_with_home(Some("/h")), 0);
    assert_eq!(args.db_path.as_deref(), Some("/h"));
}

#[test]
fn tilde_paths_are_recognised() {
    assert!(is_tilde_path("~"));
    assert!(is_tilde_path("~/x"));
    assert!(!is_tilde_path("~user"));
    assert!(!is_tilde_path("/~"));
    assert!(!is_tilde_path(""));
}

#[test]
fn expand_tilde_reports_a_missing_home() {
    let (p, missing) = expand_tilde("/srv/sync");
    assert_eq!(p, "/srv/sync");
    assert!(!missing);
    let (p, missing) = expand_tilde("~/sync");
    match dirs::home_dir() {
        Some(h) => {
            assert!(!missing);
            assert_eq!(p, h.join("sync").to_string_lossy());
        }
        None => {
            assert!(missing);
            assert_eq!(p, "~/sync");
        }
    }
}
