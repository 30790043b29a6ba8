//! Configuration defaults, configuration-source selection, association
//! matching, and the interactive-parent classification.

use winbang::config::{
    default_config, select_config_source, ConfigSource, DefaultOperation, FileAssociation,
};
use winbang::platform::is_interactive_parent;
use winbang::script::find_association;

fn row(
    shebang: Option<&str>,
    runtime: &str,
    ext: Option<&str>,
) -> FileAssociation {
    FileAssociation {
        shebang_interpreter: shebang.map(|s| s.to_string()),
        exec_runtime: runtime.to_string(),
        exec_argv_override: None,
        view_runtime: None,
        extension: ext.map(|s| s.to_string()),
        default_operation: None,
    }
}

#[test]
fn test_exec_runtime_match_beats_extension_match() {
    let assocs = vec![row(None, "other", Some("py")), row(None, "python3", None)];
    let r = find_association(
        &Some("python3".to_string()),
        &Some("py".to_string()),
        &assocs,
    )
    .expect("association");
    assert_eq!(r.exec_runtime, "python3");
}

#[test]
fn test_shebang_declaration_beats_extension_match() {
    let assocs = vec![row(None, "other", Some("py")), row(Some("python3"), "python", None)];
    let r = find_association(
        &Some("python3".to_string()),
        &Some("py".to_string()),
        &assocs,
    )
    .expect("association");
    assert_eq!(r.exec_runtime, "python");
}

#[test]
fn test_first_matching_rule_wins() {
    let assocs = vec![row(None, "python3", None), row(None, "python3", Some("py"))];
    let r = find_association(&Some("python3".to_string()), &None, &assocs).expect("association");
    assert!(r.extension.is_none());
}

#[test]
fn test_extension_match_is_case_insensitive() {
    let assocs = vec![row(None, "python", Some("PY"))];
    let r = find_association(&None, &Some("py".to_string()), &assocs).expect("association");
    assert_eq!(r.exec_runtime, "python");
}

#[test]
fn test_runtime_match_is_case_sensitive() {
    // "Python3" matches neither runtime nor declared name; with no
    // extension hit, the synthetic association carries it instead.
    let assocs = vec![row(Some("python3"), "python3", None)];
    let r = find_association(&Some("Python3".to_string()), &None, &assocs).expect("association");
    assert_eq!(r.exec_runtime, "Python3");
    assert_eq!(r.shebang_interpreter, Some("Python3".to_string()));
    assert!(r.extension.is_none());
}

#[test]
fn test_synthetic_association_for_unconfigured_interpreter() {
    let r = find_association(&Some("mytool".to_string()), &None, &[]).expect("association");
    assert_eq!(r.exec_runtime, "mytool");
    assert_eq!(r.shebang_interpreter, Some("mytool".to_string()));
    assert!(r.exec_argv_override.is_none());
    assert!(r.view_runtime.is_none());
    assert!(r.extension.is_none());
    assert!(r.default_operation.is_none());
}

#[test]
fn test_no_interpreter_and_no_extension_hit_yields_none() {
    let assocs = vec![row(None, "python", Some("py"))];
    assert!(find_association(&None, &Some("txt".to_string()), &assocs).is_none());
    assert!(find_association(&None, &None, &assocs).is_none());
}

#[test]
fn test_select_config_source_order() {
    assert_eq!(
        select_config_source(true, true, true, true),
        ConfigSource::AppData
    );
    assert_eq!(
        select_config_source(true, true, true, false),
        ConfigSource::CurrentDir
    );
    assert_eq!(
        select_config_source(false, true, false, false),
        ConfigSource::ProgramData
    );
    assert_eq!(
        select_config_source(false, false, false, false),
        ConfigSource::NoConfig
    );
    // The user override needs the user file to actually exist.
    assert_eq!(
        select_config_source(true, true, false, true),
        ConfigSource::CurrentDir
    );
}

#[test]
fn test_default_config_shape() {
    let cfg = default_config();
    assert_eq!(cfg.gui_shells, Some(vec!["explorer.exe".to_string()]));
    assert!(matches!(cfg.default_operation, Some(DefaultOperation::Prompt)));
    let d = cfg.default.expect("default handler");
    assert_eq!(d.view_runtime, "notepad");
    assert_eq!(d.args, Some("$script".to_string()));
    let dl = cfg.default_large.expect("large handler");
    assert_eq!(dl.size_mb_threshold, 50);
    assert_eq!(dl.view_runtime, "notepad");
    let rows = cfg.file_associations.expect("associations");
    assert_eq!(rows.len(), 6);
    assert_eq!(rows[0].exec_runtime, "ruby");
    assert_eq!(rows[0].extension, Some("rb".to_string()));
    assert_eq!(rows[1].exec_runtime, "python");
    // The JavaScript and TypeScript runtimes depend on what the host
    // resolves; they are always one of the known engines.
    assert!(["deno", "bun", "node"].contains(&rows[2].exec_runtime.as_str()));
    assert_eq!(rows[2].shebang_interpreter, Some(rows[2].exec_runtime.clone()));
    assert!(["deno", "ts-node"].contains(&rows[3].exec_runtime.as_str()));
    assert_eq!(rows[4].exec_runtime, "perl");
    assert_eq!(rows[5].exec_runtime, "bash");
    assert_eq!(rows[5].extension, Some("sh".to_string()));
}

#[test]
fn test_interactive_parent_matches_ignoring_case() {
    let shells = vec!["Explorer.EXE".to_string()];
    assert!(is_interactive_parent(&shells, &Some("explorer.exe".to_string())));
    assert!(!is_interactive_parent(&shells, &Some("bash".to_string())));
}

#[test]
fn test_unknown_parent_is_never_interactive() {
    let shells = vec!["explorer.exe".to_string()];
    assert!(!is_interactive_parent(&shells, &None));
    assert!(!is_interactive_parent(&[], &Some("explorer.exe".to_string())));
}
