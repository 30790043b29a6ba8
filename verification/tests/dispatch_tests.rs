//! Command building, placeholder expansion, the fallback plan, and the
//! dispatch decision engine.

use winbang::config::{
    Config, DefaultHandler, DefaultLargeHandler, DefaultOperation, FileAssociation,
};
use winbang::dispatch::{
    after_prompt, build_command, decide_dispatch, expand_placeholders, plan_fallback_dispatch,
    resolve_operation, resolve_view_runtime, DispatchAction, UserChoice,
};
use winbang::script::ScriptMetadata;

fn assoc_with(override_template: Option<&str>, viewer: Option<&str>) -> FileAssociation {
    FileAssociation {
        shebang_interpreter: Some("python3".to_string()),
        exec_runtime: "python3".to_string(),
        exec_argv_override: override_template.map(|s| s.to_string()),
        view_runtime: viewer.map(|s| s.to_string()),
        extension: None,
        default_operation: None,
    }
}

fn metadata(assoc: Option<FileAssociation>, arg: Option<&str>, path: &str, size: u64) -> ScriptMetadata {
    ScriptMetadata {
        shebang: None,
        shebang_exe: None,
        shebang_arg: arg.map(|s| s.to_string()),
        extension: None,
        association: assoc,
        file_path: path.to_string(),
        file_size: size,
    }
}

fn empty_config() -> Config {
    Config {
        gui_shells: None,
        default_operation: None,
        default: None,
        default_large: None,
        file_associations: None,
    }
}

#[test]
fn test_expand_placeholders_both() {
    assert_eq!(
        expand_placeholders("a@{script}b", "X", "Y"),
        "aXb".to_string()
    );
    assert_eq!(expand_placeholders("@{script_unix}", "X", "Y"), "Y".to_string());
    assert_eq!(expand_placeholders("plain", "X", "Y"), "plain".to_string());
}

#[test]
fn test_build_command_default_behaviour() {
    let m = metadata(
        Some(assoc_with(None, None)),
        Some("-u -W ignore"),
        "/tmp/s.py",
        0,
    );
    let (prog, args) = build_command(&m, Some(vec!["a".to_string(), "b".to_string()]));
    assert_eq!(prog, "python3".to_string());
    assert_eq!(args, vec!["-u", "-W", "ignore", "/tmp/s.py", "a", "b"]);
}

#[test]
fn test_build_command_default_without_arg_or_extras() {
    let m = metadata(Some(assoc_with(None, None)), None, "/tmp/s.py", 0);
    let (_, args) = build_command(&m, None);
    assert_eq!(args, vec!["/tmp/s.py"]);
}

#[test]
fn test_build_command_override_expands_and_splices() {
    let m = metadata(
        Some(assoc_with(Some("@{script} --flag @{passed_args}"), None)),
        None,
        "/tmp/s.py",
        0,
    );
    let (_, args) = build_command(&m, Some(vec!["e1".to_string(), "e2".to_string()]));
    assert_eq!(args, vec!["/tmp/s.py", "--flag", "e1", "e2"]);
}

#[test]
fn test_build_command_override_passed_args_empty_adds_no_token() {
    let m = metadata(
        Some(assoc_with(Some("@{script} @{passed_args} --tail"), None)),
        None,
        "/tmp/s.py",
        0,
    );
    let (_, args) = build_command(&m, None);
    assert_eq!(args, vec!["/tmp/s.py", "--tail"]);
}

#[test]
fn test_build_command_override_never_appends_script_path() {
    let m = metadata(
        Some(assoc_with(Some("run --fast"), None)),
        Some("-v"),
        "/tmp/s.py",
        0,
    );
    let (_, args) = build_command(&m, None);
    // The template's words pass through untouched: no shebang argument, no
    // script path, nothing appended.
    assert_eq!(args, vec!["run", "--fast"]);
}

#[test]
fn test_build_command_override_windows_path_separators() {
    let m = metadata(
        Some(assoc_with(Some("@{script} @{script_unix}"), None)),
        None,
        "C:\\dir\\s.py",
        0,
    );
    let (_, args) = build_command(&m, None);
    // The native placeholder is the path itself; the other swaps separators.
    assert_eq!(args, vec!["C:\\dir\\s.py", "C:/dir/s.py"]);
}

#[test]
fn test_build_command_override_drops_emptied_token() {
    let m = metadata(Some(assoc_with(Some("x @{script}"), None)), None, "", 0);
    let (_, args) = build_command(&m, None);
    assert_eq!(args, vec!["x"]);
}

#[test]
fn test_build_command_override_quoted_token_survives_substitution() {
    let m = metadata(
        Some(assoc_with(Some("'pre @{script} post'"), None)),
        None,
        "a b",
        0,
    );
    let (_, args) = build_command(&m, None);
    // Quote-aware splitting happens before substitution; the token is not
    // re-split afterwards.
    assert_eq!(args, vec!["pre a b post"]);
}

fn sized_config(threshold: u64) -> Config {
    Config {
        gui_shells: None,
        default_operation: None,
        default: Some(DefaultHandler {
            view_runtime: "smallview".to_string(),
            args: Some("-v $script".to_string()),
        }),
        default_large: Some(DefaultLargeHandler {
            size_mb_threshold: threshold,
            view_runtime: "bigview".to_string(),
            args: None,
        }),
        file_associations: None,
    }
}

const MIB: u64 = 1_048_576;

#[test]
fn test_fallback_sizing_large_file_selects_large_viewer() {
    let cfg = sized_config(50);
    let (util, args) = plan_fallback_dispatch(60 * MIB, &"/tmp/big.bin".to_string(), &cfg);
    assert_eq!(util, "bigview".to_string());
    // No explicit template: the bare script token stands alone and becomes
    // the path.
    assert_eq!(args, vec!["/tmp/big.bin"]);
}

#[test]
fn test_fallback_sizing_small_file_selects_default_viewer() {
    let cfg = sized_config(50);
    let (util, args) = plan_fallback_dispatch(10 * MIB, &"/tmp/small.txt".to_string(), &cfg);
    assert_eq!(util, "smallview".to_string());
    assert_eq!(args, vec!["-v", "/tmp/small.txt"]);
}

#[test]
fn test_fallback_threshold_is_inclusive() {
    let cfg = sized_config(50);
    let (util, _) = plan_fallback_dispatch(50 * MIB, &"/tmp/f".to_string(), &cfg);
    assert_eq!(util, "bigview".to_string());
}

#[test]
fn test_fallback_template_without_token_appends_path() {
    let mut cfg = sized_config(50);
    cfg.default = Some(DefaultHandler {
        view_runtime: "pager".to_string(),
        args: Some("--follow".to_string()),
    });
    let (util, args) = plan_fallback_dispatch(0, &"/tmp/f".to_string(), &cfg);
    assert_eq!(util, "pager".to_string());
    assert_eq!(args, vec!["--follow", "/tmp/f"]);
}

#[test]
fn test_fallback_unconfigured_uses_hard_coded_viewer() {
    let (util, args) = plan_fallback_dispatch(0, &"/tmp/f".to_string(), &empty_config());
    assert_eq!(util, "notepad".to_string());
    assert_eq!(args, vec!["/tmp/f"]);
}

#[test]
fn test_resolve_operation_association_override_wins() {
    let mut a = assoc_with(None, None);
    a.default_operation = Some(DefaultOperation::Execute);
    let m = metadata(Some(a), None, "p", 0);
    let mut cfg = empty_config();
    cfg.default_operation = Some(DefaultOperation::Open);
    assert_eq!(resolve_operation(&m, &cfg), DefaultOperation::Execute);
}

#[test]
fn test_resolve_operation_config_default_then_prompt() {
    let m = metadata(Some(assoc_with(None, None)), None, "p", 0);
    let mut cfg = empty_config();
    cfg.default_operation = Some(DefaultOperation::Open);
    assert_eq!(resolve_operation(&m, &cfg), DefaultOperation::Open);
    assert_eq!(
        resolve_operation(&m, &empty_config()),
        DefaultOperation::Prompt
    );
}

#[test]
fn test_resolve_view_runtime_priority() {
    // Association viewer first.
    let m = metadata(Some(assoc_with(None, Some("assocview"))), None, "p", 60 * MIB);
    assert_eq!(resolve_view_runtime(&m, &sized_config(50)), "assocview");
    // Then the large-file viewer at or over the threshold.
    let m2 = metadata(Some(assoc_with(None, None)), None, "p", 60 * MIB);
    assert_eq!(resolve_view_runtime(&m2, &sized_config(50)), "bigview");
    // Then the configured default viewer.
    let m3 = metadata(Some(assoc_with(None, None)), None, "p", 10 * MIB);
    assert_eq!(resolve_view_runtime(&m3, &sized_config(50)), "smallview");
    // Last the hard-coded editor pair, picked by what the host resolves.
    let r = resolve_view_runtime(&m3, &empty_config());
    assert!(r == "code" || r == "notepad");
}

#[test]
fn test_non_interactive_parent_always_executes_directly() {
    assert_eq!(
        decide_dispatch(false, DefaultOperation::Execute),
        DispatchAction::RunCommand
    );
    assert_eq!(
        decide_dispatch(false, DefaultOperation::Prompt),
        DispatchAction::RunCommand
    );
    assert_eq!(
        decide_dispatch(false, DefaultOperation::Open),
        DispatchAction::RunCommand
    );
}

#[test]
fn test_interactive_parent_follows_operation() {
    assert_eq!(
        decide_dispatch(true, DefaultOperation::Execute),
        DispatchAction::RunCommand
    );
    assert_eq!(
        decide_dispatch(true, DefaultOperation::Open),
        DispatchAction::OpenEditor
    );
    assert_eq!(
        decide_dispatch(true, DefaultOperation::Prompt),
        DispatchAction::PromptUser
    );
}

#[test]
fn test_after_prompt_only_run_spawns() {
    assert_eq!(after_prompt(UserChoice::Run), DispatchAction::RunCommand);
    assert_eq!(after_prompt(UserChoice::Edit), DispatchAction::DoNothing);
    assert_eq!(after_prompt(UserChoice::Exit), DispatchAction::DoNothing);
}

#[test]
fn test_build_command_override_unmatched_quote_yields_no_args() {
    let m = metadata(Some(assoc_with(Some("'unclosed"), None)), None, "/tmp/s.py", 0);
    let (prog, args) = build_command(&m, Some(vec!["x".to_string()]));
    // A malformed template contributes nothing; the override still
    // suppresses the default argument shape entirely.
    assert_eq!(prog, "python3".to_string());
    assert!(args.is_empty());
}

#[test]
fn test_fallback_unmatched_quote_template_still_gets_path() {
    let mut cfg = sized_config(50);
    cfg.default = Some(DefaultHandler {
        view_runtime: "pager".to_string(),
        args: Some("'broken".to_string()),
    });
    let (_, args) = plan_fallback_dispatch(0, &"/tmp/f".to_string(), &cfg);
    assert_eq!(args, vec!["/tmp/f"]);
}
