//! Shebang parsing: interpreter extraction, prefix handling, extensions,
//! and metadata assembly.

use winbang::config::{DefaultOperation, FileAssociation};
use winbang::script::{
    accept_direct_candidate, file_extension, get_interpreter, get_script_metadata, read_shebang,
};

#[test]
fn test_valid_absolute_interpreter() {
    let line = "#!/usr/bin/python3";
    let result = get_interpreter(line);
    assert_eq!(result, Some(("python3".to_string(), None)));
}

#[test]
fn test_env_interpreter() {
    let line = "#!/usr/bin/env node";
    let result = get_interpreter(line);
    assert_eq!(result, Some(("node".to_string(), None)));
}

#[test]
fn test_env_spaced_interpreter() {
    let line = "#! /usr/bin/env node";
    let result = get_interpreter(line);
    assert_eq!(result, Some(("node".to_string(), None)));
}

#[test]
fn test_invalid_prefix() {
    // We don't validate, so this should still return python3.
    let line = "//usr/bin/python3";
    let result = get_interpreter(line);
    assert_eq!(result, Some(("python3".to_string(), None)));
}

#[test]
fn test_too_many_parts() {
    let line = "#!/usr/bin/env python3 extra";
    let result = get_interpreter(line);
    assert_eq!(result, None);
}

#[test]
fn test_only_prefix() {
    let line = "#!";
    let result = get_interpreter(line);
    assert_eq!(result, None);
}

#[test]
fn test_env_s_flag_with_single_arg() {
    let line = "#!/usr/bin/env -S node --experimental-modules";
    let result = get_interpreter(line);
    assert_eq!(
        result,
        Some(("node".to_string(), Some("--experimental-modules".to_string())))
    );
}

#[test]
fn test_env_s_flag_with_multiple_args() {
    let line = "#!/usr/bin/env -S python3 -u -W ignore";
    let result = get_interpreter(line);
    assert_eq!(
        result,
        Some(("python3".to_string(), Some("-u -W ignore".to_string())))
    );
}

#[test]
fn test_env_s_flag_no_args() {
    let line = "#!/usr/bin/env -S node";
    let result = get_interpreter(line);
    assert_eq!(result, Some(("node".to_string(), None)));
}

#[test]
fn test_env_s_flag_missing_interpreter() {
    let line = "#!/usr/bin/env -S";
    let result = get_interpreter(line);
    assert_eq!(result, None);
}

#[test]
fn test_env_s_interpreter_joins_args_with_single_spaces() {
    let line = "#!/usr/bin/env -S python3   -u    -W   ignore";
    let result = get_interpreter(line);
    assert_eq!(
        result,
        Some(("python3".to_string(), Some("-u -W ignore".to_string())))
    );
}

#[test]
fn test_env_without_interpreter_is_rejected() {
    assert_eq!(get_interpreter("#!/usr/bin/env"), None);
}

#[test]
fn test_unresolvable_basename_is_not_guessed() {
    // The interpreter neither exists at this path nor resolves by name:
    // the basename must not be returned as a guess.
    let line = "#!/nonexistent/dir/surely-not-a-real-interpreter-name";
    assert_eq!(get_interpreter(line), None);
}

#[test]
fn test_read_shebang_hashbang() {
    assert_eq!(
        read_shebang("#!/usr/bin/env node"),
        Some("/usr/bin/env node".to_string())
    );
}

#[test]
fn test_read_shebang_doc_comment_prefix() {
    assert_eq!(read_shebang("//! node"), Some("node".to_string()));
}

#[test]
fn test_read_shebang_trims_surrounding_whitespace() {
    assert_eq!(
        read_shebang("   #!  /bin/sh  \n"),
        Some("/bin/sh".to_string())
    );
}

#[test]
fn test_read_shebang_empty_after_prefix_is_none() {
    assert_eq!(read_shebang("#!"), None);
    assert_eq!(read_shebang("#!   "), None);
    assert_eq!(read_shebang("//!"), None);
}

#[test]
fn test_read_shebang_unprefixed_line_is_none() {
    assert_eq!(read_shebang("import os"), None);
    assert_eq!(read_shebang(""), None);
}

#[test]
fn test_file_extension_simple() {
    assert_eq!(file_extension("dir/run.py"), Some("py".to_string()));
}

#[test]
fn test_file_extension_takes_last_dot() {
    assert_eq!(file_extension("a/b/archive.tar.gz"), Some("gz".to_string()));
}

#[test]
fn test_file_extension_windows_separators() {
    assert_eq!(file_extension("C:\\tools\\run.PY"), Some("PY".to_string()));
}

#[test]
fn test_file_extension_none_cases() {
    assert_eq!(file_extension("noext"), None);
    assert_eq!(file_extension(".hidden"), None);
    assert_eq!(file_extension("dir.d/file"), None);
}

#[test]
fn test_file_extension_relative_components_have_none() {
    // `.` and `..` name no file, so they carry no extension either.
    assert_eq!(file_extension(".."), None);
    assert_eq!(file_extension("a/.."), None);
    assert_eq!(file_extension("."), None);
}

#[test]
fn test_direct_candidate_rejected_when_both_lookups_fail() {
    assert_eq!(accept_direct_candidate("sh".to_string(), None, false, false), None);
    assert_eq!(
        accept_direct_candidate("sh".to_string(), None, true, false),
        Some(("sh".to_string(), None))
    );
    assert_eq!(
        accept_direct_candidate("sh".to_string(), Some("-e".to_string()), false, true),
        Some(("sh".to_string(), Some("-e".to_string())))
    );
}

fn plain_assoc(shebang: &str, runtime: &str, ext: &str) -> FileAssociation {
    FileAssociation {
        shebang_interpreter: Some(shebang.to_string()),
        exec_runtime: runtime.to_string(),
        exec_argv_override: None,
        view_runtime: None,
        extension: Some(ext.to_string()),
        default_operation: Some(DefaultOperation::Prompt),
    }
}

#[test]
fn test_metadata_matches_extension_when_interpreter_unconfigured() {
    let assocs = vec![plain_assoc("python", "python", "py")];
    let m = get_script_metadata(
        &"x/test.py".to_string(),
        "#!/usr/bin/env python3",
        5,
        &assocs,
    );
    assert_eq!(m.shebang, Some("/usr/bin/env python3".to_string()));
    assert_eq!(m.shebang_exe, Some("python3".to_string()));
    assert_eq!(m.shebang_arg, None);
    assert_eq!(m.extension, Some("py".to_string()));
    assert_eq!(m.file_path, "x/test.py".to_string());
    assert_eq!(m.file_size, 5);
    // python3 matches no runtime or declared name; the extension row wins
    // over a synthetic association.
    let a = m.association.expect("association");
    assert_eq!(a.exec_runtime, "python".to_string());
}

#[test]
fn test_metadata_without_shebang_or_extension_has_no_association() {
    let assocs = vec![plain_assoc("python", "python", "py")];
    let m = get_script_metadata(&"justafile".to_string(), "print(1)", 0, &assocs);
    assert_eq!(m.shebang, None);
    assert_eq!(m.shebang_exe, None);
    assert_eq!(m.extension, None);
    assert!(m.association.is_none());
}
