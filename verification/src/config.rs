//! Configuration data model: handler defaults, file associations, and the
//! rule that picks which configuration file governs a run.

use vstd::prelude::*;

verus! {

/// The interaction mode chosen for a dispatch: ask the user, open the file
/// in a viewer, or execute it silently.
#[derive(Clone, Copy, Debug, PartialEq, Eq, Structural)]
pub enum DefaultOperation {
    Prompt,
    Open,
    Execute,
}

/// Viewer used when no association matches and the file is of ordinary size,
/// together with its argument template.
#[derive(Debug)]
pub struct DefaultHandler {
    pub view_runtime: String,
    pub args: Option<String>,
}

/// Viewer used for files at or above `size_mb_threshold` mebibytes.
#[derive(Debug)]
pub struct DefaultLargeHandler {
    pub size_mb_threshold: u64,
    pub view_runtime: String,
    pub args: Option<String>,
}

/// A configured rule binding a script kind to handling behaviour.
#[derive(Debug)]
pub struct FileAssociation {
    /// Interpreter name this rule declares itself for, matched against the
    /// parsed shebang interpreter.
    pub shebang_interpreter: Option<String>,
    /// Runtime that executes the script.
    pub exec_runtime: String,
    /// Full argument-override template; when present the command line is
    /// built from it alone.
    pub exec_argv_override: Option<String>,
    /// Viewer runtime for this rule.
    pub view_runtime: Option<String>,
    /// File extension this rule matches.
    pub extension: Option<String>,
    /// Per-rule interaction mode, overriding the global default.
    pub default_operation: Option<DefaultOperation>,
}

/// The fully resolved configuration a dispatch runs under.
#[derive(Debug)]
pub struct Config {
    /// Process names treated as interactive GUI shells.
    pub gui_shells: Option<Vec<String>>,
    pub default_operation: Option<DefaultOperation>,
    pub default: Option<DefaultHandler>,
    pub default_large: Option<DefaultLargeHandler>,
    pub file_associations: Option<Vec<FileAssociation>>,
}

impl Clone for FileAssociation {
    fn clone(&self) -> (r: Self)
        ensures
            r == *self,
    {
        FileAssociation {
            shebang_interpreter: clone_opt_string(&self.shebang_interpreter),
            exec_runtime: self.exec_runtime.clone(),
            exec_argv_override: clone_opt_string(&self.exec_argv_override),
            view_runtime: clone_opt_string(&self.view_runtime),
            extension: clone_opt_string(&self.extension),
            default_operation: self.default_operation,
        }
    }
}

/// Clone an optional string, preserving the value exactly.
pub(crate) fn clone_opt_string(o: &Option<String>) -> (r: Option<String>)
    ensures
        r == *o,
{
    match o {
        Some(s) => Some(s.clone()),
        None => None,
    }
}

/// A built-in association row: declared shebang interpreter, execution
/// runtime and extension as given, prompting by default, nothing else set.
pub open spec fn builtin_row(
    a: FileAssociation,
    shebang: Seq<char>,
    runtime: Seq<char>,
    ext: Seq<char>,
) -> bool {
    &&& crate::strutil::opt_view(a.shebang_interpreter) == Some(shebang)
    &&& a.exec_runtime@ == runtime
    &&& crate::strutil::opt_view(a.extension) == Some(ext)
    &&& a.view_runtime is None
    &&& a.default_operation == Some(DefaultOperation::Prompt)
    &&& a.exec_argv_override is None
}

/// The built-in JavaScript row: its runtime is whichever of the known
/// engines the host offers, and the declared shebang interpreter names the
/// same engine.
pub open spec fn builtin_js_row(a: FileAssociation) -> bool {
    &&& (a.exec_runtime@ == "deno"@ || a.exec_runtime@ == "bun"@ || a.exec_runtime@ == "node"@)
    &&& crate::strutil::opt_view(a.shebang_interpreter) == Some(a.exec_runtime@)
    &&& crate::strutil::opt_view(a.extension) == Some("js"@)
    &&& a.view_runtime is None
    &&& a.default_operation == Some(DefaultOperation::Prompt)
    &&& a.exec_argv_override is None
}

/// The built-in TypeScript row, under the same regime as the JavaScript
/// one.
pub open spec fn builtin_ts_row(a: FileAssociation) -> bool {
    &&& (a.exec_runtime@ == "deno"@ || a.exec_runtime@ == "ts-node"@)
    &&& crate::strutil::opt_view(a.shebang_interpreter) == Some(a.exec_runtime@)
    &&& crate::strutil::opt_view(a.extension) == Some("ts"@)
    &&& a.view_runtime is None
    &&& a.default_operation == Some(DefaultOperation::Prompt)
    &&& a.exec_argv_override is None
}

/// The built-in configuration used whenever no configuration file can be
/// read or parsed: prompt by default, view through the platform editor with
/// a bare script-token template, treat files of 50 MiB and more as large,
/// and associate the common scripting languages. The JavaScript and
/// TypeScript runtimes prefer whichever engine the host resolves on its
/// search path.
pub fn default_config() -> (r: Config)
    ensures
        r.gui_shells matches Some(g) && crate::strutil::str_views(g@) == seq!["explorer.exe"@],
        r.default_operation == Some(DefaultOperation::Prompt),
        r.default matches Some(d) && d.view_runtime@ == "notepad"@ && crate::strutil::opt_view(
            d.args,
        ) == Some("$script"@),
        r.default_large matches Some(dl) && dl.size_mb_threshold == 50 && dl.view_runtime@
            == "notepad"@ && crate::strutil::opt_view(dl.args) == Some("$script"@),
        r.file_associations matches Some(v) && v@.len() == 6 && builtin_row(
            v@[0],
            "ruby"@,
            "ruby"@,
            "rb"@,
        ) && builtin_row(v@[1], "python"@, "python"@, "py"@) && builtin_js_row(v@[2])
            && builtin_ts_row(v@[3]) && builtin_row(v@[4], "perl"@, "perl"@, "pl"@) && builtin_row(
            v@[5],
            "bash"@,
            "bash"@,
            "sh"@,
        ),
{
    let mut shells: Vec<String> = Vec::new();
    shells.push(String::from_str("explorer.exe"));
    proof {
        assert(crate::strutil::str_views(shells@) =~= seq!["explorer.exe"@]);
    }
    let js_runtime: String = if crate::platform::resolve_executable("deno").is_some() {
        String::from_str("deno")
    } else if crate::platform::resolve_executable("bun").is_some() {
        String::from_str("bun")
    } else {
        String::from_str("node")
    };
    let ts_runtime: String = if crate::platform::resolve_executable("deno").is_some() {
        String::from_str("deno")
    } else {
        String::from_str("ts-node")
    };
    let mut assocs: Vec<FileAssociation> = Vec::new();
    assocs.push(
        FileAssociation {
            shebang_interpreter: Some(String::from_str("ruby")),
            exec_runtime: String::from_str("ruby"),
            exec_argv_override: None,
            view_runtime: None,
            extension: Some(String::from_str("rb")),
            default_operation: Some(DefaultOperation::Prompt),
        },
    );
    assocs.push(
        FileAssociation {
            shebang_interpreter: Some(String::from_str("python")),
            exec_runtime: String::from_str("python"),
            exec_argv_override: None,
            view_runtime: None,
            extension: Some(String::from_str("py")),
            default_operation: Some(DefaultOperation::Prompt),
        },
    );
    assocs.push(
        FileAssociation {
            shebang_interpreter: Some(js_runtime.clone()),
            exec_runtime: js_runtime,
            exec_argv_override: None,
            view_runtime: None,
            extension: Some(String::from_str("js")),
            default_operation: Some(DefaultOperation::Prompt),
        },
    );
    assocs.push(
        FileAssociation {
            shebang_interpreter: Some(ts_runtime.clone()),
            exec_runtime: ts_runtime,
            exec_argv_override: None,
            view_runtime: None,
            extension: Some(String::from_str("ts")),
            default_operation: Some(DefaultOperation::Prompt),
        },
    );
    assocs.push(
        FileAssociation {
            shebang_interpreter: Some(String::from_str("perl")),
            exec_runtime: String::from_str("perl"),
            exec_argv_override: None,
            view_runtime: None,
            extension: Some(String::from_str("pl")),
            default_operation: Some(DefaultOperation::Prompt),
        },
    );
    assocs.push(
        FileAssociation {
            shebang_interpreter: Some(String::from_str("bash")),
            exec_runtime: String::from_str("bash"),
            exec_argv_override: None,
            view_runtime: None,
            extension: Some(String::from_str("sh")),
            default_operation: Some(DefaultOperation::Prompt),
        },
    );
    Config {
        gui_shells: Some(shells),
        default_operation: Some(DefaultOperation::Prompt),
        default: Some(
            DefaultHandler {
                view_runtime: String::from_str("notepad"),
                args: Some(String::from_str("$script")),
            },
        ),
        default_large: Some(
            DefaultLargeHandler {
                size_mb_threshold: 50,
                view_runtime: String::from_str("notepad"),
                args: Some(String::from_str("$script")),
            },
        ),
        file_associations: Some(assocs),
    }
}

/// Where the active configuration file was found.
#[derive(Clone, Copy, Debug, PartialEq, Eq, Structural)]
pub enum ConfigSource {
    CurrentDir,
    ProgramData,
    AppData,
    NoConfig,
}

/// Pick the configuration source. The current directory wins over the
/// machine-wide location; a per-user file overrides both, but only when the
/// machine-wide configuration explicitly allows user overrides.
pub fn select_config_source(
    current_exists: bool,
    programdata_exists: bool,
    appdata_exists: bool,
    allow_user_override: bool,
) -> (r: ConfigSource)
    ensures
        appdata_exists && allow_user_override ==> r == ConfigSource::AppData,
        !(appdata_exists && allow_user_override) && current_exists ==> r == ConfigSource::CurrentDir,
        !(appdata_exists && allow_user_override) && !current_exists && programdata_exists ==> r
            == ConfigSource::ProgramData,
        !(appdata_exists && allow_user_override) && !current_exists && !programdata_exists ==> r
            == ConfigSource::NoConfig,
{
    if appdata_exists && allow_user_override {
        ConfigSource::AppData
    } else if current_exists {
        ConfigSource::CurrentDir
    } else if programdata_exists {
        ConfigSource::ProgramData
    } else {
        ConfigSource::NoConfig
    }
}

} // verus!
