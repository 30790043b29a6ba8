//! Shebang parsing, file-extension extraction, association matching, and the
//! assembly of the per-script metadata record.

use vstd::prelude::*;

use crate::config::FileAssociation;
use crate::platform::{path_exists, resolve_executable};
use crate::strutil::{
    basename_chars, basename_spec, chars_eq, chars_of, copy_chars, join_from, join_spec, opt_view,
    split_ws, split_ws_spec, starts_with_chars, starts_with_spec, string_of, subvec, trim_chars,
    trim_spec, views_of,
};

verus! {

/// The primary shebang prefix.
pub open spec fn hashbang_prefix() -> Seq<char> {
    seq!['#', '!']
}

/// The alternative shebang prefix, as written at the head of documentation
/// comments.
pub open spec fn doc_prefix() -> Seq<char> {
    seq!['/', '/', '!']
}

/// The redirector command name: its first argument names the real
/// interpreter.
pub open spec fn env_name() -> Seq<char> {
    seq!['e', 'n', 'v']
}

/// The redirector flag after which the rest of the line is the interpreter
/// and its arguments.
pub open spec fn dash_s_flag() -> Seq<char> {
    seq!['-', 'S']
}

/// A single space, the joiner for multi-token interpreter arguments.
pub open spec fn one_space() -> Seq<char> {
    seq![' ']
}

/// The shebang remainder of a first line: after trimming, the line must bear
/// one of the two prefixes, and what follows the prefix, trimmed, must be
/// non-empty; a match is therefore never the empty string.
pub open spec fn spec_read_shebang(line: Seq<char>) -> Option<Seq<char>> {
    let t = trim_spec(line);
    if starts_with_spec(t, hashbang_prefix()) {
        shebang_rest(t, hashbang_prefix().len() as int)
    } else if starts_with_spec(t, doc_prefix()) {
        shebang_rest(t, doc_prefix().len() as int)
    } else {
        None
    }
}

/// What remains of a prefixed line after the prefix of length `n`, trimmed;
/// an empty remainder is no shebang at all.
pub open spec fn shebang_rest(t: Seq<char>, n: int) -> Option<Seq<char>> {
    let rest = trim_spec(t.skip(n));
    if rest.len() == 0 {
        None
    } else {
        Some(rest)
    }
}

/// Build the two-character shebang prefix.
fn hashbang_prefix_vec() -> (r: Vec<char>)
    ensures
        r@ == hashbang_prefix(),
{
    let mut r: Vec<char> = Vec::new();
    r.push('#');
    r.push('!');
    assert(r@ =~= hashbang_prefix());
    r
}

/// Build the three-character documentation-comment prefix.
fn doc_prefix_vec() -> (r: Vec<char>)
    ensures
        r@ == doc_prefix(),
{
    let mut r: Vec<char> = Vec::new();
    r.push('/');
    r.push('/');
    r.push('!');
    assert(r@ =~= doc_prefix());
    r
}

/// Read the shebang remainder out of a script's first line: the line must
/// carry one of the two recognised prefixes, and something must follow the
/// prefix. A successful result is the trimmed remainder, never empty.
pub fn read_shebang(first_line: &str) -> (r: Option<String>)
    ensures
        opt_view(r) == spec_read_shebang(first_line@),
        r matches Some(s) ==> s@.len() > 0,
{
    let cs = chars_of(first_line);
    let t = trim_chars(&cs);
    let hb = hashbang_prefix_vec();
    let db = doc_prefix_vec();
    let after_prefix: Vec<char>;
    if starts_with_chars(&t, &hb) {
        after_prefix = subvec(&t, 2, t.len());
        proof {
            assert(t@.skip(2) =~= t@.subrange(2, t@.len() as int));
        }
    } else if starts_with_chars(&t, &db) {
        after_prefix = subvec(&t, 3, t.len());
        proof {
            assert(t@.skip(3) =~= t@.subrange(3, t@.len() as int));
        }
    } else {
        return None;
    }
    let rest = trim_chars(&after_prefix);
    if rest.len() == 0 {
        None
    } else {
        Some(string_of(&rest))
    }
}

/// Repeated shebang prefixes stripped from the front of a line.
pub open spec fn strip_hashbangs_spec(s: Seq<char>) -> Seq<char>
    decreases s.len(),
{
    if starts_with_spec(s, hashbang_prefix()) {
        strip_hashbangs_spec(s.skip(2))
    } else {
        s
    }
}

/// The whitespace tokens of a shebang line, after any leading prefixes.
pub open spec fn shebang_tokens(s: Seq<char>) -> Seq<Seq<char>> {
    split_ws_spec(strip_hashbangs_spec(s))
}

/// How a shebang line parses, before the host is consulted.
pub enum ShebangForm {
    /// Nothing usable: no tokens, a command with no basename, a redirector
    /// with no or too many arguments, or extra tokens without the
    /// multi-argument flag.
    NoCandidate,
    /// The command was the redirector: `name` is the real interpreter and
    /// must resolve on the executable search path.
    EnvResolved { name: Seq<char>, arg: Option<Seq<char>> },
    /// A direct interpreter path: accepted when `cmd` exists on disk or
    /// `name`, its basename, resolves on the executable search path.
    DirectPath { cmd: Seq<char>, name: Seq<char>, arg: Option<Seq<char>> },
}

/// Parse a shebang line into its form. Given tokens `[cmd, a1, a2, ...]`:
/// a redirector `cmd` with the multi-argument flag takes the next token as
/// the interpreter and joins the rest into one argument string; a redirector
/// with one plain argument takes it as the interpreter; any other token
/// count around the redirector is malformed. A non-redirector `cmd` allows
/// at most one argument, and its basename is the interpreter candidate.
pub open spec fn shebang_form(shebang: Seq<char>) -> ShebangForm {
    let toks = shebang_tokens(shebang);
    if toks.len() == 0 {
        ShebangForm::NoCandidate
    } else {
        match basename_spec(toks[0]) {
            None => ShebangForm::NoCandidate,
            Some(base) => {
                if base == env_name() {
                    if toks.len() >= 2 && toks[1] == dash_s_flag() {
                        if toks.len() == 2 {
                            ShebangForm::NoCandidate
                        } else {
                            ShebangForm::EnvResolved {
                                name: toks[2],
                                arg: if toks.len() > 3 {
                                    Some(join_spec(toks.skip(3), one_space()))
                                } else {
                                    None
                                },
                            }
                        }
                    } else if toks.len() == 2 {
                        ShebangForm::EnvResolved { name: toks[1], arg: None }
                    } else {
                        ShebangForm::NoCandidate
                    }
                } else {
                    if toks.len() >= 3 {
                        ShebangForm::NoCandidate
                    } else {
                        ShebangForm::DirectPath {
                            cmd: toks[0],
                            name: base,
                            arg: if toks.len() == 2 {
                                Some(toks[1])
                            } else {
                                None
                            },
                        }
                    }
                }
            },
        }
    }
}

/// The executable counterpart of [`ShebangForm`], carrying owned strings.
pub enum ShebangCandidate {
    NoCandidate,
    EnvResolved { name: String, arg: Option<String> },
    DirectPath { cmd: String, name: String, arg: Option<String> },
}

/// Build the redirector name.
fn env_name_vec() -> (r: Vec<char>)
    ensures
        r@ == env_name(),
{
    let mut r: Vec<char> = Vec::new();
    r.push('e');
    r.push('n');
    r.push('v');
    assert(r@ =~= env_name());
    r
}

/// Build the multi-argument flag.
fn dash_s_vec() -> (r: Vec<char>)
    ensures
        r@ == dash_s_flag(),
{
    let mut r: Vec<char> = Vec::new();
    r.push('-');
    r.push('S');
    assert(r@ =~= dash_s_flag());
    r
}

/// Build a single space.
fn one_space_vec() -> (r: Vec<char>)
    ensures
        r@ == one_space(),
{
    let mut r: Vec<char> = Vec::new();
    r.push(' ');
    assert(r@ =~= one_space());
    r
}

/// Strip repeated shebang prefixes from the front.
fn strip_hashbangs(v: &Vec<char>) -> (r: Vec<char>)
    ensures
        r@ == strip_hashbangs_spec(v@),
    decreases v@.len(),
{
    let hb = hashbang_prefix_vec();
    if starts_with_chars(v, &hb) {
        let rest = subvec(v, 2, v.len());
        proof {
            assert(v@.skip(2) =~= v@.subrange(2, v@.len() as int));
        }
        strip_hashbangs(&rest)
    } else {
        copy_chars(v)
    }
}

/// Parse a shebang line into its candidate form, exactly as
/// [`shebang_form`] describes; no host lookups happen here.
pub fn classify_shebang(shebang: &str) -> (r: ShebangCandidate)
    ensures
        ({
            let form = shebang_form(shebang@);
            match r {
                ShebangCandidate::NoCandidate => form == ShebangForm::NoCandidate,
                ShebangCandidate::EnvResolved { name, arg } => form == (ShebangForm::EnvResolved {
                    name: name@,
                    arg: opt_view(arg),
                }),
                ShebangCandidate::DirectPath { cmd, name, arg } => form == (ShebangForm::DirectPath {
                    cmd: cmd@,
                    name: name@,
                    arg: opt_view(arg),
                }),
            }
        }),
{
    let cs = chars_of(shebang);
    let stripped = strip_hashbangs(&cs);
    let toks = split_ws(&stripped);
    let ghost toks_spec = shebang_tokens(shebang@);
    proof {
        assert(views_of(toks@) == toks_spec);
    }
    if toks.len() == 0 {
        return ShebangCandidate::NoCandidate;
    }
    assert(toks@[0]@ == toks_spec[0]);
    let base_opt = basename_chars(&toks[0]);
    match base_opt {
        None => ShebangCandidate::NoCandidate,
        Some(base) => {
            let env_c = env_name_vec();
            if chars_eq(&base, &env_c) {
                let ds = dash_s_vec();
                if toks.len() >= 2 && chars_eq(&toks[1], &ds) {
                    assert(toks@[1]@ == toks_spec[1]);
                    if toks.len() == 2 {
                        ShebangCandidate::NoCandidate
                    } else {
                        assert(toks@[2]@ == toks_spec[2]);
                        let name = string_of(&toks[2]);
                        let arg: Option<String>;
                        if toks.len() > 3 {
                            let sp = one_space_vec();
                            let joined = join_from(&toks, 3, &sp);
                            proof {
                                assert(views_of(toks@).skip(3) =~= toks_spec.skip(3));
                            }
                            arg = Some(string_of(&joined));
                        } else {
                            arg = None;
                        }
                        ShebangCandidate::EnvResolved { name, arg }
                    }
                } else if toks.len() == 2 {
                    assert(toks@[1]@ == toks_spec[1]);
                    ShebangCandidate::EnvResolved { name: string_of(&toks[1]), arg: None }
                } else {
                    ShebangCandidate::NoCandidate
                }
            } else {
                if toks.len() >= 3 {
                    ShebangCandidate::NoCandidate
                } else {
                    let arg: Option<String> = if toks.len() == 2 {
                        assert(toks@[1]@ == toks_spec[1]);
                        Some(string_of(&toks[1]))
                    } else {
                        None
                    };
                    ShebangCandidate::DirectPath {
                        cmd: string_of(&toks[0]),
                        name: string_of(&base),
                        arg,
                    }
                }
            }
        },
    }
}

/// Judge a direct-path interpreter candidate against the two host answers:
/// whether the command itself exists on disk, and whether its basename
/// resolves on the executable search path. When both fail, the candidate is
/// rejected outright — the basename is never returned as a guess.
pub fn accept_direct_candidate(
    name: String,
    arg: Option<String>,
    cmd_exists: bool,
    name_resolves: bool,
) -> (r: Option<(String, Option<String>)>)
    ensures
        cmd_exists || name_resolves ==> r == Some((name, arg)),
        !(cmd_exists || name_resolves) ==> r is None,
{
    if cmd_exists || name_resolves {
        Some((name, arg))
    } else {
        None
    }
}

/// The interpreter named by a shebang line, with its argument string, after
/// consulting the host: a redirector's interpreter must resolve on the
/// search path, and a direct command must exist on disk or have a resolvable
/// basename. A malformed line never yields an interpreter, and a returned
/// pair is exactly what the parse form names.
pub fn get_interpreter(shebang: &str) -> (r: Option<(String, Option<String>)>)
    ensures
        shebang_form(shebang@) is NoCandidate ==> r is None,
        match r {
            Some(p) => match shebang_form(shebang@) {
                ShebangForm::NoCandidate => false,
                ShebangForm::EnvResolved { name, arg } => p.0@ == name && opt_view(p.1) == arg,
                ShebangForm::DirectPath { cmd, name, arg } => p.0@ == name && opt_view(p.1) == arg,
            },
            None => true,
        },
{
    match classify_shebang(shebang) {
        ShebangCandidate::NoCandidate => None,
        ShebangCandidate::EnvResolved { name, arg } => {
            if resolve_executable(name.as_str()).is_some() {
                Some((name, arg))
            } else {
                None
            }
        },
        ShebangCandidate::DirectPath { cmd, name, arg } => {
            let cmd_exists = path_exists(cmd.as_str());
            let name_resolves = resolve_executable(name.as_str()).is_some();
            accept_direct_candidate(name, arg, cmd_exists, name_resolves)
        },
    }
}

/// The extension of a file name: what follows the last dot, provided that
/// dot is not the leading character; a name without such a dot has none.
pub open spec fn ext_of_name(name: Seq<char>) -> Option<Seq<char>>
    decreases name.len(),
{
    if name.len() == 0 {
        None
    } else if name[name.len() - 1] == '.' {
        if name.len() > 1 {
            Some(Seq::empty())
        } else {
            None
        }
    } else {
        match ext_of_name(name.drop_last()) {
            Some(e) => Some(e.push(name[name.len() - 1])),
            None => None,
        }
    }
}

/// The extension of a path: the extension of its final component.
pub open spec fn file_extension_spec(path: Seq<char>) -> Option<Seq<char>> {
    match basename_spec(path) {
        Some(name) => ext_of_name(name),
        None => None,
    }
}

/// Under the stated run structure, the extension is the suffix after the
/// last dot at position `d`, or nothing when the dot leads the name.
proof fn lemma_ext_of_name_at(name: Seq<char>, d: int)
    requires
        0 <= d < name.len(),
        name[d] == '.',
        forall|j: int| d < j < name.len() ==> name[j] != '.',
    ensures
        ext_of_name(name) == if d > 0 {
            Some(name.skip(d + 1))
        } else {
            None::<Seq<char>>
        },
    decreases name.len(),
{
    if d == name.len() - 1 {
        if d > 0 {
            assert(name.skip(d + 1) =~= Seq::<char>::empty());
        }
    } else {
        lemma_ext_of_name_at(name.drop_last(), d);
        if d > 0 {
            assert(name.drop_last().skip(d + 1).push(name[name.len() - 1]) =~= name.skip(d + 1));
        }
    }
}

/// A name without a dot has no extension.
proof fn lemma_ext_of_name_none(name: Seq<char>)
    requires
        forall|j: int| 0 <= j < name.len() ==> name[j] != '.',
    ensures
        ext_of_name(name) is None,
    decreases name.len(),
{
    if name.len() > 0 {
        lemma_ext_of_name_none(name.drop_last());
    }
}

/// The extension of the path's final component, as a string.
pub fn file_extension(path: &str) -> (r: Option<String>)
    ensures
        opt_view(r) == file_extension_spec(path@),
{
    let cs = chars_of(path);
    let name = match basename_chars(&cs) {
        Some(n) => n,
        None => {
            return None;
        },
    };
    let n = name.len();
    let mut k: usize = n;
    while k > 0 && name[k - 1] != '.'
        invariant
            n == name@.len(),
            k <= n,
            forall|j: int| k <= j < n ==> name@[j] != '.',
        decreases k,
    {
        k = k - 1;
    }
    if k == 0 {
        proof {
            lemma_ext_of_name_none(name@);
        }
        return None;
    }
    proof {
        lemma_ext_of_name_at(name@, k - 1);
    }
    if k == 1 {
        return None;
    }
    let ext = subvec(&name, k, n);
    proof {
        assert(name@.skip(k as int) =~= name@.subrange(k as int, n as int));
    }
    Some(string_of(&ext))
}

/// The rule's execution runtime is named `name` (exact match).
pub open spec fn exec_runtime_matches(a: FileAssociation, name: Seq<char>) -> bool {
    a.exec_runtime@ == name
}

/// The first rule whose execution runtime is named `name`.
pub open spec fn first_exec_match(assocs: Seq<FileAssociation>, name: Seq<char>) -> Option<
    FileAssociation,
>
    decreases assocs.len(),
{
    if assocs.len() == 0 {
        None
    } else if exec_runtime_matches(assocs[0], name) {
        Some(assocs[0])
    } else {
        first_exec_match(assocs.skip(1), name)
    }
}

/// The first rule declared for shebang interpreter `name`.
pub open spec fn first_shebang_match(assocs: Seq<FileAssociation>, name: Seq<char>) -> Option<
    FileAssociation,
>
    decreases assocs.len(),
{
    if assocs.len() == 0 {
        None
    } else if shebang_decl_matches(assocs[0], name) {
        Some(assocs[0])
    } else {
        first_shebang_match(assocs.skip(1), name)
    }
}

/// The first rule whose extension matches `ext`, ignoring ASCII case.
pub open spec fn first_ext_match(assocs: Seq<FileAssociation>, ext: Seq<char>) -> Option<
    FileAssociation,
>
    decreases assocs.len(),
{
    if assocs.len() == 0 {
        None
    } else if ext_matches(assocs[0], ext) {
        Some(assocs[0])
    } else {
        first_ext_match(assocs.skip(1), ext)
    }
}

/// A hit at `i` with no earlier hit is the first execution-runtime match;
/// no hit anywhere means none.
proof fn lemma_first_exec_match(assocs: Seq<FileAssociation>, name: Seq<char>, i: int)
    requires
        0 <= i <= assocs.len(),
        forall|j: int| 0 <= j < i ==> !exec_runtime_matches(#[trigger] assocs[j], name),
        i < assocs.len() ==> exec_runtime_matches(assocs[i], name),
    ensures
        first_exec_match(assocs, name) == if i < assocs.len() {
            Some(assocs[i])
        } else {
            None::<FileAssociation>
        },
    decreases i,
{
    if i > 0 {
        lemma_first_exec_match(assocs.skip(1), name, i - 1);
    } else if assocs.len() > 0 && !exec_runtime_matches(assocs[0], name) {
        lemma_first_exec_match(assocs.skip(1), name, 0);
    }
}

/// The same, for the declared shebang interpreter.
proof fn lemma_first_shebang_match(assocs: Seq<FileAssociation>, name: Seq<char>, i: int)
    requires
        0 <= i <= assocs.len(),
        forall|j: int| 0 <= j < i ==> !shebang_decl_matches(#[trigger] assocs[j], name),
        i < assocs.len() ==> shebang_decl_matches(assocs[i], name),
    ensures
        first_shebang_match(assocs, name) == if i < assocs.len() {
            Some(assocs[i])
        } else {
            None::<FileAssociation>
        },
    decreases i,
{
    if i > 0 {
        lemma_first_shebang_match(assocs.skip(1), name, i - 1);
    } else if assocs.len() > 0 && !shebang_decl_matches(assocs[0], name) {
        lemma_first_shebang_match(assocs.skip(1), name, 0);
    }
}

/// The same, for the extension.
proof fn lemma_first_ext_match(assocs: Seq<FileAssociation>, ext: Seq<char>, i: int)
    requires
        0 <= i <= assocs.len(),
        forall|j: int| 0 <= j < i ==> !ext_matches(#[trigger] assocs[j], ext),
        i < assocs.len() ==> ext_matches(assocs[i], ext),
    ensures
        first_ext_match(assocs, ext) == if i < assocs.len() {
            Some(assocs[i])
        } else {
            None::<FileAssociation>
        },
    decreases i,
{
    if i > 0 {
        lemma_first_ext_match(assocs.skip(1), ext, i - 1);
    } else if assocs.len() > 0 && !ext_matches(assocs[0], ext) {
        lemma_first_ext_match(assocs.skip(1), ext, 0);
    }
}

/// The rule declares itself for shebang interpreter `name` (exact match).
pub open spec fn shebang_decl_matches(a: FileAssociation, name: Seq<char>) -> bool {
    opt_view(a.shebang_interpreter) == Some(name)
}

/// The rule's extension equals `ext`, ignoring ASCII case.
pub open spec fn ext_matches(a: FileAssociation, ext: Seq<char>) -> bool {
    match a.extension {
        Some(e) => crate::strutil::seq_eq_ignore_ascii_case(e@, ext),
        None => false,
    }
}

/// The configured association for the parsed interpreter and extension, in
/// fixed priority order: execution-runtime name first, then declared shebang
/// interpreter, then file extension.
pub open spec fn configured_lookup(
    interp: Option<Seq<char>>,
    ext: Option<Seq<char>>,
    assocs: Seq<FileAssociation>,
) -> Option<FileAssociation> {
    let by_ext = match ext {
        Some(e) => first_ext_match(assocs, e),
        None => None,
    };
    match interp {
        Some(name) => match first_exec_match(assocs, name) {
            Some(a) => Some(a),
            None => match first_shebang_match(assocs, name) {
                Some(a) => Some(a),
                None => by_ext,
            },
        },
        None => by_ext,
    }
}

/// The association synthesised for a parsed interpreter that matched no
/// configured rule: it carries the interpreter as both declared shebang name
/// and execution runtime, and nothing else.
pub open spec fn is_synthetic_for(a: FileAssociation, name: Seq<char>) -> bool {
    &&& opt_view(a.shebang_interpreter) == Some(name)
    &&& a.exec_runtime@ == name
    &&& a.exec_argv_override is None
    &&& a.view_runtime is None
    &&& a.extension is None
    &&& a.default_operation is None
}

/// What the association attached to a script must be: the configured lookup
/// result when there is one; otherwise a synthetic association whenever an
/// interpreter was parsed; otherwise nothing.
pub open spec fn association_matches(
    r: Option<FileAssociation>,
    interp: Option<Seq<char>>,
    ext: Option<Seq<char>>,
    assocs: Seq<FileAssociation>,
) -> bool {
    match configured_lookup(interp, ext, assocs) {
        Some(a) => r == Some(a),
        None => match interp {
            Some(name) => r matches Some(a) && is_synthetic_for(a, name),
            None => r is None,
        },
    }
}

/// Association priority: whenever some rule matches the parsed
/// interpreter's execution-runtime name, that match decides the lookup —
/// an extension match never wins over it.
pub proof fn lemma_exec_match_beats_ext(
    name: Seq<char>,
    ext: Seq<char>,
    assocs: Seq<FileAssociation>,
)
    requires
        first_exec_match(assocs, name) is Some,
    ensures
        configured_lookup(Some(name), Some(ext), assocs) == first_exec_match(assocs, name),
{
}

/// A parsed interpreter is never discarded for lacking configuration: when
/// no configured rule matches it, the attached association is the
/// synthesised one, whose execution runtime is the interpreter itself.
pub proof fn lemma_synthetic_association(
    r: Option<FileAssociation>,
    name: Seq<char>,
    ext: Option<Seq<char>>,
    assocs: Seq<FileAssociation>,
)
    requires
        association_matches(r, Some(name), ext, assocs),
        configured_lookup(Some(name), ext, assocs) is None,
    ensures
        r matches Some(a) && a.exec_runtime@ == name && opt_view(a.shebang_interpreter) == Some(
            name,
        ),
{
}

/// Select the association for a parsed interpreter name and file extension:
/// first configured hit in priority order, else a synthetic association for
/// a parsed interpreter, else none.
pub fn find_association(
    interpreter: &Option<String>,
    extension: &Option<String>,
    associations: &[FileAssociation],
) -> (r: Option<FileAssociation>)
    ensures
        association_matches(r, opt_view(*interpreter), opt_view(*extension), associations@),
{
    let n = associations.len();
    if let Some(name) = interpreter {
        let mut i: usize = 0;
        while i < n
            invariant
                n == associations@.len(),
                i <= n,
                interpreter matches Some(nm) && nm@ == name@,
                forall|j: int|
                    0 <= j < i ==> !exec_runtime_matches(#[trigger] associations@[j], name@),
            decreases n - i,
        {
            if associations[i].exec_runtime == *name {
                proof {
                    lemma_first_exec_match(associations@, name@, i as int);
                }
                return Some(associations[i].clone());
            }
            i = i + 1;
        }
        proof {
            lemma_first_exec_match(associations@, name@, n as int);
        }
        let mut i: usize = 0;
        while i < n
            invariant
                n == associations@.len(),
                i <= n,
                interpreter matches Some(nm) && nm@ == name@,
                first_exec_match(associations@, name@) is None,
                forall|j: int|
                    0 <= j < i ==> !shebang_decl_matches(#[trigger] associations@[j], name@),
            decreases n - i,
        {
            let hit = match &associations[i].shebang_interpreter {
                Some(s) => *s == *name,
                None => false,
            };
            if hit {
                proof {
                    lemma_first_shebang_match(associations@, name@, i as int);
                }
                return Some(associations[i].clone());
            }
            i = i + 1;
        }
        proof {
            lemma_first_shebang_match(associations@, name@, n as int);
        }
    }
    if let Some(ext) = extension {
        let ext_chars = chars_of(ext.as_str());
        let mut i: usize = 0;
        while i < n
            invariant
                n == associations@.len(),
                i <= n,
                ext_chars@ == ext@,
                extension matches Some(e) && e@ == ext@,
                interpreter matches Some(nm) ==> first_exec_match(associations@, nm@) is None
                    && first_shebang_match(associations@, nm@) is None,
                forall|j: int| 0 <= j < i ==> !ext_matches(#[trigger] associations@[j], ext@),
            decreases n - i,
        {
            let hit = match &associations[i].extension {
                Some(e) => {
                    let e_chars = chars_of(e.as_str());
                    crate::strutil::eq_ignore_ascii_case_chars(&e_chars, &ext_chars)
                },
                None => false,
            };
            if hit {
                proof {
                    lemma_first_ext_match(associations@, ext@, i as int);
                }
                return Some(associations[i].clone());
            }
            i = i + 1;
        }
        proof {
            lemma_first_ext_match(associations@, ext@, n as int);
        }
    }
    match interpreter {
        Some(name) => Some(
            FileAssociation {
                shebang_interpreter: Some(name.clone()),
                exec_runtime: name.clone(),
                exec_argv_override: None,
                view_runtime: None,
                extension: None,
                default_operation: None,
            },
        ),
        None => None,
    }
}

/// One immutable record per dispatched file, assembled once and consumed by
/// the command builder and the dispatch decision engine.
#[derive(Debug)]
pub struct ScriptMetadata {
    /// Shebang line minus the prefix.
    pub shebang: Option<String>,
    /// Interpreter name.
    pub shebang_exe: Option<String>,
    /// Optional argument to the interpreter.
    pub shebang_arg: Option<String>,
    /// Extension of the file.
    pub extension: Option<String>,
    /// File association from the configuration.
    pub association: Option<FileAssociation>,
    /// File path.
    pub file_path: String,
    /// File size in bytes.
    pub file_size: u64,
}

/// The line the interpreter parse runs on: the shebang remainder, or nothing.
pub open spec fn shebang_source(shebang: Option<Seq<char>>) -> Seq<char> {
    match shebang {
        Some(s) => s,
        None => Seq::empty(),
    }
}

/// Assemble the metadata record for one script: the shebang remainder of its
/// first line, the parsed interpreter and argument, the file extension, and
/// the association selected for them.
pub fn get_script_metadata(
    script_path: &String,
    first_line: &str,
    file_size: u64,
    associations: &[FileAssociation],
) -> (r: ScriptMetadata)
    ensures
        r.file_path@ == script_path@,
        r.file_size == file_size,
        opt_view(r.shebang) == spec_read_shebang(first_line@),
        opt_view(r.extension) == file_extension_spec(script_path@),
        ({
            let form = shebang_form(shebang_source(spec_read_shebang(first_line@)));
            &&& (form is NoCandidate ==> r.shebang_exe is None)
            &&& match r.shebang_exe {
                Some(n) => match form {
                    ShebangForm::NoCandidate => false,
                    ShebangForm::EnvResolved { name, arg } => n@ == name && opt_view(r.shebang_arg)
                        == arg,
                    ShebangForm::DirectPath { cmd, name, arg } => n@ == name && opt_view(
                        r.shebang_arg,
                    ) == arg,
                },
                None => r.shebang_arg is None,
            }
        }),
        association_matches(
            r.association,
            opt_view(r.shebang_exe),
            opt_view(r.extension),
            associations@,
        ),
{
    let shebang = read_shebang(first_line);
    let extension = file_extension(script_path.as_str());
    let parsed = match &shebang {
        Some(s) => get_interpreter(s.as_str()),
        None => {
            proof {
                reveal_strlit("");
                assert(""@ =~= Seq::<char>::empty());
            }
            get_interpreter("")
        },
    };
    let (shebang_exe, shebang_arg): (Option<String>, Option<String>) = match parsed {
        Some((exe, arg)) => (Some(exe), arg),
        None => (None, None),
    };
    let association = find_association(&shebang_exe, &extension, associations);
    ScriptMetadata {
        shebang,
        shebang_exe,
        shebang_arg,
        extension,
        association,
        file_path: script_path.clone(),
        file_size,
    }
}

} // verus!
