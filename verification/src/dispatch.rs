//! Command building with placeholder expansion, the size-tiered fallback
//! plan, and the dispatch decision engine.

use vstd::prelude::*;
use vstd::pervasive::unreached;

use crate::config::{Config, DefaultOperation, FileAssociation};
use crate::platform::resolve_executable;
use crate::script::ScriptMetadata;
use crate::strutil::{
    chars_eq, chars_of, contains_spec, opt_view, replace_chars, replace_spec, str_views, string_of,
};

verus! {

/// The words of a command-line template, split by POSIX shell rules; no
/// result stands for a malformed template (an unmatched quote). The split
/// depends on the template text alone.
pub uninterp spec fn shell_split(s: Seq<char>) -> Option<Seq<Seq<char>>>;

/// Relies on shell_words::split: splits a command line into words the way a
/// POSIX shell would, with expansions limited to quote removal; the one
/// failure is an unmatched quote.
#[verifier::external_body]
fn shell_words_split(s: &str) -> (r: Option<Vec<String>>)
    ensures
        match r {
            Some(v) => shell_split(s@) == Some(str_views(v@)),
            None => shell_split(s@) is None,
        },
{
    match shell_words::split(s) {
        Ok(v) => Some(v),
        Err(_) => None,
    }
}

/// The placeholder that expands to the script path with native separators.
pub open spec fn script_placeholder() -> Seq<char> {
    seq!['@', '{', 's', 'c', 'r', 'i', 'p', 't', '}']
}

/// The placeholder that expands to the script path with forward slashes.
pub open spec fn script_unix_placeholder() -> Seq<char> {
    seq!['@', '{', 's', 'c', 'r', 'i', 'p', 't', '_', 'u', 'n', 'i', 'x', '}']
}

/// The template token that expands to the caller's extra arguments, one
/// token each.
pub open spec fn passed_args_placeholder() -> Seq<char> {
    seq!['@', '{', 'p', 'a', 's', 's', 'e', 'd', '_', 'a', 'r', 'g', 's', '}']
}

/// The legacy fallback-template token that stands for the script path.
pub open spec fn script_token() -> Seq<char> {
    seq!['$', 's', 'c', 'r', 'i', 'p', 't']
}

/// The hard-coded viewer name of last resort.
pub open spec fn notepad_name() -> Seq<char> {
    seq!['n', 'o', 't', 'e', 'p', 'a', 'd']
}

/// The preferred hard-coded viewer name, used when it resolves on the
/// search path.
pub open spec fn code_name() -> Seq<char> {
    seq!['c', 'o', 'd', 'e']
}

/// Build the native-path placeholder.
fn script_placeholder_vec() -> (r: Vec<char>)
    ensures
        r@ == script_placeholder(),
{
    let r = chars_of("@{script}");
    proof {
        reveal_strlit("@{script}");
        assert(r@ =~= script_placeholder());
    }
    r
}

/// Build the forward-slash-path placeholder.
fn script_unix_placeholder_vec() -> (r: Vec<char>)
    ensures
        r@ == script_unix_placeholder(),
{
    let r = chars_of("@{script_unix}");
    proof {
        reveal_strlit("@{script_unix}");
        assert(r@ =~= script_unix_placeholder());
    }
    r
}

/// Build the extra-arguments placeholder.
fn passed_args_placeholder_vec() -> (r: Vec<char>)
    ensures
        r@ == passed_args_placeholder(),
{
    let r = chars_of("@{passed_args}");
    proof {
        reveal_strlit("@{passed_args}");
        assert(r@ =~= passed_args_placeholder());
    }
    r
}

/// One token's text after placeholder substitution: first the native-path
/// placeholder, then the forward-slash one, each by literal replacement.
pub open spec fn expand_placeholders_spec(
    s: Seq<char>,
    script: Seq<char>,
    script_unix: Seq<char>,
) -> Seq<char> {
    replace_spec(
        replace_spec(s, script_placeholder(), script),
        script_unix_placeholder(),
        script_unix,
    )
}

/// Expand the two path placeholders inside one token. Substitution is
/// literal text replacement; the token is never re-split afterwards.
pub fn expand_placeholders(s: &str, script: &str, script_unix: &str) -> (r: String)
    ensures
        r@ == expand_placeholders_spec(s@, script@, script_unix@),
{
    let cs = chars_of(s);
    let p1 = script_placeholder_vec();
    let v1 = chars_of(script);
    let step1 = replace_chars(&cs, &p1, &v1);
    let p2 = script_unix_placeholder_vec();
    let v2 = chars_of(script_unix);
    let step2 = replace_chars(&step1, &p2, &v2);
    string_of(&step2)
}

/// The extra arguments a caller passed along, as character sequences;
/// absent means none.
pub open spec fn passed_views(passed: Option<Vec<String>>) -> Seq<Seq<char>> {
    match passed {
        Some(v) => str_views(v@),
        None => Seq::empty(),
    }
}

/// The argument tokens produced from a template's tokens: the
/// extra-arguments placeholder becomes the passed arguments themselves (no
/// token at all when there are none), any other token has its path
/// placeholders expanded, and a token left empty by expansion is dropped.
pub open spec fn expand_tokens(
    tokens: Seq<Seq<char>>,
    script: Seq<char>,
    script_unix: Seq<char>,
    passed: Seq<Seq<char>>,
) -> Seq<Seq<char>>
    decreases tokens.len(),
{
    if tokens.len() == 0 {
        Seq::empty()
    } else {
        let rest = expand_tokens(tokens.skip(1), script, script_unix, passed);
        if tokens[0] == passed_args_placeholder() {
            passed + rest
        } else {
            let e = expand_placeholders_spec(tokens[0], script, script_unix);
            if e.len() == 0 {
                rest
            } else {
                seq![e] + rest
            }
        }
    }
}

/// Split an override template into words and push the expanded argument
/// tokens; a malformed template contributes nothing.
pub fn expand_and_push_args(
    args: &mut Vec<String>,
    arg_str: &str,
    script: &str,
    script_unix: &str,
    passed_args: &Option<Vec<String>>,
)
    ensures
        str_views(final(args)@) == str_views(old(args)@) + match shell_split(arg_str@) {
            Some(toks) => expand_tokens(toks, script@, script_unix@, passed_views(*passed_args)),
            None => Seq::<Seq<char>>::empty(),
        },
{
    let parts = match shell_words_split(arg_str) {
        Some(p) => p,
        None => {
            proof {
                assert(str_views(args@) =~= str_views(args@) + Seq::<Seq<char>>::empty());
            }
            return ;
        },
    };
    let ghost toks = str_views(parts@);
    let ghost script_v = script@;
    let ghost unix_v = script_unix@;
    let ghost passed_v = passed_views(*passed_args);
    let pa_marker = passed_args_placeholder_vec();
    let n = parts.len();
    let mut i: usize = 0;
    proof {
        assert(toks.skip(0) =~= toks);
        assert(str_views(args@) + expand_tokens(toks, script_v, unix_v, passed_v) =~= str_views(
            old(args)@,
        ) + expand_tokens(toks, script_v, unix_v, passed_v));
    }
    while i < n
        invariant
            n == parts@.len(),
            i <= n,
            toks == str_views(parts@),
            pa_marker@ == passed_args_placeholder(),
            script_v == script@,
            unix_v == script_unix@,
            passed_v == passed_views(*passed_args),
            str_views(old(args)@) + expand_tokens(toks, script_v, unix_v, passed_v) == str_views(
                args@,
            ) + expand_tokens(toks.skip(i as int), script_v, unix_v, passed_v),
        decreases n - i,
    {
        let ghost rest = toks.skip(i as int);
        let ghost a0 = str_views(args@);
        proof {
            assert(toks.len() == parts@.len());
            assert(rest.len() > 0);
            assert(rest[0] == toks[i as int]);
            assert(toks[i as int] == parts@[i as int]@);
            assert(rest.skip(1) =~= toks.skip(i + 1 as int));
        }
        let part_chars = chars_of(parts[i].as_str());
        if chars_eq(&part_chars, &pa_marker) {
            proof {
                assert(rest[0] == passed_args_placeholder());
                assert(expand_tokens(rest, script_v, unix_v, passed_v) == passed_v + expand_tokens(
                    rest.skip(1),
                    script_v,
                    unix_v,
                    passed_v,
                ));
            }
            if let Some(pa) = passed_args {
                proof {
                    assert(passed_v == str_views(pa@));
                }
                let m = pa.len();
                let mut k: usize = 0;
                while k < m
                    invariant
                        m == pa@.len(),
                        k <= m,
                        passed_args matches Some(pv) && pv@ == pa@,
                        str_views(args@) == a0 + str_views(pa@).subrange(0, k as int),
                    decreases m - k,
                {
                    let ghost before = str_views(args@);
                    args.push(pa[k].clone());
                    proof {
                        assert(str_views(args@) =~= before.push(pa@[k as int]@));
                        assert(str_views(args@) =~= a0 + str_views(pa@).subrange(0, k + 1 as int));
                    }
                    k = k + 1;
                }
                proof {
                    assert(str_views(pa@).subrange(0, m as int) =~= str_views(pa@));
                    assert(a0 + (passed_v + expand_tokens(rest.skip(1), script_v, unix_v, passed_v))
                        =~= str_views(args@) + expand_tokens(
                        rest.skip(1),
                        script_v,
                        unix_v,
                        passed_v,
                    ));
                }
            } else {
                proof {
                    assert(passed_v =~= Seq::<Seq<char>>::empty());
                    assert(a0 + (passed_v + expand_tokens(rest.skip(1), script_v, unix_v, passed_v))
                        =~= str_views(args@) + expand_tokens(
                        rest.skip(1),
                        script_v,
                        unix_v,
                        passed_v,
                    ));
                }
            }
        } else {
            let expanded = expand_placeholders(parts[i].as_str(), script, script_unix);
            let ghost e = expand_placeholders_spec(rest[0], script_v, unix_v);
            if !expanded.as_str().is_empty() {
                proof {
                    assert(expand_tokens(rest, script_v, unix_v, passed_v) == seq![e]
                        + expand_tokens(rest.skip(1), script_v, unix_v, passed_v));
                }
                args.push(expanded);
                proof {
                    assert(str_views(args@) =~= a0.push(e));
                    assert(a0 + (seq![e] + expand_tokens(rest.skip(1), script_v, unix_v, passed_v))
                        =~= str_views(args@) + expand_tokens(
                        rest.skip(1),
                        script_v,
                        unix_v,
                        passed_v,
                    ));
                }
            } else {
                proof {
                    assert(expand_tokens(rest, script_v, unix_v, passed_v) == expand_tokens(
                        rest.skip(1),
                        script_v,
                        unix_v,
                        passed_v,
                    ));
                }
            }
        }
        i = i + 1;
    }
    proof {
        assert(toks.skip(n as int) =~= Seq::<Seq<char>>::empty());
        assert(str_views(args@) + expand_tokens(
            Seq::<Seq<char>>::empty(),
            script_v,
            unix_v,
            passed_v,
        ) =~= str_views(args@));
    }
}

/// The script path with forward-slash separators.
pub open spec fn unix_path(path: Seq<char>) -> Seq<char> {
    replace_spec(path, seq!['\\'], seq!['/'])
}

/// The argument vector for invoking an association's execution runtime.
/// With an override template, the expanded template tokens alone (the
/// script path is never auto-appended); without one, the shebang argument's
/// words, then the script path, then the caller's extra arguments.
pub open spec fn spec_command_args(
    assoc: FileAssociation,
    shebang_arg: Option<Seq<char>>,
    file_path: Seq<char>,
    passed: Seq<Seq<char>>,
) -> Seq<Seq<char>> {
    match opt_view(assoc.exec_argv_override) {
        Some(ov) => match shell_split(ov) {
            Some(toks) => expand_tokens(toks, file_path, unix_path(file_path), passed),
            None => Seq::empty(),
        },
        None => {
            let arg_tokens = match shebang_arg {
                Some(a) => match shell_split(a) {
                    Some(t) => t,
                    None => seq![a],
                },
                None => Seq::empty(),
            };
            arg_tokens + seq![file_path] + passed
        },
    }
}

/// Build one backslash.
fn backslash_vec() -> (r: Vec<char>)
    ensures
        r@ == seq!['\\'],
{
    let mut r: Vec<char> = Vec::new();
    r.push('\\');
    assert(r@ =~= seq!['\\']);
    r
}

/// Build one forward slash.
fn slash_vec() -> (r: Vec<char>)
    ensures
        r@ == seq!['/'],
{
    let mut r: Vec<char> = Vec::new();
    r.push('/');
    assert(r@ =~= seq!['/']);
    r
}

/// Build the command for executing the script through its association: the
/// runtime to invoke and its argument vector, as
/// [`spec_command_args`] prescribes. The caller attaches these to a child
/// process inheriting the standard streams.
pub fn build_command(script: &ScriptMetadata, extra_args: Option<Vec<String>>) -> (r: (
    String,
    Vec<String>,
))
    requires
        script.association is Some,
    ensures
        r.0@ == script.association.unwrap().exec_runtime@,
        str_views(r.1@) == spec_command_args(
            script.association.unwrap(),
            opt_view(script.shebang_arg),
            script.file_path@,
            passed_views(extra_args),
        ),
{
    let assoc = match &script.association {
        Some(a) => a,
        None => {
            proof {
                assert(false);
            }
            unreached()
        },
    };
    let program = assoc.exec_runtime.clone();
    let mut args: Vec<String> = Vec::new();
    if let Some(ov) = &assoc.exec_argv_override {
        let path_chars = chars_of(script.file_path.as_str());
        let bs = backslash_vec();
        let sl = slash_vec();
        let unix = string_of(&replace_chars(&path_chars, &bs, &sl));
        expand_and_push_args(
            &mut args,
            ov.as_str(),
            script.file_path.as_str(),
            unix.as_str(),
            &extra_args,
        );
        proof {
            assert(str_views(args@) =~= str_views(Seq::<String>::empty()) + str_views(args@));
        }
        (program, args)
    } else {
        let ghost arg_tokens = match opt_view(script.shebang_arg) {
            Some(a) => match shell_split(a) {
                Some(t) => t,
                None => seq![a],
            },
            None => Seq::<Seq<char>>::empty(),
        };
        if let Some(arg) = &script.shebang_arg {
            match shell_words_split(arg.as_str()) {
                Some(parts) => {
                    let m = parts.len();
                    let mut k: usize = 0;
                    while k < m
                        invariant
                            m == parts@.len(),
                            k <= m,
                            str_views(args@) == str_views(parts@).subrange(0, k as int),
                        decreases m - k,
                    {
                        let ghost before = str_views(args@);
                        args.push(parts[k].clone());
                        proof {
                            assert(str_views(args@) =~= before.push(parts@[k as int]@));
                            assert(str_views(args@) =~= str_views(parts@).subrange(
                                0,
                                k + 1 as int,
                            ));
                        }
                        k = k + 1;
                    }
                    proof {
                        assert(str_views(parts@).subrange(0, m as int) =~= str_views(parts@));
                        assert(str_views(args@) =~= arg_tokens);
                    }
                },
                None => {
                    args.push(arg.clone());
                    proof {
                        assert(str_views(args@) =~= arg_tokens);
                    }
                },
            }
        } else {
            proof {
                assert(str_views(args@) =~= arg_tokens);
            }
        }
        let ghost with_args = str_views(args@);
        args.push(script.file_path.clone());
        proof {
            assert(str_views(args@) =~= with_args.push(script.file_path@));
            assert(str_views(args@) =~= arg_tokens + seq![script.file_path@]);
        }
        let ghost with_path = str_views(args@);
        if let Some(extra) = &extra_args {
            let m = extra.len();
            let mut k: usize = 0;
            while k < m
                invariant
                    m == extra@.len(),
                    k <= m,
                    extra_args matches Some(ev) && ev@ == extra@,
                    str_views(args@) == with_path + str_views(extra@).subrange(0, k as int),
                decreases m - k,
            {
                let ghost before = str_views(args@);
                args.push(extra[k].clone());
                proof {
                    assert(str_views(args@) =~= before.push(extra@[k as int]@));
                    assert(str_views(args@) =~= with_path + str_views(extra@).subrange(
                        0,
                        k + 1 as int,
                    ));
                }
                k = k + 1;
            }
            proof {
                assert(str_views(extra@).subrange(0, m as int) =~= str_views(extra@));
                assert(str_views(args@) =~= arg_tokens + seq![script.file_path@] + passed_views(
                    extra_args,
                ));
            }
        } else {
            proof {
                assert(passed_views(extra_args) =~= Seq::<Seq<char>>::empty());
                assert(str_views(args@) =~= arg_tokens + seq![script.file_path@] + passed_views(
                    extra_args,
                ));
            }
        }
        (program, args)
    }
}

/// A fallback handler's argument template, or the bare script token when
/// the handler declares none.
pub open spec fn handler_args_view(args: Option<String>) -> Seq<char> {
    match args {
        Some(a) => a@,
        None => script_token(),
    }
}

/// The viewer and argument template of the fallback path, tiered by size:
/// the large-file handler at or above its threshold, else the default
/// handler, else the hard-coded viewer with the bare script token.
pub open spec fn fallback_choice(cfg: Config, size_mb: u64) -> (Seq<char>, Seq<char>) {
    match cfg.default_large {
        Some(dl) => if size_mb >= dl.size_mb_threshold {
            (dl.view_runtime@, handler_args_view(dl.args))
        } else {
            match cfg.default {
                Some(d) => (d.view_runtime@, handler_args_view(d.args)),
                None => (notepad_name(), script_token()),
            }
        },
        None => match cfg.default {
            Some(d) => (d.view_runtime@, handler_args_view(d.args)),
            None => (notepad_name(), script_token()),
        },
    }
}

/// Some template token is the bare script token.
pub open spec fn has_script_token(toks: Seq<Seq<char>>) -> bool {
    exists|i: int| 0 <= i < toks.len() && toks[i] == script_token()
}

/// Each bare script token replaced by the script path, other tokens kept.
pub open spec fn subst_script_token(toks: Seq<Seq<char>>, path: Seq<char>) -> Seq<Seq<char>> {
    toks.map_values(
        |t: Seq<char>|
            if t == script_token() {
                path
            } else {
                t
            },
    )
}

/// The fallback command's arguments: when the template's tokens contain the
/// bare script token, each occurrence becomes the script path; otherwise
/// the script path follows all template tokens. A malformed template
/// contributes no tokens of its own.
pub open spec fn fallback_args_spec(template: Seq<char>, path: Seq<char>) -> Seq<Seq<char>> {
    match shell_split(template) {
        Some(toks) => if has_script_token(toks) {
            subst_script_token(toks, path)
        } else {
            toks + seq![path]
        },
        None => seq![path],
    }
}

/// Build the script token.
fn script_token_vec() -> (r: Vec<char>)
    ensures
        r@ == script_token(),
{
    let r = chars_of("$script");
    proof {
        reveal_strlit("$script");
        assert(r@ =~= script_token());
    }
    r
}

/// Build the last-resort viewer name.
fn notepad_vec() -> (r: Vec<char>)
    ensures
        r@ == notepad_name(),
{
    let r = chars_of("notepad");
    proof {
        reveal_strlit("notepad");
        assert(r@ =~= notepad_name());
    }
    r
}

/// A fallback handler's argument template, or the bare script token.
fn handler_args(args: &Option<String>) -> (r: String)
    ensures
        r@ == handler_args_view(*args),
{
    match args {
        Some(a) => a.clone(),
        None => crate::strutil::string_of(&script_token_vec()),
    }
}

/// Pick the fallback viewer and its raw argument template, tiered by size.
fn fallback_handler(config: &Config, size_mb: u64) -> (r: (String, String))
    ensures
        r.0@ == fallback_choice(*config, size_mb).0,
        r.1@ == fallback_choice(*config, size_mb).1,
{
    if let Some(dl) = &config.default_large {
        if size_mb >= dl.size_mb_threshold {
            return (dl.view_runtime.clone(), handler_args(&dl.args));
        }
    }
    if let Some(d) = &config.default {
        return (d.view_runtime.clone(), handler_args(&d.args));
    }
    (crate::strutil::string_of(&notepad_vec()), crate::strutil::string_of(&script_token_vec()))
}

/// Plan the dispatch of a script with no association: pick the size-tiered
/// fallback viewer and its argument vector. The caller resolves the viewer
/// on the search path (falling back to the literal name) and spawns it with
/// the standard streams inherited.
pub fn plan_fallback_dispatch(file_size: u64, file_path: &String, config: &Config) -> (r: (
    String,
    Vec<String>,
))
    ensures
        ({
            let choice = fallback_choice(*config, file_size / 1048576);
            &&& r.0@ == choice.0
            &&& str_views(r.1@) == fallback_args_spec(choice.1, file_path@)
        }),
{
    let size_mb: u64 = file_size / 1048576;
    let (util, template) = fallback_handler(config, size_mb);
    let mut args: Vec<String> = Vec::new();
    let st = script_token_vec();
    match shell_words_split(template.as_str()) {
        None => {
            args.push(file_path.clone());
            proof {
                assert(str_views(args@) =~= seq![file_path@]);
            }
        },
        Some(parts) => {
            let ghost toks = str_views(parts@);
            let n = parts.len();
            // First pass: does any token equal the script token?
            let mut found: bool = false;
            let mut i: usize = 0;
            while i < n
                invariant
                    n == parts@.len(),
                    toks == str_views(parts@),
                    st@ == script_token(),
                    i <= n,
                    found == (exists|j: int| 0 <= j < i && toks[j] == script_token()),
                decreases n - i,
            {
                let pc = chars_of(parts[i].as_str());
                if chars_eq(&pc, &st) {
                    proof {
                        assert(toks[i as int] == script_token());
                    }
                    found = true;
                }
                i = i + 1;
            }
            proof {
                if found {
                    assert(has_script_token(toks));
                } else {
                    assert(!has_script_token(toks));
                }
            }
            if found {
                let mut i: usize = 0;
                while i < n
                    invariant
                        n == parts@.len(),
                        toks == str_views(parts@),
                        st@ == script_token(),
                        i <= n,
                        str_views(args@) == subst_script_token(toks, file_path@).subrange(
                            0,
                            i as int,
                        ),
                    decreases n - i,
                {
                    let ghost before = str_views(args@);
                    let pc = chars_of(parts[i].as_str());
                    if chars_eq(&pc, &st) {
                        args.push(file_path.clone());
                        proof {
                            assert(str_views(args@) =~= before.push(file_path@));
                        }
                    } else {
                        args.push(parts[i].clone());
                        proof {
                            assert(str_views(args@) =~= before.push(toks[i as int]));
                        }
                    }
                    proof {
                        assert(str_views(args@) =~= subst_script_token(toks, file_path@).subrange(
                            0,
                            i + 1 as int,
                        ));
                    }
                    i = i + 1;
                }
                proof {
                    assert(subst_script_token(toks, file_path@).subrange(0, n as int)
                        =~= subst_script_token(toks, file_path@));
                }
            } else {
                let mut i: usize = 0;
                while i < n
                    invariant
                        n == parts@.len(),
                        toks == str_views(parts@),
                        i <= n,
                        str_views(args@) == toks.subrange(0, i as int),
                    decreases n - i,
                {
                    let ghost before = str_views(args@);
                    args.push(parts[i].clone());
                    proof {
                        assert(str_views(args@) =~= before.push(toks[i as int]));
                        assert(str_views(args@) =~= toks.subrange(0, i + 1 as int));
                    }
                    i = i + 1;
                }
                let ghost before = str_views(args@);
                args.push(file_path.clone());
                proof {
                    assert(toks.subrange(0, n as int) =~= toks);
                    assert(str_views(args@) =~= before.push(file_path@));
                    assert(str_views(args@) =~= toks + seq![file_path@]);
                }
            }
        },
    }
    (util, args)
}

/// Expanding template words that hold no placeholder at all leaves them
/// exactly as they are: expansion neither rewrites, drops, nor adds a
/// word. (A word left empty by quoting alone is dropped, so the words are
/// required non-empty.)
pub proof fn lemma_expand_no_placeholders(
    tokens: Seq<Seq<char>>,
    script: Seq<char>,
    script_unix: Seq<char>,
    passed: Seq<Seq<char>>,
)
    requires
        forall|i: int|
            0 <= i < tokens.len() ==> !contains_spec(#[trigger] tokens[i], script_placeholder()),
        forall|i: int|
            0 <= i < tokens.len() ==> !contains_spec(
                #[trigger] tokens[i],
                script_unix_placeholder(),
            ),
        forall|i: int| 0 <= i < tokens.len() ==> #[trigger] tokens[i] != passed_args_placeholder(),
        forall|i: int| 0 <= i < tokens.len() ==> #[trigger] tokens[i].len() > 0,
    ensures
        expand_tokens(tokens, script, script_unix, passed) == tokens,
    decreases tokens.len(),
{
    if tokens.len() > 0 {
        crate::strutil::lemma_replace_absent(tokens[0], script_placeholder(), script);
        crate::strutil::lemma_replace_absent(tokens[0], script_unix_placeholder(), script_unix);
        assert(expand_placeholders_spec(tokens[0], script, script_unix) == tokens[0]);
        let rest = tokens.skip(1);
        assert forall|i: int| 0 <= i < rest.len() implies !contains_spec(
            #[trigger] rest[i],
            script_placeholder(),
        ) && !contains_spec(rest[i], script_unix_placeholder()) && rest[i]
            != passed_args_placeholder() && rest[i].len() > 0 by {
            assert(rest[i] == tokens[i + 1]);
        }
        lemma_expand_no_placeholders(rest, script, script_unix, passed);
        assert(seq![tokens[0]] + tokens.skip(1) =~= tokens);
    }
}

/// With an override template made of placeholder-free, non-empty words,
/// the built arguments are exactly the template's words: an override
/// template never has the script path auto-appended.
pub proof fn lemma_override_exact(
    assoc: FileAssociation,
    shebang_arg: Option<Seq<char>>,
    file_path: Seq<char>,
    passed: Seq<Seq<char>>,
    toks: Seq<Seq<char>>,
)
    requires
        assoc.exec_argv_override matches Some(t) && shell_split(t@) == Some(toks),
        forall|i: int|
            0 <= i < toks.len() ==> !contains_spec(#[trigger] toks[i], script_placeholder()),
        forall|i: int|
            0 <= i < toks.len() ==> !contains_spec(#[trigger] toks[i], script_unix_placeholder()),
        forall|i: int| 0 <= i < toks.len() ==> #[trigger] toks[i] != passed_args_placeholder(),
        forall|i: int| 0 <= i < toks.len() ==> #[trigger] toks[i].len() > 0,
    ensures
        spec_command_args(assoc, shebang_arg, file_path, passed) == toks,
{
    lemma_expand_no_placeholders(toks, file_path, unix_path(file_path), passed);
}

/// The extra-arguments placeholder with no extra arguments contributes
/// zero tokens: a template word equal to it vanishes from the expansion.
pub proof fn lemma_passed_args_placeholder_vanishes(
    rest: Seq<Seq<char>>,
    script: Seq<char>,
    script_unix: Seq<char>,
)
    ensures
        expand_tokens(
            seq![passed_args_placeholder()] + rest,
            script,
            script_unix,
            Seq::empty(),
        ) == expand_tokens(rest, script, script_unix, Seq::empty()),
{
    let toks = seq![passed_args_placeholder()] + rest;
    assert(toks[0] == passed_args_placeholder());
    assert(toks.skip(1) =~= rest);
    assert(Seq::<Seq<char>>::empty() + expand_tokens(rest, script, script_unix, Seq::empty())
        =~= expand_tokens(rest, script, script_unix, Seq::empty()));
}

/// When every extra argument is non-empty — and so in particular when
/// there are none — no token of the expansion is ever the empty string.
pub proof fn lemma_expand_no_empty_tokens(
    tokens: Seq<Seq<char>>,
    script: Seq<char>,
    script_unix: Seq<char>,
    passed: Seq<Seq<char>>,
)
    requires
        forall|i: int| 0 <= i < passed.len() ==> #[trigger] passed[i].len() > 0,
    ensures
        forall|i: int|
            0 <= i < expand_tokens(tokens, script, script_unix, passed).len()
                ==> #[trigger] expand_tokens(tokens, script, script_unix, passed)[i].len() > 0,
    decreases tokens.len(),
{
    if tokens.len() > 0 {
        lemma_expand_no_empty_tokens(tokens.skip(1), script, script_unix, passed);
        let r = expand_tokens(tokens, script, script_unix, passed);
        let rest = expand_tokens(tokens.skip(1), script, script_unix, passed);
        assert forall|i: int| 0 <= i < r.len() implies #[trigger] r[i].len() > 0 by {
            if tokens[0] == passed_args_placeholder() {
                if i < passed.len() {
                    assert(r[i] == passed[i]);
                } else {
                    assert(r[i] == rest[i - passed.len()]);
                }
            } else {
                let e = expand_placeholders_spec(tokens[0], script, script_unix);
                if e.len() == 0 {
                    assert(r[i] == rest[i]);
                } else {
                    if i == 0 {
                        assert(r[0] == e);
                    } else {
                        assert(r[i] == rest[i - 1]);
                    }
                }
            }
        }
    }
}

/// The interaction mode for a script: the association's override, else the
/// configured default, else prompting.
pub open spec fn spec_resolve_operation(script: ScriptMetadata, cfg: Config) -> DefaultOperation {
    let assoc_op = match script.association {
        Some(a) => a.default_operation,
        None => None,
    };
    match assoc_op {
        Some(op) => op,
        None => match cfg.default_operation {
            Some(op) => op,
            None => DefaultOperation::Prompt,
        },
    }
}

/// Resolve the interaction mode for the script: association override over
/// configured default over the hard-coded prompt.
pub fn resolve_operation(script: &ScriptMetadata, config: &Config) -> (r: DefaultOperation)
    ensures
        r == spec_resolve_operation(*script, *config),
{
    if let Some(a) = &script.association {
        if let Some(op) = a.default_operation {
            return op;
        }
    }
    if let Some(op) = config.default_operation {
        return op;
    }
    DefaultOperation::Prompt
}

/// The configured default viewer, when one is set.
pub open spec fn default_view(cfg: Config) -> Option<Seq<char>> {
    match cfg.default {
        Some(d) => Some(d.view_runtime@),
        None => None,
    }
}

/// The viewer when the association names none: the large-file viewer at or
/// above its size threshold, else the configured default viewer.
pub open spec fn view_fallback(cfg: Config, file_size: u64) -> Option<Seq<char>> {
    match cfg.default_large {
        Some(dl) => if file_size / 1048576 >= dl.size_mb_threshold {
            Some(dl.view_runtime@)
        } else {
            default_view(cfg)
        },
        None => default_view(cfg),
    }
}

/// The viewer for a script, when the configuration determines one: the
/// association's viewer, else the size-tiered configured viewer. No result
/// means the hard-coded platform fallback applies.
pub open spec fn spec_resolve_view_runtime(script: ScriptMetadata, cfg: Config) -> Option<
    Seq<char>,
> {
    let assoc_view = match script.association {
        Some(a) => a.view_runtime,
        None => None,
    };
    match assoc_view {
        Some(v) => Some(v@),
        None => view_fallback(cfg, script.file_size),
    }
}

/// Resolve the viewer runtime for the script, in priority order: the
/// association's viewer, the large-file viewer when the file size in
/// mebibytes meets the threshold, the configured default viewer, and last a
/// hard-coded editor — the preferred one when it resolves on the search
/// path, else the platform viewer of last resort.
pub fn resolve_view_runtime(script: &ScriptMetadata, config: &Config) -> (r: String)
    ensures
        match spec_resolve_view_runtime(*script, *config) {
            Some(v) => r@ == v,
            None => r@ == code_name() || r@ == notepad_name(),
        },
{
    if let Some(a) = &script.association {
        if let Some(v) = &a.view_runtime {
            return v.clone();
        }
    }
    if let Some(dl) = &config.default_large {
        if script.file_size / 1048576 >= dl.size_mb_threshold {
            return dl.view_runtime.clone();
        }
    }
    if let Some(d) = &config.default {
        return d.view_runtime.clone();
    }
    let code = chars_of("code");
    proof {
        reveal_strlit("code");
        assert(code@ =~= code_name());
    }
    let code_s = string_of(&code);
    if resolve_executable(code_s.as_str()).is_some() {
        code_s
    } else {
        string_of(&notepad_vec())
    }
}

/// What the user chose in the confirmation dialog. The dialog itself has
/// already launched the viewer when the choice is `Edit`.
#[derive(Clone, Copy, Debug, PartialEq, Eq, Structural)]
pub enum UserChoice {
    Run,
    Edit,
    Exit,
}

/// What the dispatcher does next.
#[derive(Clone, Copy, Debug, PartialEq, Eq, Structural)]
pub enum DispatchAction {
    /// Spawn the built command and wait for it.
    RunCommand,
    /// Resolve the viewer and open the script in it.
    OpenEditor,
    /// Ask the user through the confirmation dialog.
    PromptUser,
    /// Nothing left to do.
    DoNothing,
}

/// Decide what a dispatch with an association does. A non-interactive
/// parent always executes the built command directly, whatever the resolved
/// operation says — only an interactive parent is ever prompted.
pub fn decide_dispatch(interactive: bool, operation: DefaultOperation) -> (r: DispatchAction)
    ensures
        !interactive ==> r == DispatchAction::RunCommand,
        interactive ==> r == match operation {
            DefaultOperation::Execute => DispatchAction::RunCommand,
            DefaultOperation::Open => DispatchAction::OpenEditor,
            DefaultOperation::Prompt => DispatchAction::PromptUser,
        },
{
    if !interactive {
        DispatchAction::RunCommand
    } else {
        match operation {
            DefaultOperation::Execute => DispatchAction::RunCommand,
            DefaultOperation::Open => DispatchAction::OpenEditor,
            DefaultOperation::Prompt => DispatchAction::PromptUser,
        }
    }
}

/// What follows the confirmation dialog: only an explicit Run spawns the
/// command; Edit was already handled by the dialog, and Exit does nothing.
pub fn after_prompt(choice: UserChoice) -> (r: DispatchAction)
    ensures
        r == match choice {
            UserChoice::Run => DispatchAction::RunCommand,
            UserChoice::Edit => DispatchAction::DoNothing,
            UserChoice::Exit => DispatchAction::DoNothing,
        },
{
    match choice {
        UserChoice::Run => DispatchAction::RunCommand,
        UserChoice::Edit => DispatchAction::DoNothing,
        UserChoice::Exit => DispatchAction::DoNothing,
    }
}

} // verus!
