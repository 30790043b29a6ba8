//! Character-level string utilities: conversions between `String` and
//! `Vec<char>`, trimming, whitespace splitting, path basenames, literal
//! substring replacement, and joining. All specified over `Seq<char>`.

use vstd::prelude::*;

verus! {

/// Whitespace, the separator set used for trimming and shebang
/// tokenisation: the Unicode White_Space characters, as the std whitespace
/// splitter recognises them.
pub open spec fn is_space_char(c: char) -> bool {
    ||| c == ' '
    ||| c == '\t'
    ||| c == '\n'
    ||| c == '\r'
    ||| c == '\x0b'
    ||| c == '\x0c'
    ||| c == '\u{0085}'
    ||| c == '\u{00a0}'
    ||| c == '\u{1680}'
    ||| c == '\u{2000}'
    ||| c == '\u{2001}'
    ||| c == '\u{2002}'
    ||| c == '\u{2003}'
    ||| c == '\u{2004}'
    ||| c == '\u{2005}'
    ||| c == '\u{2006}'
    ||| c == '\u{2007}'
    ||| c == '\u{2008}'
    ||| c == '\u{2009}'
    ||| c == '\u{200a}'
    ||| c == '\u{2028}'
    ||| c == '\u{2029}'
    ||| c == '\u{202f}'
    ||| c == '\u{205f}'
    ||| c == '\u{3000}'
}

/// Path separators: both directory separator conventions are recognised.
pub open spec fn is_sep_char(c: char) -> bool {
    c == '/' || c == '\\'
}

/// `s` with leading whitespace removed.
pub open spec fn trim_start_spec(s: Seq<char>) -> Seq<char>
    decreases s.len(),
{
    if s.len() > 0 && is_space_char(s[0]) {
        trim_start_spec(s.skip(1))
    } else {
        s
    }
}

/// `s` with trailing whitespace removed.
pub open spec fn trim_end_spec(s: Seq<char>) -> Seq<char>
    decreases s.len(),
{
    if s.len() > 0 && is_space_char(s[s.len() - 1]) {
        trim_end_spec(s.drop_last())
    } else {
        s
    }
}

/// `s` with leading and trailing whitespace removed.
pub open spec fn trim_spec(s: Seq<char>) -> Seq<char> {
    trim_end_spec(trim_start_spec(s))
}

/// Length of the leading run of non-whitespace characters.
pub open spec fn token_len(s: Seq<char>) -> nat
    decreases s.len(),
{
    if s.len() == 0 || is_space_char(s[0]) {
        0
    } else {
        (1 + token_len(s.skip(1))) as nat
    }
}

/// The whitespace-separated tokens of `s`, in order; empty tokens never occur.
pub open spec fn split_ws_spec(s: Seq<char>) -> Seq<Seq<char>>
    decreases s.len(),
    via split_ws_spec_decreases
{
    if s.len() == 0 {
        Seq::empty()
    } else if is_space_char(s[0]) {
        split_ws_spec(s.skip(1))
    } else {
        seq![s.take(token_len(s) as int)] + split_ws_spec(s.skip(token_len(s) as int))
    }
}

#[via_fn]
proof fn split_ws_spec_decreases(s: Seq<char>) {
    if s.len() > 0 && !is_space_char(s[0]) {
        lemma_token_len_le(s);
    }
}

/// The leading token never runs past the end of the sequence.
proof fn lemma_token_len_le(s: Seq<char>)
    ensures
        token_len(s) <= s.len(),
    decreases s.len(),
{
    if s.len() > 0 && !is_space_char(s[0]) {
        lemma_token_len_le(s.skip(1));
    }
}

/// `p` is a prefix of `s`.
pub open spec fn starts_with_spec(s: Seq<char>, p: Seq<char>) -> bool {
    p.len() <= s.len() && s.take(p.len() as int) == p
}

/// `pat` occurs in `s` starting at position `i`.
pub open spec fn occurs_at(s: Seq<char>, pat: Seq<char>, i: int) -> bool {
    0 <= i && i + pat.len() <= s.len() && s.subrange(i, i + pat.len()) == pat
}

/// `pat` occurs somewhere in `s`.
pub open spec fn contains_spec(s: Seq<char>, pat: Seq<char>) -> bool {
    exists|i: int| occurs_at(s, pat, i)
}

/// `s` with every occurrence of `pat` replaced by `val`, scanning left to
/// right over non-overlapping occurrences; an empty pattern replaces nothing.
pub open spec fn replace_spec(s: Seq<char>, pat: Seq<char>, val: Seq<char>) -> Seq<char>
    decreases s.len(),
{
    if pat.len() == 0 || s.len() < pat.len() {
        s
    } else if s.take(pat.len() as int) == pat {
        val + replace_spec(s.skip(pat.len() as int), pat, val)
    } else {
        seq![s[0]] + replace_spec(s.skip(1), pat, val)
    }
}

/// Replacing a pattern that never occurs leaves the text unchanged.
pub proof fn lemma_replace_absent(s: Seq<char>, pat: Seq<char>, val: Seq<char>)
    requires
        !contains_spec(s, pat),
    ensures
        replace_spec(s, pat, val) == s,
    decreases s.len(),
{
    if pat.len() == 0 || s.len() < pat.len() {
    } else {
        if s.take(pat.len() as int) == pat {
            assert(s.subrange(0, pat.len() as int) =~= s.take(pat.len() as int));
            assert(occurs_at(s, pat, 0));
        }
        assert forall|i: int| !occurs_at(s.skip(1), pat, i) by {
            if occurs_at(s.skip(1), pat, i) {
                assert(s.subrange(i + 1, i + 1 + pat.len()) =~= s.skip(1).subrange(
                    i,
                    i + pat.len(),
                ));
                assert(occurs_at(s, pat, i + 1));
            }
        }
        lemma_replace_absent(s.skip(1), pat, val);
        assert(seq![s[0]] + s.skip(1) =~= s);
    }
}

/// The parts joined with `sep` between consecutive parts.
pub open spec fn join_spec(parts: Seq<Seq<char>>, sep: Seq<char>) -> Seq<char>
    decreases parts.len(),
{
    if parts.len() == 0 {
        Seq::empty()
    } else if parts.len() == 1 {
        parts[0]
    } else {
        parts[0] + sep + join_spec(parts.skip(1), sep)
    }
}

/// `s` with trailing path separators removed.
pub open spec fn strip_trailing_seps(s: Seq<char>) -> Seq<char>
    decreases s.len(),
{
    if s.len() > 0 && is_sep_char(s[s.len() - 1]) {
        strip_trailing_seps(s.drop_last())
    } else {
        s
    }
}

/// The suffix of `s` after its last path separator (all of `s` if none).
pub open spec fn after_last_sep(s: Seq<char>) -> Seq<char>
    decreases s.len(),
{
    if s.len() == 0 {
        s
    } else if is_sep_char(s[s.len() - 1]) {
        Seq::empty()
    } else {
        after_last_sep(s.drop_last()).push(s[s.len() - 1])
    }
}

/// The final path component of `s`: trailing separators are ignored; a
/// path consisting only of separators (or nothing) has no basename, and
/// neither do the relative components `.` and `..`, which name no file.
pub open spec fn basename_spec(s: Seq<char>) -> Option<Seq<char>> {
    let b = after_last_sep(strip_trailing_seps(s));
    if b.len() == 0 || b == seq!['.'] || b == seq!['.', '.'] {
        None
    } else {
        Some(b)
    }
}

/// Case-insensitive equality on ASCII letters; all other characters must
/// match exactly.
pub open spec fn char_eq_ignore_ascii_case(a: char, b: char) -> bool {
    a == b || (('A' as int) <= (a as int) <= ('Z' as int) && (b as int) == (a as int) + 32) || ((
    'a' as int) <= (a as int) <= ('z' as int) && (a as int) == (b as int) + 32)
}

/// ASCII-case-insensitive equality of character sequences.
pub open spec fn seq_eq_ignore_ascii_case(a: Seq<char>, b: Seq<char>) -> bool {
    a.len() == b.len() && (forall|i: int|
        0 <= i < a.len() ==> char_eq_ignore_ascii_case(a[i], b[i]))
}

/// The view of an optional string.
pub open spec fn opt_view(o: Option<String>) -> Option<Seq<char>> {
    match o {
        Some(s) => Some(s@),
        None => None,
    }
}

/// The views of a sequence of character vectors.
pub open spec fn views_of(r: Seq<Vec<char>>) -> Seq<Seq<char>> {
    r.map_values(|t: Vec<char>| t@)
}

/// The views of a sequence of strings.
pub open spec fn str_views(r: Seq<String>) -> Seq<Seq<char>> {
    r.map_values(|t: String| t@)
}

/// Relies on std's String::push: appends one character at the end.
#[verifier::external_body]
fn push_char(s: &mut String, c: char)
    ensures
        final(s)@ == old(s)@.push(c),
{
    s.push(c)
}

/// The characters of `s`, in order.
pub fn chars_of(s: &str) -> (r: Vec<char>)
    ensures
        r@ == s@,
{
    let n = s.unicode_len();
    let mut r: Vec<char> = Vec::new();
    let mut i: usize = 0;
    while i < n
        invariant
            n == s@.len(),
            i <= n,
            r@ == s@.subrange(0, i as int),
        decreases n - i,
    {
        r.push(s.get_char(i));
        assert(r@ =~= s@.subrange(0, i + 1 as int));
        i = i + 1;
    }
    assert(r@ =~= s@);
    r
}

/// The string whose characters are exactly `v`, in order.
pub fn string_of(v: &Vec<char>) -> (r: String)
    ensures
        r@ == v@,
{
    let mut r = String::new();
    let mut i: usize = 0;
    while i < v.len()
        invariant
            i <= v@.len(),
            r@ == v@.subrange(0, i as int),
        decreases v@.len() - i,
    {
        push_char(&mut r, v[i]);
        assert(r@ =~= v@.subrange(0, i + 1 as int));
        i = i + 1;
    }
    assert(r@ =~= v@);
    r
}

/// The characters of `v` from `from` (inclusive) to `to` (exclusive).
pub fn subvec(v: &Vec<char>, from: usize, to: usize) -> (r: Vec<char>)
    requires
        from <= to <= v@.len(),
    ensures
        r@ == v@.subrange(from as int, to as int),
{
    let mut r: Vec<char> = Vec::new();
    let mut i: usize = from;
    while i < to
        invariant
            from <= i <= to <= v@.len(),
            r@ == v@.subrange(from as int, i as int),
        decreases to - i,
    {
        r.push(v[i]);
        assert(r@ =~= v@.subrange(from as int, i + 1 as int));
        i = i + 1;
    }
    r
}

/// Character-sequence equality.
pub fn chars_eq(a: &Vec<char>, b: &Vec<char>) -> (r: bool)
    ensures
        r == (a@ == b@),
{
    if a.len() != b.len() {
        assert(a@.len() != b@.len());
        return false;
    }
    let mut i: usize = 0;
    while i < a.len()
        invariant
            a@.len() == b@.len(),
            i <= a@.len(),
            forall|j: int| 0 <= j < i ==> a@[j] == b@[j],
        decreases a@.len() - i,
    {
        if a[i] != b[i] {
            return false;
        }
        i = i + 1;
    }
    assert(a@ =~= b@);
    true
}

/// Whether `c` is whitespace.
pub fn is_space(c: char) -> (r: bool)
    ensures
        r == is_space_char(c),
{
    c == ' ' || c == '\t' || c == '\n' || c == '\r' || c == '\x0b' || c == '\x0c'
        || c == '\u{0085}' || c == '\u{00a0}' || c == '\u{1680}' || c == '\u{2000}'
        || c == '\u{2001}' || c == '\u{2002}' || c == '\u{2003}' || c == '\u{2004}'
        || c == '\u{2005}' || c == '\u{2006}' || c == '\u{2007}' || c == '\u{2008}'
        || c == '\u{2009}' || c == '\u{200a}' || c == '\u{2028}' || c == '\u{2029}'
        || c == '\u{202f}' || c == '\u{205f}' || c == '\u{3000}'
}

/// Whether `c` is a path separator.
pub fn is_sep(c: char) -> (r: bool)
    ensures
        r == is_sep_char(c),
{
    c == '/' || c == '\\'
}

/// A copy of the character vector.
pub fn copy_chars(v: &Vec<char>) -> (r: Vec<char>)
    ensures
        r@ == v@,
{
    let mut r: Vec<char> = Vec::new();
    let mut i: usize = 0;
    while i < v.len()
        invariant
            i <= v@.len(),
            r@ == v@.subrange(0, i as int),
        decreases v@.len() - i,
    {
        r.push(v[i]);
        assert(r@ =~= v@.subrange(0, i + 1 as int));
        i = i + 1;
    }
    assert(r@ =~= v@);
    r
}

/// Append all characters of `v` to `out`.
pub fn append_chars(out: &mut Vec<char>, v: &Vec<char>)
    ensures
        final(out)@ == old(out)@ + v@,
{
    let mut i: usize = 0;
    while i < v.len()
        invariant
            i <= v@.len(),
            out@ == old(out)@ + v@.subrange(0, i as int),
        decreases v@.len() - i,
    {
        out.push(v[i]);
        assert(out@ =~= old(out)@ + v@.subrange(0, i + 1 as int));
        i = i + 1;
    }
    assert(out@ =~= old(out)@ + v@);
}

/// Removing leading whitespace is the same as skipping past it.
proof fn lemma_trim_start_skip(s: Seq<char>, k: int)
    requires
        0 <= k <= s.len(),
        forall|j: int| 0 <= j < k ==> is_space_char(s[j]),
        k < s.len() ==> !is_space_char(s[k]),
    ensures
        trim_start_spec(s) == s.skip(k),
    decreases k,
{
    if k == 0 {
        assert(s.skip(0) =~= s);
    } else {
        lemma_trim_start_skip(s.skip(1), k - 1);
        assert(s.skip(1).skip(k - 1) =~= s.skip(k));
    }
}

/// Removing trailing whitespace is the same as truncating it.
proof fn lemma_trim_end_take(s: Seq<char>, k: int)
    requires
        0 <= k <= s.len(),
        forall|j: int| k <= j < s.len() ==> is_space_char(s[j]),
        k > 0 ==> !is_space_char(s[k - 1]),
    ensures
        trim_end_spec(s) == s.take(k),
    decreases s.len(),
{
    if k == s.len() {
        if s.len() > 0 && is_space_char(s[s.len() - 1]) {
            assert(!is_space_char(s[k - 1]));
        }
        assert(s.take(k) =~= s);
    } else {
        assert(is_space_char(s[s.len() - 1]));
        lemma_trim_end_take(s.drop_last(), k);
        assert(s.drop_last().take(k) =~= s.take(k));
    }
}

/// `v` with surrounding whitespace removed.
pub fn trim_chars(v: &Vec<char>) -> (r: Vec<char>)
    ensures
        r@ == trim_spec(v@),
{
    let n = v.len();
    let mut lo: usize = 0;
    while lo < n && is_space(v[lo])
        invariant
            n == v@.len(),
            lo <= n,
            forall|j: int| 0 <= j < lo ==> is_space_char(v@[j]),
        decreases n - lo,
    {
        lo = lo + 1;
    }
    let mut hi: usize = n;
    while hi > lo && is_space(v[hi - 1])
        invariant
            n == v@.len(),
            lo <= hi <= n,
            forall|j: int| hi <= j < n ==> is_space_char(v@[j]),
        decreases hi,
    {
        hi = hi - 1;
    }
    proof {
        lemma_trim_start_skip(v@, lo as int);
        if hi == lo {
            // everything after lo is whitespace
            lemma_trim_end_take(v@.skip(lo as int), 0);
        } else {
            lemma_trim_end_take(v@.skip(lo as int), hi - lo);
        }
        assert(v@.skip(lo as int).take(hi - lo) =~= v@.subrange(lo as int, hi as int));
    }
    let mut r: Vec<char> = Vec::new();
    let mut i: usize = lo;
    while i < hi
        invariant
            lo <= i <= hi <= v@.len(),
            r@ == v@.subrange(lo as int, i as int),
        decreases hi - i,
    {
        r.push(v[i]);
        assert(r@ =~= v@.subrange(lo as int, i + 1 as int));
        i = i + 1;
    }
    r
}

/// The leading non-whitespace run is exactly `k` characters long.
proof fn lemma_token_len_val(s: Seq<char>, k: int)
    requires
        0 <= k <= s.len(),
        forall|j: int| 0 <= j < k ==> !is_space_char(s[j]),
        k < s.len() ==> is_space_char(s[k]),
    ensures
        token_len(s) == k,
    decreases k,
{
    if k == 0 {
    } else {
        lemma_token_len_val(s.skip(1), k - 1);
    }
}

/// The whitespace-separated tokens of `v`, in order.
pub fn split_ws(v: &Vec<char>) -> (r: Vec<Vec<char>>)
    ensures
        views_of(r@) == split_ws_spec(v@),
{
    let n = v.len();
    let mut r: Vec<Vec<char>> = Vec::new();
    let mut i: usize = 0;
    proof {
        assert(v@.skip(0) =~= v@);
        assert(views_of(r@) + split_ws_spec(v@) =~= split_ws_spec(v@));
    }
    while i < n
        invariant
            n == v@.len(),
            i <= n,
            split_ws_spec(v@) == views_of(r@) + split_ws_spec(v@.skip(i as int)),
        decreases n - i,
    {
        if is_space(v[i]) {
            proof {
                assert(v@.skip(i as int).skip(1) =~= v@.skip(i + 1 as int));
            }
            i = i + 1;
        } else {
            let start = i;
            let mut tok: Vec<char> = Vec::new();
            while i < n && !is_space(v[i])
                invariant
                    n == v@.len(),
                    start <= i <= n,
                    forall|j: int| start <= j < i ==> !is_space_char(v@[j]),
                    tok@ == v@.subrange(start as int, i as int),
                decreases n - i,
            {
                tok.push(v[i]);
                assert(tok@ =~= v@.subrange(start as int, i + 1 as int));
                i = i + 1;
            }
            proof {
                let rest = v@.skip(start as int);
                lemma_token_len_val(rest, i - start);
                assert(rest.take(i - start) =~= v@.subrange(start as int, i as int));
                assert(rest.skip(i - start) =~= v@.skip(i as int));
                assert(split_ws_spec(rest) == seq![tok@] + split_ws_spec(v@.skip(i as int)));
            }
            let ghost old_r = r@;
            r.push(tok);
            proof {
                assert(views_of(r@) =~= views_of(old_r).push(tok@));
                assert(views_of(r@) + split_ws_spec(v@.skip(i as int)) =~= views_of(old_r) + (
                seq![tok@] + split_ws_spec(v@.skip(i as int))));
            }
        }
    }
    proof {
        assert(v@.skip(n as int) =~= Seq::<char>::empty());
        assert(views_of(r@) + split_ws_spec(v@.skip(n as int)) =~= views_of(r@));
    }
    r
}

/// Whether `pat` occurs in `s` at position `i`.
pub fn matches_at(s: &Vec<char>, pat: &Vec<char>, i: usize) -> (r: bool)
    requires
        i + pat@.len() <= s@.len(),
    ensures
        r == (s@.subrange(i as int, i + pat@.len()) == pat@),
{
    let n = s.len();
    let mut j: usize = 0;
    while j < pat.len()
        invariant
            n == s@.len(),
            i + pat@.len() <= s@.len(),
            j <= pat@.len(),
            forall|k: int| 0 <= k < j ==> s@[i + k] == pat@[k],
        decreases pat@.len() - j,
    {
        if s[i + j] != pat[j] {
            assert(s@.subrange(i as int, i + pat@.len())[j as int] != pat@[j as int]);
            return false;
        }
        j = j + 1;
    }
    assert(s@.subrange(i as int, i + pat@.len()) =~= pat@);
    true
}

/// Whether `p` is a prefix of `s`.
pub fn starts_with_chars(s: &Vec<char>, p: &Vec<char>) -> (r: bool)
    ensures
        r == starts_with_spec(s@, p@),
{
    if p.len() > s.len() {
        return false;
    }
    let r = matches_at(s, p, 0);
    proof {
        assert(s@.subrange(0, p@.len() as int) =~= s@.take(p@.len() as int));
    }
    r
}

/// `s` with every occurrence of `pat` replaced by `val`, scanning left to
/// right.
pub fn replace_chars(s: &Vec<char>, pat: &Vec<char>, val: &Vec<char>) -> (r: Vec<char>)
    ensures
        r@ == replace_spec(s@, pat@, val@),
{
    if pat.len() == 0 {
        return copy_chars(s);
    }
    let n = s.len();
    let mut out: Vec<char> = Vec::new();
    let mut i: usize = 0;
    proof {
        assert(s@.skip(0) =~= s@);
        assert(out@ + replace_spec(s@, pat@, val@) =~= replace_spec(s@, pat@, val@));
    }
    while i < n
        invariant
            n == s@.len(),
            i <= n,
            pat@.len() >= 1,
            replace_spec(s@, pat@, val@) == out@ + replace_spec(s@.skip(i as int), pat@, val@),
        decreases n - i,
    {
        let ghost rest = s@.skip(i as int);
        if n - i >= pat.len() && matches_at(s, pat, i) {
            proof {
                assert(rest.take(pat@.len() as int) =~= s@.subrange(i as int, i + pat@.len()));
                assert(rest.skip(pat@.len() as int) =~= s@.skip(i + pat@.len()));
                assert(replace_spec(rest, pat@, val@) == val@ + replace_spec(
                    s@.skip(i + pat@.len()),
                    pat@,
                    val@,
                ));
            }
            let ghost old_out = out@;
            append_chars(&mut out, val);
            proof {
                assert(old_out + (val@ + replace_spec(s@.skip(i + pat@.len()), pat@, val@)) =~= out@
                    + replace_spec(s@.skip(i + pat@.len()), pat@, val@));
            }
            i = i + pat.len();
        } else {
            proof {
                assert(rest.skip(1) =~= s@.skip(i + 1 as int));
                if rest.len() >= pat@.len() {
                    // no match at i, so the head character passes through
                    assert(rest.take(pat@.len() as int) =~= s@.subrange(
                        i as int,
                        i + pat@.len(),
                    ));
                    assert(replace_spec(rest, pat@, val@) == seq![rest[0]] + replace_spec(
                        rest.skip(1),
                        pat@,
                        val@,
                    ));
                } else {
                    // too little input left for a match: both sides pass through
                    assert(replace_spec(rest, pat@, val@) == rest);
                    assert(replace_spec(rest.skip(1), pat@, val@) == rest.skip(1));
                    assert(rest =~= seq![rest[0]] + rest.skip(1));
                }
            }
            let ghost old_out = out@;
            out.push(s[i]);
            proof {
                assert(old_out + (seq![rest[0]] + replace_spec(
                    s@.skip(i + 1 as int),
                    pat@,
                    val@,
                )) =~= out@ + replace_spec(s@.skip(i + 1 as int), pat@, val@));
            }
            i = i + 1;
        }
    }
    proof {
        assert(s@.skip(n as int) =~= Seq::<char>::empty());
        assert(out@ + replace_spec(Seq::<char>::empty(), pat@, val@) =~= out@);
    }
    out
}

/// Join the parts from index `start` on with `sep` between them.
pub fn join_from(parts: &Vec<Vec<char>>, start: usize, sep: &Vec<char>) -> (r: Vec<char>)
    requires
        start <= parts@.len(),
    ensures
        r@ == join_spec(views_of(parts@).skip(start as int), sep@),
    decreases parts@.len() - start,
{
    let ghost ps = views_of(parts@).skip(start as int);
    if start == parts.len() {
        let r: Vec<char> = Vec::new();
        assert(ps =~= Seq::<Seq<char>>::empty());
        r
    } else if start + 1 == parts.len() {
        let r = copy_chars(&parts[start]);
        assert(ps.len() == 1 && ps[0] == parts@[start as int]@);
        r
    } else {
        let mut out = copy_chars(&parts[start]);
        append_chars(&mut out, sep);
        let rest = join_from(parts, start + 1, sep);
        append_chars(&mut out, &rest);
        proof {
            assert(ps[0] == parts@[start as int]@);
            assert(ps.skip(1) =~= views_of(parts@).skip(start + 1 as int));
            assert(out@ =~= ps[0] + sep@ + join_spec(ps.skip(1), sep@));
        }
        out
    }
}

/// Stripping trailing separators is the same as truncating them.
proof fn lemma_strip_trailing_take(s: Seq<char>, m: int)
    requires
        0 <= m <= s.len(),
        forall|j: int| m <= j < s.len() ==> is_sep_char(s[j]),
        m > 0 ==> !is_sep_char(s[m - 1]),
    ensures
        strip_trailing_seps(s) == s.take(m),
    decreases s.len(),
{
    if m == s.len() {
        if s.len() > 0 && is_sep_char(s[s.len() - 1]) {
            assert(!is_sep_char(s[m - 1]));
        }
        assert(s.take(m) =~= s);
    } else {
        assert(is_sep_char(s[s.len() - 1]));
        lemma_strip_trailing_take(s.drop_last(), m);
        assert(s.drop_last().take(m) =~= s.take(m));
    }
}

/// The suffix after the last separator is the suffix from `k` on, where
/// everything from `k` is separator-free and `k` sits just past a separator.
proof fn lemma_after_last_sep_skip(s: Seq<char>, k: int)
    requires
        0 <= k <= s.len(),
        forall|j: int| k <= j < s.len() ==> !is_sep_char(s[j]),
        k > 0 ==> is_sep_char(s[k - 1]),
    ensures
        after_last_sep(s) == s.skip(k),
    decreases s.len(),
{
    if s.len() == 0 {
        assert(s.skip(0) =~= s);
    } else if is_sep_char(s[s.len() - 1]) {
        assert(k == s.len());
        assert(s.skip(k) =~= Seq::<char>::empty());
    } else {
        lemma_after_last_sep_skip(s.drop_last(), k);
        assert(s.drop_last().skip(k).push(s[s.len() - 1]) =~= s.skip(k));
    }
}

/// The final path component of `v`, ignoring trailing separators; `None`
/// when `v` is empty, all separators, or a bare `.` or `..` component.
pub fn basename_chars(v: &Vec<char>) -> (r: Option<Vec<char>>)
    ensures
        match r {
            Some(b) => basename_spec(v@) == Some(b@),
            None => basename_spec(v@) is None,
        },
{
    let n = v.len();
    let mut m: usize = n;
    while m > 0 && is_sep(v[m - 1])
        invariant
            n == v@.len(),
            m <= n,
            forall|j: int| m <= j < n ==> is_sep_char(v@[j]),
        decreases m,
    {
        m = m - 1;
    }
    proof {
        lemma_strip_trailing_take(v@, m as int);
    }
    if m == 0 {
        assert(strip_trailing_seps(v@) =~= Seq::<char>::empty());
        return None;
    }
    let mut k: usize = m;
    while k > 0 && !is_sep(v[k - 1])
        invariant
            m <= n == v@.len(),
            k <= m,
            forall|j: int| k <= j < m ==> !is_sep_char(v@[j]),
        decreases k,
    {
        k = k - 1;
    }
    let ghost t = v@.take(m as int);
    proof {
        lemma_after_last_sep_skip(t, k as int);
        assert(t.skip(k as int) =~= v@.subrange(k as int, m as int));
        assert(t.len() > 0);
    }
    let mut b: Vec<char> = Vec::new();
    let mut i: usize = k;
    while i < m
        invariant
            k <= i <= m <= v@.len(),
            b@ == v@.subrange(k as int, i as int),
        decreases m - i,
    {
        b.push(v[i]);
        assert(b@ =~= v@.subrange(k as int, i + 1 as int));
        i = i + 1;
    }
    if b.len() == 1 && b[0] == '.' {
        assert(b@ =~= seq!['.']);
        return None;
    }
    if b.len() == 2 && b[0] == '.' && b[1] == '.' {
        assert(b@ =~= seq!['.', '.']);
        return None;
    }
    Some(b)
}

/// Case-insensitive comparison of two characters, ASCII letters only.
fn char_ieq(x: char, y: char) -> (r: bool)
    ensures
        r == char_eq_ignore_ascii_case(x, y),
{
    let xu = x as u32;
    let yu = y as u32;
    x == y || (65 <= xu && xu <= 90 && yu == xu + 32) || (97 <= xu && xu <= 122 && yu == xu - 32)
}

/// ASCII-case-insensitive equality of character vectors.
pub fn eq_ignore_ascii_case_chars(a: &Vec<char>, b: &Vec<char>) -> (r: bool)
    ensures
        r == seq_eq_ignore_ascii_case(a@, b@),
{
    if a.len() != b.len() {
        return false;
    }
    let mut i: usize = 0;
    while i < a.len()
        invariant
            a@.len() == b@.len(),
            i <= a@.len(),
            forall|j: int| 0 <= j < i ==> char_eq_ignore_ascii_case(a@[j], b@[j]),
        decreases a@.len() - i,
    {
        if !char_ieq(a[i], b[i]) {
            return false;
        }
        i = i + 1;
    }
    true
}

} // verus!
