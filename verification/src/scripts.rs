//! The Lua scripts a card script pulls in (through `Duel.LoadScript`, `dofile` and
//! `require`), and the file names they are fetched under.
use crate::text::{chars_of, decimal, decimal_string, push_char};
use std::collections::VecDeque;
use vstd::prelude::*;
use vstd::string::{StringExecFns, StringSliceAdditionalSpecFns};

verus! {

/// Whether `b` is ASCII whitespace: space, tab, line feed, form feed or carriage return.
pub open spec fn is_ascii_space(b: u8) -> bool {
    b == 0x20 || b == 0x09 || b == 0x0a || b == 0x0c || b == 0x0d
}

/// Whether `c` has the Unicode `White_Space` property, the characters `str::trim` drops.
pub open spec fn is_space_char(c: char) -> bool {
    let v = c as u32;
    ||| 0x09 <= v <= 0x0d
    ||| v == 0x20 || v == 0x85 || v == 0xa0 || v == 0x1680
    ||| 0x2000 <= v <= 0x200a
    ||| v == 0x2028 || v == 0x2029 || v == 0x202f || v == 0x205f || v == 0x3000
}

fn ascii_space(b: u8) -> (r: bool)
    ensures
        r == is_ascii_space(b),
{
    b == 0x20 || b == 0x09 || b == 0x0a || b == 0x0c || b == 0x0d
}

fn space_char(c: char) -> (r: bool)
    ensures
        r == is_space_char(c),
{
    let v = c as u32;
    (0x09 <= v && v <= 0x0d) || v == 0x20 || v == 0x85 || v == 0xa0 || v == 0x1680 || (0x2000
        <= v && v <= 0x200a) || v == 0x2028 || v == 0x2029 || v == 0x202f || v == 0x205f || v
        == 0x3000
}

/// The first index at or after `i` whose character is not whitespace (or the length).
pub open spec fn skip_spaces(s: Seq<char>, i: int) -> int
    decreases s.len() - i,
{
    if 0 <= i < s.len() && is_space_char(s[i]) {
        skip_spaces(s, i + 1)
    } else {
        i
    }
}

/// The end of `s[lo..j]` once the whitespace at its end is dropped.
pub open spec fn drop_trailing_spaces(s: Seq<char>, lo: int, j: int) -> int
    decreases j - lo,
{
    if lo < j && is_space_char(s[j - 1]) {
        drop_trailing_spaces(s, lo, j - 1)
    } else {
        j
    }
}

/// `s` without its leading and trailing whitespace.
pub open spec fn trimmed(s: Seq<char>) -> Seq<char> {
    let a = skip_spaces(s, 0);
    s.subrange(a, drop_trailing_spaces(s, a, s.len() as int))
}

proof fn lemma_skip_spaces_bounds(s: Seq<char>, i: int)
    requires
        0 <= i <= s.len(),
    ensures
        i <= skip_spaces(s, i) <= s.len(),
        skip_spaces(s, i) < s.len() ==> !is_space_char(s[skip_spaces(s, i)]),
    decreases s.len() - i,
{
    if 0 <= i < s.len() && is_space_char(s[i]) {
        lemma_skip_spaces_bounds(s, i + 1);
    }
}

proof fn lemma_drop_trailing_bounds(s: Seq<char>, lo: int, j: int)
    requires
        lo <= j,
    ensures
        lo <= drop_trailing_spaces(s, lo, j) <= j,
        lo < drop_trailing_spaces(s, lo, j) ==> !is_space_char(s[drop_trailing_spaces(s, lo, j) - 1]),
    decreases j - lo,
{
    if lo < j && is_space_char(s[j - 1]) {
        lemma_drop_trailing_bounds(s, lo, j - 1);
    }
}

fn trim_chars(s: &Vec<char>) -> (t: Vec<char>)
    ensures
        t@ == trimmed(s@),
{
    let mut a: usize = 0;
    while a < s.len() && space_char(s[a])
        invariant
            a <= s.len(),
            skip_spaces(s@, a as int) == skip_spaces(s@, 0),
        decreases s.len() - a,
    {
        a = a + 1;
    }
    let mut b: usize = s.len();
    while a < b && space_char(s[b - 1])
        invariant
            a <= b <= s.len(),
            drop_trailing_spaces(s@, a as int, b as int) == drop_trailing_spaces(
                s@,
                a as int,
                s.len() as int,
            ),
        decreases b - a,
    {
        b = b - 1;
    }
    let mut t: Vec<char> = Vec::new();
    let mut i: usize = a;
    while i < b
        invariant
            a <= i <= b <= s.len(),
            t@ == s@.subrange(a as int, i as int),
        decreases b - i,
    {
        t.push(s[i]);
        i = i + 1;
        proof {
            assert(t@ =~= s@.subrange(a as int, i as int));
        }
    }
    t
}

/// The extension `.lua`.
pub open spec fn lua_suffix() -> Seq<char> {
    seq!['.', 'l', 'u', 'a']
}

/// Whether `s` ends with `.lua`.
pub open spec fn ends_with_lua(s: Seq<char>) -> bool {
    s.len() >= 4 && s.subrange(s.len() - 4, s.len() as int) == lua_suffix()
}

/// `c`, with a dot turned into a slash when `dots` is set.
pub open spec fn path_char(c: char, dots: bool) -> char {
    if dots && c == '.' {
        '/'
    } else {
        c
    }
}

/// `s` with every dot turned into a slash (a Lua module path turned into a file path).
pub open spec fn dots_to_slashes(s: Seq<char>) -> Seq<char> {
    s.map_values(|c: char| path_char(c, true))
}

/// The file a script name stands for. Surrounding whitespace is dropped and a blank name
/// stands for no file. A name that already ends in `.lua` is a file name. Otherwise a
/// `require` name is a module path whose dots separate directories, and any other name is
/// a file name without its extension; either way `.lua` is appended.
pub open spec fn script_file_name(name: Seq<char>, from_require: bool) -> Seq<char> {
    let t = trimmed(name);
    if t.len() == 0 {
        Seq::empty()
    } else if ends_with_lua(t) {
        t
    } else if from_require {
        dots_to_slashes(t) + lua_suffix()
    } else {
        t + lua_suffix()
    }
}

/// The file a script name stands for, as [`script_file_name`] states.
pub fn normalize_script_name(name: &str, from_require: bool) -> (r: String)
    ensures
        r@ == script_file_name(name@, from_require),
{
    let chars = chars_of(name);
    let t = trim_chars(&chars);
    let mut out = String::new();
    if t.len() == 0 {
        return out;
    }
    let n = t.len();
    let ends = n >= 4 && t[n - 4] == '.' && t[n - 3] == 'l' && t[n - 2] == 'u' && t[n - 1]
        == 'a';
    proof {
        if ends {
            assert(t@.subrange(n - 4, n as int) =~= lua_suffix());
        } else if n >= 4 {
            if t@.subrange(n - 4, n as int) == lua_suffix() {
                assert(t@.subrange(n - 4, n as int)[0] == '.');
                assert(t@.subrange(n - 4, n as int)[1] == 'l');
                assert(t@.subrange(n - 4, n as int)[2] == 'u');
                assert(t@.subrange(n - 4, n as int)[3] == 'a');
            }
        }
        assert(ends == ends_with_lua(t@));
    }
    let dots = from_require && !ends;
    let mut i: usize = 0;
    while i < n
        invariant
            n == t.len(),
            i <= n,
            out@ == t@.take(i as int).map_values(|c: char| path_char(c, dots)),
        decreases n - i,
    {
        let c = t[i];
        let mapped = if dots && c == '.' {
            '/'
        } else {
            c
        };
        push_char(&mut out, mapped);
        i = i + 1;
        proof {
            assert(out@ =~= t@.take(i as int).map_values(|c: char| path_char(c, dots)));
        }
    }
    proof {
        assert(t@.take(n as int) =~= t@);
        if !dots {
            assert(out@ =~= t@);
        } else {
            assert(out@ =~= dots_to_slashes(t@));
        }
    }
    if !ends {
        push_char(&mut out, '.');
        push_char(&mut out, 'l');
        push_char(&mut out, 'u');
        push_char(&mut out, 'a');
        proof {
            if dots {
                assert(out@ =~= dots_to_slashes(t@) + lua_suffix());
            } else {
                assert(out@ =~= t@ + lua_suffix());
            }
        }
    }
    out
}


/// The first index at or after `i` whose byte is not ASCII whitespace (or `i` itself when
/// it is past the end).
pub open spec fn skip_ascii_spaces(s: Seq<u8>, i: int) -> int
    decreases s.len() - i,
{
    if 0 <= i < s.len() && is_ascii_space(s[i]) {
        skip_ascii_spaces(s, i + 1)
    } else {
        i
    }
}

/// The first index at or after `i` that holds `quote`, if any.
pub open spec fn closing_quote(s: Seq<u8>, i: int, quote: u8) -> Option<int>
    decreases s.len() - i,
{
    if i < 0 || i >= s.len() {
        None
    } else if s[i] == quote {
        Some(i)
    } else {
        closing_quote(s, i + 1, quote)
    }
}

/// Each byte read as the character of the same number.
pub open spec fn latin1(b: Seq<u8>) -> Seq<char> {
    b.map_values(|x: u8| x as char)
}

/// The quoted argument that starts at `start`, after ASCII whitespace: the text between a
/// single or double quote and the next byte equal to it, each byte read as a character,
/// and the index just past the closing quote. `None` when no quote opens there or none
/// closes it.
pub open spec fn quoted_arg(s: Seq<u8>, start: int) -> Option<(Seq<char>, int)> {
    let i = skip_ascii_spaces(s, start);
    if i < 0 || i >= s.len() {
        None
    } else if s[i] != 0x27 && s[i] != 0x22 {
        None
    } else {
        match closing_quote(s, i + 1, s[i]) {
            Some(j) => Some((latin1(s.subrange(i + 1, j)), j + 1)),
            None => None,
        }
    }
}

/// A parsed argument and the index past it, as plain values.
pub open spec fn quoted_view(r: Option<(String, usize)>) -> Option<(Seq<char>, int)> {
    match r {
        Some((name, next)) => Some((name@, next as int)),
        None => None,
    }
}

proof fn lemma_skip_ascii_spaces_bounds(s: Seq<u8>, i: int)
    requires
        0 <= i,
    ensures
        i <= skip_ascii_spaces(s, i),
        i <= s.len() ==> skip_ascii_spaces(s, i) <= s.len(),
    decreases s.len() - i,
{
    if 0 <= i < s.len() && is_ascii_space(s[i]) {
        lemma_skip_ascii_spaces_bounds(s, i + 1);
    }
}

proof fn lemma_closing_quote_bounds(s: Seq<u8>, i: int, quote: u8)
    ensures
        closing_quote(s, i, quote) matches Some(j) ==> i <= j < s.len() && s[j] == quote,
    decreases s.len() - i,
{
    if i < 0 || i >= s.len() {
    } else if s[i] == quote {
    } else {
        lemma_closing_quote_bounds(s, i + 1, quote);
    }
}

/// A parsed argument ends past its start, and within the text.
pub proof fn lemma_quoted_arg_bounds(s: Seq<u8>, start: int)
    requires
        0 <= start,
    ensures
        quoted_arg(s, start) matches Some((_, next)) ==> start < next <= s.len(),
{
    lemma_skip_ascii_spaces_bounds(s, start);
    let i = skip_ascii_spaces(s, start);
    if 0 <= i < s.len() {
        lemma_closing_quote_bounds(s, i + 1, s[i]);
    }
}

fn parse_quoted_bytes(s: &[u8], start: usize) -> (r: Option<(String, usize)>)
    ensures
        quoted_view(r) == quoted_arg(s@, start as int),
        r matches Some((_, next)) ==> start < next <= s.len(),
{
    proof {
        lemma_quoted_arg_bounds(s@, start as int);
    }
    let mut i: usize = start;
    while i < s.len() && ascii_space(s[i])
        invariant
            start <= i,
            skip_ascii_spaces(s@, i as int) == skip_ascii_spaces(s@, start as int),
        decreases s.len() - i,
    {
        i = i + 1;
    }
    if i >= s.len() {
        return None;
    }
    let quote = s[i];
    if quote != 0x27 && quote != 0x22 {
        return None;
    }
    proof {
        lemma_skip_ascii_spaces_bounds(s@, start as int);
    }
    let open: usize = i + 1;
    i = open;
    let mut out = String::new();
    while i < s.len()
        invariant
            open <= i <= s.len(),
            open >= 1,
            start < open,
            quote == s@[open - 1],
            quote == 0x27 || quote == 0x22,
            skip_ascii_spaces(s@, start as int) == open - 1,
            closing_quote(s@, i as int, quote) == closing_quote(s@, open as int, quote),
            out@ == latin1(s@.subrange(open as int, i as int)),
        decreases s.len() - i,
    {
        if s[i] == quote {
            return Some((out, i + 1));
        }
        push_char(&mut out, s[i] as char);
        i = i + 1;
        proof {
            assert(out@ =~= latin1(s@.subrange(open as int, i as int)));
        }
    }
    None
}

/// The quoted argument that starts at `start` in `s`, as [`quoted_arg`] states of its
/// bytes.
pub fn parse_quoted_arg(s: &str, start: usize) -> (r: Option<(String, usize)>)
    ensures
        quoted_view(r) == quoted_arg(s.spec_bytes(), start as int),
{
    parse_quoted_bytes(s.as_bytes(), start)
}

/// The first index at or after `k` where `pat` occurs in `s`.
pub open spec fn first_match(s: Seq<u8>, pat: Seq<u8>, k: int) -> Option<int>
    decreases s.len() + 1 - k,
{
    if k < 0 || k + pat.len() > s.len() {
        None
    } else if s.subrange(k, k + pat.len()) == pat {
        Some(k)
    } else {
        first_match(s, pat, k + 1)
    }
}

/// A match lies at or after where the search starts, and within the text.
pub proof fn lemma_first_match_bounds(s: Seq<u8>, pat: Seq<u8>, k: int)
    ensures
        first_match(s, pat, k) matches Some(m) ==> k <= m && m + pat.len() <= s.len(),
    decreases s.len() + 1 - k,
{
    if k < 0 || k + pat.len() > s.len() {
    } else if s.subrange(k, k + pat.len()) == pat {
    } else {
        lemma_first_match_bounds(s, pat, k + 1);
    }
}

fn occurs_at(s: &[u8], pat: &[u8], k: usize) -> (b: bool)
    requires
        k + pat.len() <= s.len(),
    ensures
        b == (s@.subrange(k as int, k + pat.len()) == pat@),
{
    let mut j: usize = 0;
    while j < pat.len()
        invariant
            j <= pat.len(),
            k + pat.len() <= s.len(),
            forall|jj: int| 0 <= jj < j ==> s@[k + jj] == pat@[jj],
        decreases pat.len() - j,
    {
        if s[k + j] != pat[j] {
            proof {
                assert(s@.subrange(k as int, k + pat.len())[j as int] != pat@[j as int]);
            }
            return false;
        }
        j = j + 1;
    }
    proof {
        assert(s@.subrange(k as int, k + pat.len()) =~= pat@);
    }
    true
}

fn find_from(s: &[u8], pat: &[u8], from: usize) -> (r: Option<usize>)
    requires
        pat.len() > 0,
    ensures
        match r {
            Some(k) => first_match(s@, pat@, from as int) == Some(k as int) && from <= k && k
                + pat.len() <= s.len(),
            None => first_match(s@, pat@, from as int) is None,
        },
{
    let mut k: usize = from;
    while k <= s.len() && pat.len() <= s.len() - k
        invariant
            from <= k,
            pat.len() > 0,
            first_match(s@, pat@, k as int) == first_match(s@, pat@, from as int),
        decreases s.len() + 1 - k,
    {
        if occurs_at(s, pat, k) {
            return Some(k);
        }
        k = k + 1;
    }
    None
}

/// The script files named, in order, by the calls that `pat` opens in `s` from `pos` on.
/// After each occurrence of `pat` a quoted argument is read; an occurrence without one is
/// skipped, and the search goes on after the argument or after the occurrence. Names
/// that stand for no file are left out.
pub open spec fn spec_collect_calls(s: Seq<u8>, pat: Seq<u8>, from_require: bool, pos: int) -> Seq<
    Seq<char>,
>
    decreases s.len() + 1 - pos,
{
    if pat.len() == 0 || pos < 0 {
        Seq::empty()
    } else {
        match first_match(s, pat, pos) {
            None => Seq::empty(),
            Some(k) => {
                proof {
                    lemma_first_match_bounds(s, pat, pos);
                    lemma_quoted_arg_bounds(s, k + pat.len());
                }
                match quoted_arg(s, k + pat.len()) {
                    Some((name, next)) => {
                        let file = script_file_name(name, from_require);
                        if file.len() > 0 {
                            seq![file] + spec_collect_calls(s, pat, from_require, next)
                        } else {
                            spec_collect_calls(s, pat, from_require, next)
                        }
                    },
                    None => spec_collect_calls(s, pat, from_require, k + pat.len()),
                }
            },
        }
    }
}

/// The texts of a list of strings.
pub open spec fn names_of(v: Seq<String>) -> Seq<Seq<char>> {
    v.map_values(|s: String| s@)
}

/// `seen` followed by each of `names` that is not already there, in order, each once.
pub open spec fn add_new_names(seen: Seq<Seq<char>>, names: Seq<Seq<char>>) -> Seq<Seq<char>>
    decreases names.len(),
{
    if names.len() == 0 {
        seen
    } else {
        add_new_names(
            if seen.contains(names[0]) {
                seen
            } else {
                seen.push(names[0])
            },
            names.drop_first(),
        )
    }
}

proof fn lemma_add_new_names_cons(seen: Seq<Seq<char>>, name: Seq<char>, rest: Seq<Seq<char>>)
    ensures
        add_new_names(seen, seq![name] + rest) == add_new_names(
            if seen.contains(name) {
                seen
            } else {
                seen.push(name)
            },
            rest,
        ),
{
    assert((seq![name] + rest).drop_first() =~= rest);
}

/// Adding names keeps a list free of repeats.
pub proof fn lemma_add_new_names_no_duplicates(seen: Seq<Seq<char>>, names: Seq<Seq<char>>)
    requires
        seen.no_duplicates(),
    ensures
        add_new_names(seen, names).no_duplicates(),
    decreases names.len(),
{
    if names.len() > 0 {
        let next = if seen.contains(names[0]) {
            seen
        } else {
            seen.push(names[0])
        };
        if !seen.contains(names[0]) {
            assert forall|i: int, j: int|
                0 <= i < next.len() && 0 <= j < next.len() && i != j implies next[i]
                != next[j] by {
                if j == seen.len() as int {
                    assert(seen.contains(seen[i]));
                } else if i == seen.len() as int {
                    assert(seen.contains(seen[j]));
                }
            }
        }
        lemma_add_new_names_no_duplicates(next, names.drop_first());
    }
}

fn insert_name(out: &mut Vec<String>, name: String)
    ensures
        names_of(final(out)@) == (if names_of(old(out)@).contains(name@) {
            names_of(old(out)@)
        } else {
            names_of(old(out)@).push(name@)
        }),
{
    let mut i: usize = 0;
    while i < out.len()
        invariant
            i <= out.len(),
            out@ == old(out)@,
            forall|j: int| 0 <= j < i ==> out@[j]@ != name@,
        decreases out.len() - i,
    {
        if out[i] == name {
            proof {
                assert(names_of(out@)[i as int] == name@);
            }
            return;
        }
        i = i + 1;
    }
    proof {
        if names_of(out@).contains(name@) {
            let j = choose|j: int| 0 <= j < names_of(out@).len() && names_of(out@)[j] == name@;
            assert(out@[j]@ == name@);
        }
    }
    out.push(name);
    proof {
        assert(names_of(out@) =~= names_of(old(out)@).push(name@));
    }
}

fn collect_calls_in(s: &[u8], pat: &[u8], from_require: bool, out: &mut Vec<String>)
    requires
        pat.len() > 0,
    ensures
        names_of(final(out)@) == add_new_names(
            names_of(old(out)@),
            spec_collect_calls(s@, pat@, from_require, 0),
        ),
{
    let mut pos: usize = 0;
    loop
        invariant
            pos <= s.len(),
            pat.len() > 0,
            add_new_names(names_of(out@), spec_collect_calls(s@, pat@, from_require, pos as int))
                == add_new_names(
                names_of(old(out)@),
                spec_collect_calls(s@, pat@, from_require, 0),
            ),
        decreases s.len() + 1 - pos,
    {
        match find_from(s, pat, pos) {
            None => {
                return;
            },
            Some(k) => {
                let start = k + pat.len();
                match parse_quoted_bytes(s, start) {
                    Some((name, next)) => {
                        let file = normalize_script_name(name.as_str(), from_require);
                        let rest = Ghost(spec_collect_calls(s@, pat@, from_require, next as int));
                        if file.as_str().is_empty() {
                            assert(spec_collect_calls(s@, pat@, from_require, pos as int)
                                == rest@);
                        } else {
                            assert(spec_collect_calls(s@, pat@, from_require, pos as int)
                                == seq![file@] + rest@);
                            proof {
                                lemma_add_new_names_cons(names_of(out@), file@, rest@);
                            }
                            insert_name(out, file);
                        }
                        pos = next;
                    },
                    None => {
                        pos = start;
                    },
                }
            },
        }
    }
}

/// Adds to `out` the script files named by the calls that `pattern` opens in `content`
/// (see [`spec_collect_calls`]), each one not already in `out`, in the order found.
pub fn collect_calls(content: &str, pattern: &str, from_require: bool, out: &mut Vec<String>)
    requires
        pattern.spec_bytes().len() > 0,
    ensures
        names_of(final(out)@) == add_new_names(
            names_of(old(out)@),
            spec_collect_calls(content.spec_bytes(), pattern.spec_bytes(), from_require, 0),
        ),
{
    collect_calls_in(content.as_bytes(), pattern.as_bytes(), from_require, out)
}

/// The script files a script pulls in, each once: those it loads with
/// `Duel.LoadScript("..")`, then with `dofile("..")`, then those it `require`s.
pub open spec fn dependency_names(s: Seq<u8>) -> Seq<Seq<char>> {
    add_new_names(
        add_new_names(
            add_new_names(
                Seq::empty(),
                spec_collect_calls(s, "Duel.LoadScript(".spec_bytes(), false, 0),
            ),
            spec_collect_calls(s, "dofile(".spec_bytes(), false, 0),
        ),
        spec_collect_calls(s, "require(".spec_bytes(), true, 0),
    )
}

/// The script files that `content` pulls in, as [`dependency_names`] lists them; no file
/// is listed twice.
pub fn extract_script_dependencies(content: &str) -> (deps: Vec<String>)
    ensures
        names_of(deps@) == dependency_names(content.spec_bytes()),
        names_of(deps@).no_duplicates(),
{
    let s = content.as_bytes();
    let mut deps: Vec<String> = Vec::new();
    proof {
        assert(names_of(deps@) =~= Seq::<Seq<char>>::empty());
    }
    let load_script = "Duel.LoadScript(".as_bytes();
    if load_script.len() > 0 {
        collect_calls_in(s, load_script, false, &mut deps);
    }
    let dofile = "dofile(".as_bytes();
    if dofile.len() > 0 {
        collect_calls_in(s, dofile, false, &mut deps);
    }
    let require = "require(".as_bytes();
    if require.len() > 0 {
        collect_calls_in(s, require, true, &mut deps);
    }
    proof {
        let e = Seq::<Seq<char>>::empty();
        let a = add_new_names(e, spec_collect_calls(s@, load_script@, false, 0));
        let b = add_new_names(a, spec_collect_calls(s@, dofile@, false, 0));
        lemma_add_new_names_no_duplicates(e, spec_collect_calls(s@, load_script@, false, 0));
        lemma_add_new_names_no_duplicates(a, spec_collect_calls(s@, dofile@, false, 0));
        lemma_add_new_names_no_duplicates(b, spec_collect_calls(s@, require@, true, 0));
    }
    deps
}


/// A card script set up to run as a plain script: it first makes the globals the engine's
/// own card loader would make (`self_code`, the card's table `c<id>` with its metatable,
/// `self_table`), then runs `content`, then clears `self_table` and `self_code`.
pub open spec fn manual_load_script(id: u32, content: Seq<char>) -> Seq<char> {
    let d = decimal(id as nat);
    "self_code="@ + d + "\nc"@ + d + "=c"@ + d + " or {}\nif c"@ + d
        + ".__tostring==nil and Debug and Debug.CardToStringWrapper then c"@ + d
        + ".__tostring=Debug.CardToStringWrapper end\nsetmetatable(c"@ + d + ", Card)\nrawset(c"@
        + d + ",\"__index\",c"@ + d + ")\nself_table=c"@ + d + "\n"@ + content
        + "\nself_table=nil\nself_code=nil\n"@
}

/// The script of card `id` with the set-up of [`manual_load_script`] around it.
pub fn wrap_card_script_for_manual_load(id: u32, content: &str) -> (r: String)
    ensures
        r@ == manual_load_script(id, content@),
{
    let d = decimal_string(id);
    let d = d.as_str();
    let mut out = String::from_str("self_code=");
    out.append(d);
    out.append("\nc");
    out.append(d);
    out.append("=c");
    out.append(d);
    out.append(" or {}\nif c");
    out.append(d);
    out.append(".__tostring==nil and Debug and Debug.CardToStringWrapper then c");
    out.append(d);
    out.append(".__tostring=Debug.CardToStringWrapper end\nsetmetatable(c");
    out.append(d);
    out.append(", Card)\nrawset(c");
    out.append(d);
    out.append(",\"__index\",c");
    out.append(d);
    out.append(")\nself_table=c");
    out.append(d);
    out.append("\n");
    out.append(content);
    out.append("\nself_table=nil\nself_code=nil\n");
    out
}

/// The scripts every duel needs before any card script.
pub open spec fn support_script_roots() -> Seq<Seq<char>> {
    seq!["constant.lua"@, "utility.lua"@]
}

/// The next script to fetch: the first queued name not fetched yet, and the queue after
/// it (the names before it, already fetched, are dropped).
pub open spec fn next_unvisited(queue: Seq<Seq<char>>, visited: Seq<Seq<char>>) -> (
    Option<Seq<char>>,
    Seq<Seq<char>>,
)
    decreases queue.len(),
{
    if queue.len() == 0 {
        (None, queue)
    } else if visited.contains(queue[0]) {
        next_unvisited(queue.drop_first(), visited)
    } else {
        (Some(queue[0]), queue.drop_first())
    }
}

/// The script [`next_unvisited`] picks has not been fetched before.
pub proof fn lemma_next_unvisited_is_new(queue: Seq<Seq<char>>, visited: Seq<Seq<char>>)
    ensures
        next_unvisited(queue, visited).0 matches Some(n) ==> !visited.contains(n),
    decreases queue.len(),
{
    if queue.len() > 0 && visited.contains(queue[0]) {
        lemma_next_unvisited_is_new(queue.drop_first(), visited);
    }
}

/// A name as plain text.
pub open spec fn name_view(n: Option<String>) -> Option<Seq<char>> {
    match n {
        Some(s) => Some(s@),
        None => None,
    }
}

fn contains_name(v: &Vec<String>, name: &String) -> (b: bool)
    ensures
        b == names_of(v@).contains(name@),
{
    let mut i: usize = 0;
    while i < v.len()
        invariant
            i <= v.len(),
            forall|j: int| 0 <= j < i ==> v@[j]@ != name@,
        decreases v.len() - i,
    {
        if v[i] == *name {
            proof {
                assert(names_of(v@)[i as int] == name@);
            }
            return true;
        }
        i = i + 1;
    }
    proof {
        if names_of(v@).contains(name@) {
            let j = choose|j: int| 0 <= j < names_of(v@).len() && names_of(v@)[j] == name@;
            assert(v@[j]@ == name@);
        }
    }
    false
}

/// The walk over the support scripts of a duel: the scripts waiting to be fetched, in
/// order, and those already handed out. Each script is handed out once, however many
/// scripts pull it in.
pub struct ScriptPreload {
    queue: VecDeque<String>,
    visited: Vec<String>,
}

impl ScriptPreload {
    /// The names waiting to be fetched, in order.
    pub closed spec fn pending(&self) -> Seq<Seq<char>> {
        names_of(self.queue@)
    }

    /// The names already handed out, in order.
    pub closed spec fn visited(&self) -> Seq<Seq<char>> {
        names_of(self.visited@)
    }

    /// The walk before anything is fetched: the support scripts wait, nothing is handed
    /// out.
    pub fn new() -> (p: ScriptPreload)
        ensures
            p.pending() == support_script_roots(),
            p.visited() == Seq::<Seq<char>>::empty(),
    {
        let mut queue: VecDeque<String> = VecDeque::new();
        queue.push_back(String::from_str("constant.lua"));
        queue.push_back(String::from_str("utility.lua"));
        let p = ScriptPreload { queue, visited: Vec::new() };
        proof {
            assert(p.pending() =~= support_script_roots());
            assert(p.visited() =~= Seq::<Seq<char>>::empty());
        }
        p
    }

    /// Hands out the next script to fetch and marks it as handed out, as
    /// [`next_unvisited`] picks it; `None` once nothing is left. A script handed out was
    /// not handed out before.
    pub fn next_script(&mut self) -> (name: Option<String>)
        ensures
            name_view(name) == next_unvisited(old(self).pending(), old(self).visited()).0,
            final(self).pending() == next_unvisited(old(self).pending(), old(self).visited()).1,
            final(self).visited() == (match name {
                Some(n) => old(self).visited().push(n@),
                None => old(self).visited(),
            }),
            name matches Some(n) ==> !old(self).visited().contains(n@),
    {
        proof {
            lemma_next_unvisited_is_new(old(self).pending(), old(self).visited());
        }
        loop
            invariant
                self.visited@ == old(self).visited@,
                next_unvisited(self.pending(), self.visited()) == next_unvisited(
                    old(self).pending(),
                    old(self).visited(),
                ),
            decreases self.queue@.len(),
        {
            let ghost before = self.pending();
            match self.queue.pop_front() {
                None => {
                    return None;
                },
                Some(name) => {
                    proof {
                        assert(self.pending() =~= before.drop_first());
                    }
                    if contains_name(&self.visited, &name) {
                        continue;
                    }
                    self.visited.push(name.clone());
                    proof {
                        assert(self.visited() =~= old(self).visited().push(name@));
                    }
                    return Some(name);
                }
            }
        }
    }

    /// Queues the scripts that `content` (the text of a script just fetched) pulls in,
    /// as [`dependency_names`] lists them, leaving out those already handed out.
    pub fn script_fetched(&mut self, content: &str)
        ensures
            final(self).visited() == old(self).visited(),
            final(self).pending() == old(self).pending() + dependency_names(
                content.spec_bytes(),
            ).filter(|d: Seq<char>| !old(self).visited().contains(d)),
    {
        let deps = extract_script_dependencies(content);
        let ghost keep = |d: Seq<char>| !old(self).visited().contains(d);
        let mut i: usize = 0;
        while i < deps.len()
            invariant
                i <= deps.len(),
                self.visited@ == old(self).visited@,
                names_of(deps@) == dependency_names(content.spec_bytes()),
                keep == (|d: Seq<char>| !old(self).visited().contains(d)),
                self.pending() == old(self).pending() + names_of(deps@).take(i as int).filter(
                    keep,
                ),
            decreases deps.len() - i,
        {
            proof {
                reveal(Seq::filter);
                assert(names_of(deps@).take(i + 1).drop_last() =~= names_of(deps@).take(
                    i as int,
                ));
            }
            let ghost before = self.pending();
            if !contains_name(&self.visited, &deps[i]) {
                self.queue.push_back(deps[i].clone());
                proof {
                    assert(names_of(deps@).take(i + 1).last() == deps@[i as int]@);
                    assert(keep(deps@[i as int]@));
                    assert(names_of(deps@).take(i + 1).filter(keep) == names_of(deps@).take(
                        i as int,
                    ).filter(keep).push(deps@[i as int]@));
                    assert(self.pending() =~= before.push(deps@[i as int]@));
                    assert(self.pending() =~= old(self).pending() + names_of(deps@).take(
                        i + 1,
                    ).filter(keep));
                }
            } else {
                proof {
                    assert(names_of(deps@).take(i + 1).last() == deps@[i as int]@);
                    assert(!keep(deps@[i as int]@));
                    assert(names_of(deps@).take(i + 1).filter(keep) == names_of(deps@).take(
                        i as int,
                    ).filter(keep));
                }
            }
            i = i + 1;
        }
        proof {
            assert(names_of(deps@).take(deps.len() as int) =~= names_of(deps@));
        }
    }
}


proof fn lemma_trimmed_unchanged(s: Seq<char>)
    requires
        s.len() > 0,
        !is_space_char(s[0]),
        !is_space_char(s.last()),
    ensures
        trimmed(s) == s,
{
    assert(skip_spaces(s, 0) == 0);
    assert(drop_trailing_spaces(s, 0, s.len() as int) == s.len());
    assert(s.subrange(0, s.len() as int) =~= s);
}

/// Naming a file name again changes nothing: a name that stands for a file is already the
/// file's own name.
pub proof fn lemma_script_file_name_idempotent(name: Seq<char>, from_require: bool)
    ensures
        script_file_name(script_file_name(name, from_require), from_require) == script_file_name(
            name,
            from_require,
        ),
{
    let t = trimmed(name);
    let f = script_file_name(name, from_require);
    if t.len() > 0 {
        let a = skip_spaces(name, 0);
        let b = drop_trailing_spaces(name, a, name.len() as int);
        lemma_skip_spaces_bounds(name, 0);
        lemma_drop_trailing_bounds(name, a, name.len() as int);
        assert(t[0] == name[a]);
        assert(!is_space_char(t[0]));
        assert(t.last() == name[b - 1]);
        assert(!is_space_char(t.last()));
        if ends_with_lua(t) {
            lemma_trimmed_unchanged(t);
        } else {
            assert(f.last() == 'a');
            assert(f.subrange(f.len() - 4, f.len() as int) =~= lua_suffix());
            assert(!is_space_char(f[0]));
            lemma_trimmed_unchanged(f);
        }
    }
}

} // verus!
