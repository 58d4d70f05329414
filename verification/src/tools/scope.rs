//! Where tools may reach: expanding `~` and `$VAR` in paths, normalising
//! them lexically, and deciding whether a path lies in a session's scope.
use crate::json::{split_chars, split_on};
use crate::paths::is_absolute;
use crate::text::{
    chars_of, has_char, has_prefix, opt_chars, push_char, push_str, range_string, starts_with, str_eq, string_of,
    string_views, suffix_string, views_of,
};
use vstd::prelude::*;

verus! {

/// What the process environment gives path expansion.
pub struct Environment {
    /// The process's variables, as (name, value) pairs.
    pub vars: Vec<(String, String)>,
    /// The home directory the platform reports, if any.
    pub home_dir: Option<String>,
}

/// The value of variable `name`: that of its first entry.
pub open spec fn var_value(vars: Seq<(String, String)>, name: Seq<char>) -> Option<Seq<char>>
    decreases vars.len(),
{
    if vars.len() == 0 {
        None
    } else if vars[0].0@ == name {
        Some(vars[0].1@)
    } else {
        var_value(vars.skip(1), name)
    }
}

/// The value of variable `name`, if it is set.
pub fn lookup_var(vars: &Vec<(String, String)>, name: &str) -> (r: Option<String>)
    ensures
        opt_chars(r) == var_value(vars@, name@),
{
    let mut i: usize = 0;
    assert(vars@.skip(0) =~= vars@);
    while i < vars.len()
        invariant
            i <= vars@.len(),
            var_value(vars@, name@) == var_value(vars@.skip(i as int), name@),
        decreases vars@.len() - i,
    {
        proof {
            assert(vars@.skip(i as int).skip(1) =~= vars@.skip(i + 1));
            assert(vars@.skip(i as int)[0] == vars@[i as int]);
        }
        if str_eq(vars[i].0.as_str(), name) {
            return Some(vars[i].1.clone());
        }
        i = i + 1;
    }
    None
}

/// Whether `c` is alphabetic or numeric in Unicode (`char::is_alphanumeric`).
pub uninterp spec fn unicode_alphanumeric(c: char) -> bool;

/// `char::is_alphanumeric` of std; its result is named, not restated.
#[verifier::external_body]
pub(crate) fn is_alphanumeric(c: char) -> (r: bool)
    ensures
        r == unicode_alphanumeric(c),
{
    c.is_alphanumeric()
}

/// A character that may continue a `$NAME` reference.
pub open spec fn is_var_char(c: char) -> bool {
    unicode_alphanumeric(c) || c == '_'
}

/// The length of the run of name characters that starts `t`.
pub open spec fn name_run(t: Seq<char>) -> nat
    decreases t.len(),
{
    if t.len() == 0 || !is_var_char(t[0]) {
        0
    } else {
        1 + name_run(t.skip(1))
    }
}

/// The position of the first `}` in `t`, or its length.
pub open spec fn closing(t: Seq<char>) -> nat
    decreases t.len(),
{
    if t.len() == 0 || t[0] == '}' {
        0
    } else {
        1 + closing(t.skip(1))
    }
}

pub proof fn lemma_name_run_bound(t: Seq<char>)
    ensures
        name_run(t) <= t.len(),
    decreases t.len(),
{
    if t.len() > 0 {
        lemma_name_run_bound(t.skip(1));
    }
}

pub proof fn lemma_closing_bound(t: Seq<char>)
    ensures
        closing(t) <= t.len(),
        closing(t) < t.len() ==> t[closing(t) as int] == '}',
    decreases t.len(),
{
    if t.len() > 0 && t[0] != '}' {
        lemma_closing_bound(t.skip(1));
    }
}

/// The value of a reference, or its text where the variable is unset.
pub open spec fn or_text(v: Option<Seq<char>>, text: Seq<char>) -> Seq<char> {
    match v {
        Some(x) => x,
        None => text,
    }
}

/// `s` with `${NAME}` and `$NAME` references replaced by the variables'
/// values. An unset variable keeps its reference; `${` without `}` takes
/// the rest of `s` as the name; a `$` before no name character stays.
pub open spec fn expand_vars_of(s: Seq<char>, vars: Seq<(String, String)>) -> Seq<char>
    decreases s.len(),
{
    if s.len() == 0 {
        Seq::empty()
    } else if s[0] != '$' {
        seq![s[0]] + expand_vars_of(s.skip(1), vars)
    } else if s.len() >= 2 && s[1] == '{' {
        let t = s.skip(2);
        let k = closing(t);
        proof {
            lemma_closing_bound(t);
        }
        let name = t.take(k as int);
        let rest = if k < t.len() {
            t.skip(k + 1int)
        } else {
            Seq::empty()
        };
        or_text(var_value(vars, name), seq!['$', '{'] + name + seq!['}']) + expand_vars_of(rest, vars)
    } else {
        let t = s.skip(1);
        let k = name_run(t);
        proof {
            lemma_name_run_bound(t);
        }
        if k == 0 {
            seq!['$'] + expand_vars_of(t, vars)
        } else {
            or_text(var_value(vars, t.take(k as int)), seq!['$'] + t.take(k as int)) + expand_vars_of(
                t.skip(k as int),
                vars,
            )
        }
    }
}

/// The index where the `}` search from `start` ends.
fn scan_closing(c: &Vec<char>, start: usize) -> (j: usize)
    requires
        start <= c@.len(),
    ensures
        j == start + closing(c@.skip(start as int)),
        j <= c@.len(),
{
    let mut j = start;
    assert(c@.skip(start as int) =~= c@.skip(j as int));
    while j < c.len() && c[j] != '}'
        invariant
            start <= j <= c@.len(),
            closing(c@.skip(start as int)) == (j - start) + closing(c@.skip(j as int)),
        decreases c@.len() - j,
    {
        assert(c@.skip(j as int).skip(1) =~= c@.skip(j + 1));
        assert(c@.skip(j as int)[0] == c@[j as int]);
        j = j + 1;
    }
    proof {
        if j < c@.len() {
            assert(c@.skip(j as int)[0] == c@[j as int]);
        }
    }
    j
}

/// The index where the run of name characters from `start` ends.
fn scan_name(c: &Vec<char>, start: usize) -> (j: usize)
    requires
        start <= c@.len(),
    ensures
        j == start + name_run(c@.skip(start as int)),
        j <= c@.len(),
{
    let mut j = start;
    while j < c.len() && (is_alphanumeric(c[j]) || c[j] == '_')
        invariant
            start <= j <= c@.len(),
            name_run(c@.skip(start as int)) == (j - start) + name_run(c@.skip(j as int)),
        decreases c@.len() - j,
    {
        assert(c@.skip(j as int).skip(1) =~= c@.skip(j + 1));
        assert(c@.skip(j as int)[0] == c@[j as int]);
        j = j + 1;
    }
    proof {
        if j < c@.len() {
            assert(c@.skip(j as int)[0] == c@[j as int]);
        }
    }
    j
}

/// Replaces `${NAME}` and `$NAME` references in `s` by the variables'
/// values.
pub fn expand_vars(s: &str, vars: &Vec<(String, String)>) -> (r: String)
    ensures
        r@ == expand_vars_of(s@, vars@),
{
    let c = chars_of(s);
    let mut out = String::new();
    let mut i: usize = 0;
    assert(c@.skip(0) =~= c@);
    while i < c.len()
        invariant
            i <= c@.len(),
            c@ == s@,
            out@ + expand_vars_of(c@.skip(i as int), vars@) == expand_vars_of(s@, vars@),
        decreases c@.len() - i,
    {
        let ghost t = c@.skip(i as int);
        let ghost before = out@;
        assert(t[0] == c@[i as int]);
        if c[i] != '$' {
            push_char(&mut out, c[i]);
            assert(t.skip(1) =~= c@.skip(i + 1));
            assert(out@ + expand_vars_of(c@.skip(i + 1), vars@) =~= before + expand_vars_of(t, vars@));
            i = i + 1;
        } else if i + 1 < c.len() && c[i + 1] == '{' {
            assert(t[1] == c@[i + 1]);
            assert(t.skip(2) =~= c@.skip(i + 2));
            let j = scan_closing(&c, i + 2);
            proof {
                lemma_closing_bound(t.skip(2));
            }
            let name = range_string(&c, i + 2, j);
            assert(name@ =~= t.skip(2).take(closing(t.skip(2)) as int));
            match lookup_var(vars, name.as_str()) {
                Some(v) => push_str(&mut out, v.as_str()),
                None => {
                    push_char(&mut out, '$');
                    push_char(&mut out, '{');
                    push_str(&mut out, name.as_str());
                    push_char(&mut out, '}');
                },
            }
            if j < c.len() {
                assert(t.skip(2).skip(closing(t.skip(2)) + 1int) =~= c@.skip(j + 1));
                assert(out@ + expand_vars_of(c@.skip(j + 1), vars@) =~= before + expand_vars_of(t, vars@));
                i = j + 1;
            } else {
                assert(c@.skip(j as int) =~= Seq::<char>::empty());
                assert(out@ + expand_vars_of(c@.skip(j as int), vars@) =~= before + expand_vars_of(t, vars@));
                i = j;
            }
        } else {
            assert(t.skip(1) =~= c@.skip(i + 1));
            let j = scan_name(&c, i + 1);
            proof {
                lemma_name_run_bound(t.skip(1));
            }
            if j == i + 1 {
                push_char(&mut out, '$');
                assert(out@ + expand_vars_of(c@.skip(i + 1), vars@) =~= before + expand_vars_of(t, vars@));
                i = i + 1;
            } else {
                let name = range_string(&c, i + 1, j);
                assert(name@ =~= t.skip(1).take(name_run(t.skip(1)) as int));
                match lookup_var(vars, name.as_str()) {
                    Some(v) => push_str(&mut out, v.as_str()),
                    None => {
                        push_char(&mut out, '$');
                        push_str(&mut out, name.as_str());
                    },
                }
                assert(t.skip(1).skip(name_run(t.skip(1)) as int) =~= c@.skip(j as int));
                assert(out@ + expand_vars_of(c@.skip(j as int), vars@) =~= before + expand_vars_of(t, vars@));
                i = j;
            }
        }
    }
    assert(c@.skip(i as int) =~= Seq::<char>::empty());
    assert(out@ + Seq::<char>::empty() =~= out@);
    out
}

/// The home directory path expansion uses: `HOME`, else the platform's.
pub open spec fn home_of(vars: Seq<(String, String)>, home_dir: Option<String>) -> Option<Seq<char>> {
    match var_value(vars, "HOME"@) {
        Some(h) => Some(h),
        None => opt_chars(home_dir),
    }
}

/// `s` expanded against `working_dir`: a leading `~` or `~/` becomes the
/// home directory, variable references are replaced, absolute paths stay
/// and other paths are put under the working directory.
pub open spec fn expanded_path(s: Seq<char>, working_dir: Seq<char>, vars: Seq<(String, String)>, home_dir: Option<String>) -> Seq<char> {
    if has_prefix(s, seq!['~']) {
        match home_of(vars, home_dir) {
            Some(h) => if s == seq!['~'] {
                h
            } else if has_prefix(s, seq!['~', '/']) {
                h + seq!['/'] + s.skip(2)
            } else {
                s
            },
            None => s,
        }
    } else if has_char(s, '$') {
        expand_vars_of(s, vars)
    } else if has_prefix(s, seq!['/']) {
        s
    } else {
        working_dir + seq!['/'] + s
    }
}

/// Expands a tool path against the working directory and environment.
pub fn expand_path(s: &str, working_dir: &str, env: &Environment) -> (r: String)
    ensures
        r@ == expanded_path(s@, working_dir@, env.vars@, env.home_dir),
{
    let c = chars_of(s);
    let mut tilde: Vec<char> = Vec::new();
    tilde.push('~');
    let mut tilde_slash: Vec<char> = Vec::new();
    tilde_slash.push('~');
    tilde_slash.push('/');
    let mut slash: Vec<char> = Vec::new();
    slash.push('/');
    assert(tilde@ =~= seq!['~']);
    assert(tilde_slash@ =~= seq!['~', '/']);
    assert(slash@ =~= seq!['/']);
    if starts_with(&c, &tilde) {
        let home = match lookup_var(&env.vars, "HOME") {
            Some(h) => Some(h),
            None => match &env.home_dir {
                Some(h) => Some(h.clone()),
                None => None,
            },
        };
        match home {
            Some(h) => {
                if c.len() == 1 {
                    assert(c@ =~= seq!['~']);
                    h
                } else if starts_with(&c, &tilde_slash) {
                    let mut r = h;
                    push_char(&mut r, '/');
                    let rest = suffix_string(&c, 2);
                    push_str(&mut r, rest.as_str());
                    r
                } else {
                    assert(c@ != seq!['~']);
                    s.to_owned()
                }
            },
            None => s.to_owned(),
        }
    } else if crate::text::contains_char(&c, '$') {
        expand_vars(s, &env.vars)
    } else if starts_with(&c, &slash) {
        s.to_owned()
    } else {
        let mut r = working_dir.to_owned();
        push_char(&mut r, '/');
        push_str(&mut r, s);
        r
    }
}

/// The index of the last `/` in `s`, if any.
pub open spec fn last_slash(s: Seq<char>) -> Option<int>
    decreases s.len(),
{
    if s.len() == 0 {
        None
    } else if s.last() == '/' {
        Some(s.len() - 1)
    } else {
        last_slash(s.drop_last())
    }
}

/// One path component applied to a normalised prefix: empty and `.`
/// components vanish, `..` cuts at the last separator, a name is added
/// after one separator.
pub open spec fn norm_step(acc: Seq<char>, c: Seq<char>) -> Seq<char> {
    if c.len() == 0 || c == seq!['.'] {
        acc
    } else if c == seq!['.', '.'] {
        match last_slash(acc) {
            Some(i) => acc.take(i),
            None => acc,
        }
    } else if acc.len() > 0 && acc.last() != '/' {
        acc + seq!['/'] + c
    } else {
        acc + c
    }
}

/// The components `comps` applied in order to `acc`.
pub open spec fn fold_norm(acc: Seq<char>, comps: Seq<Seq<char>>) -> Seq<char>
    decreases comps.len(),
{
    if comps.len() == 0 {
        acc
    } else {
        fold_norm(norm_step(acc, comps[0]), comps.skip(1))
    }
}

/// `p` normalised without the filesystem: components applied from the root
/// (or from nothing for a relative path), `/` where nothing is left.
pub open spec fn lexical(p: Seq<char>) -> Seq<char> {
    let r = fold_norm(if is_absolute(p) { seq!['/'] } else { Seq::empty() }, split_on(p, '/'));
    if r.len() == 0 {
        seq!['/']
    } else {
        r
    }
}

/// The position of the last `/` in `s`.
fn find_last_slash(s: &Vec<char>) -> (r: Option<usize>)
    ensures
        match r {
            Some(i) => last_slash(s@) == Some(i as int) && i < s@.len(),
            None => last_slash(s@) is None,
        },
{
    let mut k: usize = s.len();
    assert(s@.take(k as int) =~= s@);
    while k > 0
        invariant
            k <= s@.len(),
            last_slash(s@) == last_slash(s@.take(k as int)),
        decreases k,
    {
        assert(s@.take(k as int).drop_last() =~= s@.take(k - 1));
        assert(s@.take(k as int).last() == s@[k - 1]);
        if s[k - 1] == '/' {
            return Some(k - 1);
        }
        k = k - 1;
    }
    None
}

/// Applies one component to a normalised prefix.
fn apply_component(acc: &mut Vec<char>, c: &Vec<char>)
    ensures
        final(acc)@ == norm_step(old(acc)@, c@),
{
    let dot = c.len() == 1 && c[0] == '.';
    let dots = c.len() == 2 && c[0] == '.' && c[1] == '.';
    proof {
        if c@ == seq!['.'] {
            assert(c@[0] == '.');
        }
        if c@ == seq!['.', '.'] {
            assert(c@[0] == '.' && c@[1] == '.');
        }
        if dot {
            assert(c@ =~= seq!['.']);
        }
        if dots {
            assert(c@ =~= seq!['.', '.']);
        }
    }
    if c.len() == 0 || dot {
        return;
    }
    if dots {
        if let Some(i) = find_last_slash(acc) {
            acc.truncate(i);
            assert(acc@ =~= old(acc)@.take(i as int));
        }
        return;
    }
    if acc.len() > 0 && acc[acc.len() - 1] != '/' {
        acc.push('/');
    }
    let ghost mid = acc@;
    let mut k: usize = 0;
    while k < c.len()
        invariant
            k <= c@.len(),
            acc@ == mid + c@.take(k as int),
        decreases c@.len() - k,
    {
        acc.push(c[k]);
        k = k + 1;
        assert(acc@ =~= mid + c@.take(k as int));
    }
    assert(c@.take(k as int) =~= c@);
    proof {
        if old(acc)@.len() > 0 && old(acc)@.last() != '/' {
            assert(mid =~= old(acc)@ + seq!['/']);
        }
    }
}

/// `p` normalised lexically.
pub fn lexical_normalize(p: &str) -> (r: String)
    ensures
        r@ == lexical(p@),
{
    let c = chars_of(p);
    let comps = split_chars(&c, '/');
    let mut acc: Vec<char> = Vec::new();
    if c.len() > 0 && c[0] == '/' {
        acc.push('/');
    }
    let ghost start = acc@;
    assert(start =~= (if is_absolute(p@) { seq!['/'] } else { Seq::<char>::empty() }));
    let ghost all = views_of(comps@);
    let mut i: usize = 0;
    assert(all.skip(0) =~= all);
    while i < comps.len()
        invariant
            i <= comps@.len(),
            all == views_of(comps@),
            all == split_on(p@, '/'),
            fold_norm(start, all) == fold_norm(acc@, all.skip(i as int)),
        decreases comps@.len() - i,
    {
        assert(all.skip(i as int)[0] == comps@[i as int]@);
        assert(all.skip(i as int).skip(1) =~= all.skip(i + 1));
        apply_component(&mut acc, &comps[i]);
        i = i + 1;
    }
    assert(all.skip(i as int) =~= Seq::<Seq<char>>::empty());
    if acc.len() == 0 {
        proof {
            reveal_strlit("/");
            assert("/"@ =~= seq!['/']);
        }
        "/".to_owned()
    } else {
        string_of(&acc)
    }
}

/// A path as resolved by the filesystem, where it could be; the lexical
/// normal form otherwise.
pub open spec fn normalized(p: Seq<char>, canonical: Option<String>) -> Seq<char> {
    match canonical {
        Some(c) => c@,
        None => lexical(p),
    }
}

/// Normalises `p`: its canonical form where the filesystem gave one, else
/// the lexical form.
pub fn normalize_path(p: &str, canonical: &Option<String>) -> (r: String)
    ensures
        r@ == normalized(p@, *canonical),
{
    match canonical {
        Some(c) => c.clone(),
        None => lexical_normalize(p),
    }
}

/// What the filesystem resolved a path, as the scope test expands it, and
/// the working directory to, where each exists.
pub struct Resolution {
    pub path: Option<String>,
    pub working_dir: Option<String>,
}

/// `path` lies in the scope of `working_dir`: its normal form starts with
/// that of the working directory, or its expanded text starts with the
/// working directory's text.
pub open spec fn in_scope(
    path: Seq<char>,
    working_dir: Seq<char>,
    vars: Seq<(String, String)>,
    home_dir: Option<String>,
    res: Resolution,
) -> bool {
    let e = expanded_path(path, working_dir, vars, home_dir);
    has_prefix(normalized(e, res.path), normalized(working_dir, res.working_dir)) || has_prefix(e, working_dir)
}

/// Whether `path` lies in the scope of `working_dir`.
pub fn is_in_scope(path: &str, working_dir: &str, env: &Environment, res: &Resolution) -> (r: bool)
    ensures
        r == in_scope(path@, working_dir@, env.vars@, env.home_dir, *res),
{
    let expanded = expand_path(path, working_dir, env);
    let canonical_path = normalize_path(expanded.as_str(), &res.path);
    let canonical_working = normalize_path(working_dir, &res.working_dir);
    starts_with(&chars_of(canonical_path.as_str()), &chars_of(canonical_working.as_str())) || starts_with(
        &chars_of(expanded.as_str()),
        &chars_of(working_dir),
    )
}

/// `globset::GlobSetBuilder`, the patterns of a set being built.
#[verifier::external_type_specification]
#[verifier::external_body]
pub struct ExGlobSetBuilder(globset::GlobSetBuilder);

/// `globset::GlobSet`, a built matcher.
#[verifier::external_type_specification]
#[verifier::external_body]
pub struct ExGlobSet(globset::GlobSet);

/// `globset::Glob`, one compiled pattern.
#[verifier::external_type_specification]
#[verifier::external_body]
pub struct ExGlob(globset::Glob);

/// Whether `globset::Glob::new` accepts `pattern`.
pub uninterp spec fn glob_compiles(pattern: Seq<char>) -> bool;

/// The patterns added to a builder, in order.
pub uninterp spec fn builder_globs(b: globset::GlobSetBuilder) -> Seq<Seq<char>>;

/// The patterns a set was built from, in order.
pub uninterp spec fn set_globs(s: globset::GlobSet) -> Seq<Seq<char>>;

/// Whether `GlobSetBuilder::build` succeeds for these patterns.
pub uninterp spec fn glob_set_builds(globs: Seq<Seq<char>>) -> bool;

/// Whether `GlobSet::is_match` of a set built from these patterns holds
/// for `path`.
pub uninterp spec fn glob_set_matches(globs: Seq<Seq<char>>, path: Seq<char>) -> bool;

/// A compiled pattern with the text it was compiled from; only
/// `compile_glob` makes one.
pub struct CompiledGlob {
    glob: globset::Glob,
    source: String,
}

impl CompiledGlob {
    /// The text the pattern was compiled from.
    pub closed spec fn source(&self) -> Seq<char> {
        self.source@
    }
}

/// `globset::Glob::new(pattern)`: the compiled pattern, or nothing where the
/// crate refuses it; which patterns it accepts is named, not restated.
#[verifier::external_body]
fn compile_glob(pattern: &str) -> (r: Option<CompiledGlob>)
    ensures
        (r is Some) == glob_compiles(pattern@),
        r matches Some(g) ==> g.source() == pattern@,
{
    match globset::Glob::new(pattern) {
        Ok(glob) => Some(CompiledGlob { glob, source: pattern.to_owned() }),
        Err(_) => None,
    }
}

/// `globset::GlobSetBuilder::new()`: a builder with no pattern.
#[verifier::external_body]
fn new_builder() -> (b: globset::GlobSetBuilder)
    ensures
        builder_globs(b) == Seq::<Seq<char>>::empty(),
{
    globset::GlobSetBuilder::new()
}

/// `GlobSetBuilder::add`: the pattern is appended to the builder's.
#[verifier::external_body]
fn builder_add(b: &mut globset::GlobSetBuilder, g: CompiledGlob)
    ensures
        builder_globs(*final(b)) == builder_globs(*old(b)).push(g.source()),
{
    b.add(g.glob);
}

/// `GlobSetBuilder::build`: a set of the builder's patterns, or nothing
/// where building fails; the source builds a set of no pattern without
/// failing.
#[verifier::external_body]
fn build_set(b: &globset::GlobSetBuilder) -> (r: Option<globset::GlobSet>)
    ensures
        (r is Some) == glob_set_builds(builder_globs(*b)),
        r matches Some(s) ==> set_globs(s) == builder_globs(*b),
        builder_globs(*b).len() == 0 ==> r is Some,
{
    b.build().ok()
}

/// `GlobSet::is_match`: whether a pattern of the set matches `path`; the
/// result is named, and a set of no pattern matches nothing, as the crate
/// documents.
#[verifier::external_body]
fn set_is_match(s: &globset::GlobSet, path: &str) -> (r: bool)
    ensures
        r == glob_set_matches(set_globs(*s), path@),
        set_globs(*s).len() == 0 ==> !r,
{
    s.is_match(path)
}

/// The patterns that compile, in order.
pub open spec fn compiling(patterns: Seq<Seq<char>>) -> Seq<Seq<char>>
    decreases patterns.len(),
{
    if patterns.len() == 0 {
        Seq::empty()
    } else if glob_compiles(patterns.last()) {
        compiling(patterns.drop_last()).push(patterns.last())
    } else {
        compiling(patterns.drop_last())
    }
}

/// Whether a set made of the patterns that compile matches `path`: it must
/// build, and then match.
pub open spec fn scope_match(patterns: Seq<Seq<char>>, path: Seq<char>) -> bool {
    glob_set_builds(compiling(patterns)) && glob_set_matches(compiling(patterns), path)
}

/// Patterns of paths that may be reached from outside the working
/// directory, each one a glob that compiles.
pub struct ScopeSet {
    pub patterns: Vec<String>,
}

impl ScopeSet {
    /// Every pattern compiles.
    pub open spec fn wf(&self) -> bool {
        forall|i: int| 0 <= i < self.patterns@.len() ==> glob_compiles(#[trigger] self.patterns@[i]@)
    }

    /// The set with no pattern: it matches nothing.
    pub fn empty() -> (s: ScopeSet)
        ensures
            s.patterns@.len() == 0,
            s.wf(),
    {
        ScopeSet { patterns: Vec::new() }
    }

    /// Whether a pattern of the set matches `path`: the patterns that
    /// compile are built into a `globset` matcher, which is asked.
    pub fn is_match(&self, path: &str) -> (r: bool)
        ensures
            r == scope_match(string_views(self.patterns@), path@),
            self.patterns@.len() == 0 ==> !r,
    {
        let ghost views = string_views(self.patterns@);
        let mut b = new_builder();
        let mut i: usize = 0;
        assert(views.take(0) =~= Seq::<Seq<char>>::empty());
        while i < self.patterns.len()
            invariant
                i <= self.patterns@.len(),
                views == string_views(self.patterns@),
                builder_globs(b) == compiling(views.take(i as int)),
            decreases self.patterns@.len() - i,
        {
            assert(views.take(i + 1).drop_last() =~= views.take(i as int));
            assert(views.take(i + 1).last() == self.patterns@[i as int]@);
            if let Some(g) = compile_glob(self.patterns[i].as_str()) {
                builder_add(&mut b, g);
            }
            i = i + 1;
        }
        assert(views.take(i as int) =~= views);
        match build_set(&b) {
            Some(s) => set_is_match(&s, path),
            None => false,
        }
    }
}

/// A pattern with a leading `~/` put under `HOME`, where it is set.
pub open spec fn pattern_expanded(pattern: Seq<char>, vars: Seq<(String, String)>) -> Seq<char> {
    if has_prefix(pattern, seq!['~', '/']) {
        match var_value(vars, "HOME"@) {
            Some(h) => h + seq!['/'] + pattern.skip(2),
            None => pattern,
        }
    } else {
        pattern
    }
}

/// Expands a leading `~/` of a glob pattern.
pub fn expand_pattern_tilde(pattern: &str, vars: &Vec<(String, String)>) -> (r: String)
    ensures
        r@ == pattern_expanded(pattern@, vars@),
{
    let c = chars_of(pattern);
    let mut tilde_slash: Vec<char> = Vec::new();
    tilde_slash.push('~');
    tilde_slash.push('/');
    assert(tilde_slash@ =~= seq!['~', '/']);
    if starts_with(&c, &tilde_slash) {
        if let Some(home) = lookup_var(vars, "HOME") {
            let mut r = home;
            push_char(&mut r, '/');
            push_str(&mut r, suffix_string(&c, 2).as_str());
            return r;
        }
    }
    pattern.to_owned()
}

/// The expanded patterns that compile, in order.
pub open spec fn compiled(patterns: Seq<Seq<char>>, vars: Seq<(String, String)>) -> Seq<Seq<char>>
    decreases patterns.len(),
{
    if patterns.len() == 0 {
        Seq::empty()
    } else {
        let rest = compiled(patterns.drop_last(), vars);
        let e = pattern_expanded(patterns.last(), vars);
        if glob_compiles(e) {
            rest.push(e)
        } else {
            rest
        }
    }
}

/// Compiles exception patterns: each expanded, those that do not compile
/// left out.
pub fn compile_exceptions(patterns: &Vec<String>, vars: &Vec<(String, String)>) -> (r: ScopeSet)
    ensures
        string_views(r.patterns@) == compiled(string_views(patterns@), vars@),
        r.wf(),
{
    let ghost views = string_views(patterns@);
    let mut out: Vec<String> = Vec::new();
    let mut i: usize = 0;
    assert(views.take(0) =~= Seq::<Seq<char>>::empty());
    assert(string_views(out@) =~= Seq::<Seq<char>>::empty());
    while i < patterns.len()
        invariant
            i <= patterns@.len(),
            views == string_views(patterns@),
            string_views(out@) == compiled(views.take(i as int), vars@),
            forall|k: int| 0 <= k < out@.len() ==> glob_compiles(#[trigger] out@[k]@),
        decreases patterns@.len() - i,
    {
        assert(views.take(i + 1).drop_last() =~= views.take(i as int));
        assert(views.take(i + 1).last() == patterns@[i as int]@);
        let e = expand_pattern_tilde(patterns[i].as_str(), vars);
        if compile_glob(e.as_str()).is_some() {
            let ghost before = out@;
            out.push(e);
            assert(string_views(out@) =~= string_views(before).push(out@.last()@));
        }
        i = i + 1;
    }
    assert(views.take(i as int) =~= views);
    ScopeSet { patterns: out }
}

/// `path` may be reached: its expanded form lies in scope (the scope test
/// expanding it once more), or an exception of either set matches it.
pub open spec fn allowed(
    path: Seq<char>,
    working_dir: Seq<char>,
    vars: Seq<(String, String)>,
    home_dir: Option<String>,
    global: Seq<Seq<char>>,
    session: Seq<Seq<char>>,
    res: Resolution,
) -> bool {
    let e = expanded_path(path, working_dir, vars, home_dir);
    in_scope(e, working_dir, vars, home_dir, res) || scope_match(global, e) || scope_match(session, e)
}

/// Whether `path` may be reached: in scope first, then the global
/// exceptions, then the session's.
pub fn is_allowed(
    path: &str,
    working_dir: &str,
    env: &Environment,
    global_set: &ScopeSet,
    session_set: &ScopeSet,
    res: &Resolution,
) -> (r: bool)
    ensures
        r == allowed(
            path@,
            working_dir@,
            env.vars@,
            env.home_dir,
            string_views(global_set.patterns@),
            string_views(session_set.patterns@),
            *res,
        ),
{
    let expanded = expand_path(path, working_dir, env);
    if is_in_scope(expanded.as_str(), working_dir, env, res) {
        return true;
    }
    if global_set.is_match(expanded.as_str()) {
        return true;
    }
    session_set.is_match(expanded.as_str())
}

/// `p` is `base` or lies under it, component-wise.
pub open spec fn within(p: Seq<char>, base: Seq<char>) -> bool {
    p == base || has_prefix(p, base + seq!['/']) || (base == seq!['/'] && has_prefix(p, base))
}

/// The policy's path list admits `path`: it is empty, or `path` lies within
/// one of its entries, both expanded and normalised lexically.
pub open spec fn policy_admits(
    path: Seq<char>,
    working_dir: Seq<char>,
    vars: Seq<(String, String)>,
    home_dir: Option<String>,
    allowed_paths: Seq<Seq<char>>,
) -> bool {
    allowed_paths.len() == 0 || exists|i: int|
        0 <= i < allowed_paths.len() && within(
            lexical(expanded_path(path, working_dir, vars, home_dir)),
            lexical(expanded_path(#[trigger] allowed_paths[i], working_dir, vars, home_dir)),
        )
}

/// Whether `p` is `base` or lies under it.
fn is_within(p: &Vec<char>, base: &Vec<char>) -> (r: bool)
    ensures
        r == within(p@, base@),
{
    let mut sep: Vec<char> = Vec::new();
    crate::text::append_all(&mut sep, base);
    sep.push('/');
    assert(sep@ =~= base@ + seq!['/']);
    let mut root: Vec<char> = Vec::new();
    root.push('/');
    assert(root@ =~= seq!['/']);
    crate::text::chars_eq(p, base) || starts_with(p, &sep) || (crate::text::chars_eq(base, &root) && starts_with(
        p,
        base,
    ))
}

/// Whether the policy's path list admits `path`.
pub fn is_allowed_by_policy(path: &str, working_dir: &str, env: &Environment, allowed_paths: &Vec<String>) -> (r: bool)
    ensures
        r == policy_admits(path@, working_dir@, env.vars@, env.home_dir, string_views(allowed_paths@)),
{
    if allowed_paths.len() == 0 {
        return true;
    }
    let target = chars_of(lexical_normalize(expand_path(path, working_dir, env).as_str()).as_str());
    let ghost views = string_views(allowed_paths@);
    let mut i: usize = 0;
    while i < allowed_paths.len()
        invariant
            i <= allowed_paths@.len(),
            views == string_views(allowed_paths@),
            target@ == lexical(expanded_path(path@, working_dir@, env.vars@, env.home_dir)),
            forall|k: int|
                0 <= k < i ==> !within(
                    target@,
                    lexical(expanded_path(#[trigger] views[k], working_dir@, env.vars@, env.home_dir)),
                ),
        decreases allowed_paths@.len() - i,
    {
        let base = chars_of(lexical_normalize(expand_path(allowed_paths[i].as_str(), working_dir, env).as_str()).as_str());
        assert(views[i as int] == allowed_paths@[i as int]@);
        if is_within(&target, &base) {
            return true;
        }
        i = i + 1;
    }
    false
}

} // verus!
