//! The effective configuration of a session: the policy it runs under, the
//! connections it may use, its prompt, working directory, permissions,
//! limits and the environment its connections need.
use super::{
    lookup, read_outcome, resource_path, Loaded, auth_result, connection_result, error_text, first_connection_error, loaded_connection, outcome, pair_views,
    policy_outcome, policy_result, prompt_result, root_result, string_views, AuthProfile, ConfigDir, ConfigFiles,
    Connection, ConnectionV, LoadErrorV, Permissions, Policy, PolicyLimits, PolicyV,
};
use crate::paths::join_path;
use crate::text::{chars_of, has_prefix, matches_at, occurs_at, opt_chars, push_str, str_eq, string_of, suffix_string};
use crate::tools::scope::{is_alphanumeric, is_var_char, lookup_var, name_run, var_value};
use vstd::prelude::*;

verus! {

/// The first index at or after `i` where `pat` occurs in `s`.
pub open spec fn find_from(s: Seq<char>, pat: Seq<char>, i: int) -> Option<int>
    decreases s.len() - i,
{
    if i < 0 || i > s.len() {
        None
    } else if occurs_at(s, pat, i) {
        Some(i)
    } else if i == s.len() {
        None
    } else {
        find_from(s, pat, i + 1)
    }
}

/// A position found is an occurrence.
pub proof fn lemma_find_from(s: Seq<char>, pat: Seq<char>, i: int)
    ensures
        find_from(s, pat, i) matches Some(k) ==> occurs_at(s, pat, k) && k >= i,
    decreases s.len() - i,
{
    if 0 <= i < s.len() && !occurs_at(s, pat, i) {
        lemma_find_from(s, pat, i + 1);
    }
}

/// The marker of an inline environment reference.
pub open spec fn env_marker() -> Seq<char> {
    seq!['e', 'n', 'v', '.']
}

/// One replacement of an inline reference: the first `env.` and the name
/// characters after it become the variable's value (empty where unset); no
/// step where `s` has no `env.`.
pub open spec fn inline_step(s: Seq<char>, vars: Seq<(String, String)>) -> Option<Seq<char>> {
    match find_from(s, env_marker(), 0) {
        None => None,
        Some(start) => {
            let after = s.skip(start + 4);
            let end = name_run(after);
            let value = match var_value(vars, after.take(end as int)) {
                Some(v) => v,
                None => Seq::empty(),
            };
            Some(s.take(start) + value + after.skip(end as int))
        },
    }
}

/// Replacements run out within `n` steps.
pub open spec fn inline_within(s: Seq<char>, vars: Seq<(String, String)>, n: nat) -> bool
    decreases n,
{
    match inline_step(s, vars) {
        None => true,
        Some(t) => n > 0 && inline_within(t, vars, (n - 1) as nat),
    }
}

/// The text after at most `n` replacements.
pub open spec fn inline_final(s: Seq<char>, vars: Seq<(String, String)>, n: nat) -> Seq<char>
    decreases n,
{
    match inline_step(s, vars) {
        None => s,
        Some(t) => if n > 0 {
            inline_final(t, vars, (n - 1) as nat)
        } else {
            s
        },
    }
}

/// The first index of `pat` in `s`.
fn find_first(s: &Vec<char>, pat: &Vec<char>) -> (r: Option<usize>)
    ensures
        match r {
            Some(i) => find_from(s@, pat@, 0) == Some(i as int),
            None => find_from(s@, pat@, 0) is None,
        },
{
    let mut i: usize = 0;
    while i <= s.len()
        invariant
            i <= s@.len() + 1,
            find_from(s@, pat@, 0) == find_from(s@, pat@, i as int),
        decreases s@.len() + 1 - i,
    {
        if matches_at(s, pat, i) {
            return Some(i);
        }
        if i == s.len() {
            return None;
        }
        i = i + 1;
    }
    None
}

/// Where the name characters from `start` end.
fn name_end(c: &Vec<char>, start: usize) -> (j: usize)
    requires
        start <= c@.len(),
    ensures
        j == start + name_run(c@.skip(start as int)),
        j <= c@.len(),
{
    let mut j = start;
    while j < c.len() && (is_alphanumeric(c[j]) || c[j] == '_')
        invariant
            start <= j <= c@.len(),
            name_run(c@.skip(start as int)) == (j - start) + name_run(c@.skip(j as int)),
        decreases c@.len() - j,
    {
        assert(c@.skip(j as int).skip(1) =~= c@.skip(j + 1));
        assert(c@.skip(j as int)[0] == c@[j as int]);
        j = j + 1;
    }
    proof {
        if j < c@.len() {
            assert(c@.skip(j as int)[0] == c@[j as int]);
        }
    }
    j
}

/// Replaces inline `env.NAME` references in `s` by the variables' values,
/// first reference first and again in the result, for at most `max_steps`
/// replacements: the result, or nothing where references remain after
/// that many.
pub fn resolve_env_inline(s: &str, vars: &Vec<(String, String)>, max_steps: usize) -> (r: Option<String>)
    ensures
        r is Some <==> inline_within(s@, vars@, max_steps as nat),
        r matches Some(t) ==> t@ == inline_final(s@, vars@, max_steps as nat),
{
    let mut pat: Vec<char> = Vec::new();
    pat.push('e');
    pat.push('n');
    pat.push('v');
    pat.push('.');
    assert(pat@ =~= env_marker());
    let mut cur = chars_of(s);
    let mut steps: usize = 0;
    loop
        invariant
            steps <= max_steps,
            pat@ == env_marker(),
            inline_within(s@, vars@, max_steps as nat) == inline_within(cur@, vars@, (max_steps - steps) as nat),
            inline_final(s@, vars@, max_steps as nat) == inline_final(cur@, vars@, (max_steps - steps) as nat),
        decreases max_steps - steps,
    {
        let start = match find_first(&cur, &pat) {
            None => {
                return Some(string_of(&cur));
            },
            Some(i) => i,
        };
        if steps == max_steps {
            return None;
        }
        proof {
            lemma_find_from(cur@, pat@, 0);
            assert(pat@.len() == 4);
            assert(occurs_at(cur@, pat@, start as int));
        }
        let cl = cur.len();
        assert(start + 4 <= cl);
        let ghost after = cur@.skip(start + 4);
        let end = name_end(&cur, start + 4);
        assert(cur@.skip(start + 4) =~= after);
        let name = crate::text::range_string(&cur, start + 4, end);
        assert(name@ =~= after.take(name_run(after) as int));
        let mut next: Vec<char> = Vec::new();
        let mut k: usize = 0;
        while k < start
            invariant
                k <= start,
                start + 4 <= cur@.len(),
                next@ == cur@.take(k as int),
            decreases start - k,
        {
            next.push(cur[k]);
            k = k + 1;
            assert(next@ =~= cur@.take(k as int));
        }
        let value = match lookup_var(vars, name.as_str()) {
            Some(v) => v,
            None => String::new(),
        };
        crate::text::append_all(&mut next, &chars_of(value.as_str()));
        let ghost mid = next@;
        let mut m: usize = end;
        while m < cur.len()
            invariant
                end <= m <= cur@.len(),
                next@ == mid + cur@.subrange(end as int, m as int),
            decreases cur@.len() - m,
        {
            next.push(cur[m]);
            m = m + 1;
            assert(next@ =~= mid + cur@.subrange(end as int, m as int));
        }
        assert(cur@.subrange(end as int, m as int) =~= after.skip(name_run(after) as int));
        assert(inline_step(cur@, vars@) == Some(next@));
        cur = next;
        steps = steps + 1;
    }
}

/// `env` with variable `key` set to `value`: the first entry of that name
/// takes the value, or a new entry is appended.
pub open spec fn set_var(env: Seq<(Seq<char>, Seq<char>)>, key: Seq<char>, value: Seq<char>) -> Seq<(Seq<char>, Seq<char>)>
    decreases env.len(),
{
    if env.len() == 0 {
        seq![(key, value)]
    } else if env[0].0 == key {
        env.update(0, (key, value))
    } else {
        seq![env[0]] + set_var(env.skip(1), key, value)
    }
}

/// Sets variable `key` of `env` to `value`.
fn insert_var(env: &mut Vec<(String, String)>, key: String, value: String)
    ensures
        pair_views(final(env)@) == set_var(pair_views(old(env)@), key@, value@),
{
    let ghost e0 = pair_views(env@);
    let mut i: usize = 0;
    assert(e0.skip(0) =~= e0);
    while i < env.len()
        invariant
            i <= env@.len(),
            env@ == old(env)@,
            e0 == pair_views(env@),
            forall|j: int| 0 <= j < i ==> #[trigger] e0[j].0 != key@,
            set_var(e0, key@, value@) == e0.take(i as int) + set_var(e0.skip(i as int), key@, value@),
        decreases env@.len() - i,
    {
        assert(e0[i as int] == (env@[i as int].0@, env@[i as int].1@));
        assert(e0.skip(i as int)[0] == e0[i as int]);
        if str_eq(env[i].0.as_str(), key.as_str()) {
            env.set(i, (key, value));
            proof {
                assert(pair_views(env@) =~= e0.take(i as int) + set_var(e0.skip(i as int), key@, value@));
            }
            return;
        }
        assert(e0.skip(i as int).skip(1) =~= e0.skip(i + 1));
        assert(seq![e0.skip(i as int)[0]] + set_var(e0.skip(i + 1), key@, value@) == set_var(e0.skip(i as int), key@, value@));
        assert(e0.take(i + 1) =~= e0.take(i as int).push(e0[i as int]));
        assert(e0.take(i as int) + set_var(e0.skip(i as int), key@, value@) =~= e0.take(i + 1) + set_var(e0.skip(i + 1), key@, value@));
        i = i + 1;
    }
    assert(e0.skip(i as int) =~= Seq::<(Seq<char>, Seq<char>)>::empty());
    env.push((key, value));
    assert(pair_views(env@) =~= e0.take(i as int) + set_var(e0.skip(i as int), key@, value@));
}

/// The environment entries a connection's headers add: each header whose
/// value changes when its inline references are replaced, with the new
/// value.
pub open spec fn env_of_headers(
    env: Seq<(Seq<char>, Seq<char>)>,
    headers: Seq<(Seq<char>, Seq<char>)>,
    vars: Seq<(String, String)>,
    max_steps: nat,
) -> Seq<(Seq<char>, Seq<char>)>
    decreases headers.len(),
{
    if headers.len() == 0 {
        env
    } else {
        let before = env_of_headers(env, headers.drop_last(), vars, max_steps);
        let (k, v) = headers.last();
        let r = inline_final(v, vars, max_steps);
        if r != v {
            set_var(before, k, r)
        } else {
            before
        }
    }
}

/// The environment entries a connection adds: the variable its key names
/// (`env.NAME`) with its value, empty where unset, then those of its
/// headers.
pub open spec fn env_of_connection(
    env: Seq<(Seq<char>, Seq<char>)>,
    c: ConnectionV,
    vars: Seq<(String, String)>,
    max_steps: nat,
) -> Seq<(Seq<char>, Seq<char>)> {
    let keyed = match c.api_key {
        Some(k) => if has_prefix(k, env_marker()) {
            set_var(
                env,
                k.skip(4),
                match var_value(vars, k.skip(4)) {
                    Some(v) => v,
                    None => Seq::empty(),
                },
            )
        } else {
            env
        },
        None => env,
    };
    env_of_headers(keyed, c.headers, vars, max_steps)
}

/// The environment entries of the connections `conns`, in order.
pub open spec fn env_of(conns: Seq<ConnectionV>, vars: Seq<(String, String)>, max_steps: nat) -> Seq<(Seq<char>, Seq<char>)>
    decreases conns.len(),
{
    if conns.len() == 0 {
        Seq::empty()
    } else {
        env_of_connection(env_of(conns.drop_last(), vars, max_steps), conns.last(), vars, max_steps)
    }
}

/// The header values of `headers` settle within `max_steps` replacements.
pub open spec fn headers_settle(headers: Seq<(Seq<char>, Seq<char>)>, vars: Seq<(String, String)>, max_steps: nat) -> bool {
    forall|i: int| 0 <= i < headers.len() ==> inline_within(#[trigger] headers[i].1, vars, max_steps)
}

/// Adds the environment entries of one connection.
fn add_connection_env(env: &mut Vec<(String, String)>, c: &Connection, vars: &Vec<(String, String)>, max_steps: usize)
    requires
        headers_settle(pair_views(c.headers@), vars@, max_steps as nat),
    ensures
        pair_views(final(env)@) == env_of_connection(pair_views(old(env)@), c@, vars@, max_steps as nat),
{
    let mut marker: Vec<char> = Vec::new();
    marker.push('e');
    marker.push('n');
    marker.push('v');
    marker.push('.');
    assert(marker@ =~= env_marker());
    if let Some(key) = &c.api_key {
        let k = chars_of(key.as_str());
        if crate::text::starts_with(&k, &marker) {
            let name = suffix_string(&k, 4);
            let value = match lookup_var(vars, name.as_str()) {
                Some(v) => v,
                None => String::new(),
            };
            insert_var(env, name, value);
        }
    }
    let ghost keyed = pair_views(env@);
    let ghost hv = pair_views(c.headers@);
    let mut i: usize = 0;
    assert(hv.take(0) =~= Seq::<(Seq<char>, Seq<char>)>::empty());
    while i < c.headers.len()
        invariant
            i <= c.headers@.len(),
            hv == pair_views(c.headers@),
            headers_settle(hv, vars@, max_steps as nat),
            pair_views(env@) == env_of_headers(keyed, hv.take(i as int), vars@, max_steps as nat),
        decreases c.headers@.len() - i,
    {
        assert(hv.take(i + 1).drop_last() =~= hv.take(i as int));
        assert(hv[i as int] == (c.headers@[i as int].0@, c.headers@[i as int].1@));
        assert(hv.take(i + 1).last() == hv[i as int]);
        let (key, value) = (&c.headers[i].0, &c.headers[i].1);
        assert(inline_within(hv[i as int].1, vars@, max_steps as nat));
        let resolved = match resolve_env_inline(value.as_str(), vars, max_steps) {
            Some(r) => r,
            None => {
                assert(false);
                String::new()
            },
        };
        if !str_eq(resolved.as_str(), value.as_str()) {
            insert_var(env, key.clone(), resolved);
        }
        i = i + 1;
    }
    assert(hv.take(i as int) =~= hv);
}

/// The configuration a session runs with.
#[derive(Debug, PartialEq)]
pub struct EffectiveSessionConfig {
    pub policy_name: String,
    pub policy_hash: String,
    pub connection_candidates: Vec<Connection>,
    pub prompt: String,
    pub working_dir: String,
    pub permissions: Permissions,
    pub limits: PolicyLimits,
    pub env_vars: Vec<(String, String)>,
}

/// The views of a list of connections.
pub open spec fn connection_views(v: Seq<Connection>) -> Seq<ConnectionV> {
    v.map_values(|c: Connection| c@)
}

/// The policy a session runs under: the one named explicitly, else the
/// root configuration's.
pub open spec fn chosen_policy(root_policy: Seq<char>, explicit: Option<Seq<char>>) -> Seq<char> {
    match explicit {
        Some(p) => p,
        None => root_policy,
    }
}

/// Why resolving fails, if it does: the root configuration, then the chosen
/// policy, then a missing working directory.
pub open spec fn resolve_error(
    root: Seq<char>,
    files: ConfigFiles,
    explicit: Option<Seq<char>>,
    working_dir: Option<Seq<char>>,
    current_dir: Option<Seq<char>>,
) -> Option<Seq<char>> {
    match root_result(root, files.root) {
        Err(e) => Some(error_text(e)),
        Ok(r) => match policy_result(root, files, chosen_policy(r.policy@, explicit)) {
            Err(e) => Some(error_text(e)),
            Ok(_) => if working_dir is None && current_dir is None {
                Some("no working directory configured"@)
            } else {
                None
            },
        },
    }
}

/// Every connection of the tree has header values that settle within
/// `max_steps` replacements.
pub open spec fn all_headers_settle(files: ConfigFiles, vars: Seq<(String, String)>, max_steps: nat) -> bool {
    forall|i: int|
        0 <= i < files.connections@.len() ==> match #[trigger] files.connections@[i].1 {
            super::Loaded::Found(c) => headers_settle(pair_views(c.headers@), vars, max_steps),
            _ => true,
        }
}

/// Where no connection of `names` fails, each one loads.
pub proof fn lemma_connections_load(root: Seq<char>, files: ConfigFiles, names: Seq<Seq<char>>)
    requires
        first_connection_error(root, files, names) is None,
    ensures
        forall|i: int| 0 <= i < names.len() ==> connection_result(root, files, #[trigger] names[i]) is Ok,
    decreases names.len(),
{
    if names.len() > 0 {
        lemma_connections_load(root, files, names.skip(1));
        assert forall|i: int| 0 <= i < names.len() implies connection_result(root, files, #[trigger] names[i]) is Ok by {
            if i > 0 {
                assert(names.skip(1)[i - 1] == names[i]);
            }
        }
    }
}

/// An entry found in a table is one of its entries.
pub proof fn lemma_lookup_entry<T>(table: Seq<(String, Loaded<T>)>, name: Seq<char>)
    ensures
        lookup(table, name) matches Some(x) ==> exists|i: int| 0 <= i < table.len() && #[trigger] table[i].1 == x,
    decreases table.len(),
{
    if table.len() > 0 && table[0].0@ != name {
        lemma_lookup_entry(table.skip(1), name);
        if let Some(x) = lookup(table, name) {
            let i = choose|i: int| 0 <= i < table.skip(1).len() && #[trigger] table.skip(1)[i].1 == x;
            assert(table[i + 1].1 == x);
        }
    } else if table.len() > 0 {
        assert(table[0].1 == table[0].1);
    }
}

/// A connection that loads from a tree whose headers all settle has headers
/// that settle.
proof fn lemma_loaded_settles(
    root: Seq<char>,
    files: ConfigFiles,
    name: Seq<char>,
    c: ConnectionV,
    vars: Seq<(String, String)>,
    max_steps: nat,
)
    requires
        all_headers_settle(files, vars, max_steps),
        loaded_connection(root, files, name) == Some(c),
    ensures
        headers_settle(c.headers, vars, max_steps),
{
    lemma_lookup_entry(files.connections@, name);
    let path = resource_path(join_path(root, "connections"@), name, ".json"@);
    if let Some(Loaded::Found(f)) = lookup(files.connections@, name) {
        let i = choose|i: int| 0 <= i < files.connections@.len() && #[trigger] files.connections@[i].1 == Loaded::Found(f);
        assert(match files.connections@[i].1 {
            Loaded::Found(c) => headers_settle(pair_views(c.headers@), vars, max_steps),
            _ => true,
        });
        assert(c.headers == pair_views(f.headers@));
    }
}

/// What resolving gives: the error `resolve_error` names, or a
/// configuration made of the root's policy choice, that policy's
/// connections, prompt, permissions and limits, the working directory given
/// or else the current one, `policy_hash`, and the environment the
/// connections need.
pub open spec fn resolve_outcome(
    root: Seq<char>,
    files: ConfigFiles,
    explicit: Option<Seq<char>>,
    working_dir: Option<Seq<char>>,
    current_dir: Option<Seq<char>>,
    policy_hash: String,
    vars: Seq<(String, String)>,
    max_steps: nat,
    r: Result<EffectiveSessionConfig, String>,
) -> bool {
    match r {
        Err(m) => resolve_error(
            root,
            files,
            explicit,
            working_dir,
            current_dir,
        ) == Some(m@),
        Ok(c) => resolve_error(
            root,
            files,
            explicit,
            working_dir,
            current_dir,
        ) is None && (root_result(root, files.root) matches Ok(rc) && c.policy_name@ == chosen_policy(
            rc.policy@,
            explicit,
        )) && (policy_result(root, files, c.policy_name@) matches Ok(pv) && c.connection_candidates@.len()
            == pv.connections.len() && (forall|i: int|
            0 <= i < pv.connections.len() ==> loaded_connection(root, files, #[trigger] pv.connections[i])
                == Some(c.connection_candidates@[i]@)) && match pv.prompt {
            Some(p) => prompt_result(root, files.prompts@, p) == Ok::<Seq<char>, LoadErrorV>(c.prompt@),
            None => c.prompt@.len() == 0,
        } && string_views(c.permissions.tools@) == pv.tools && string_views(c.permissions.paths@) == pv.paths
            && c.limits == pv.limits) && c.working_dir@ == match working_dir {
            Some(w) => w,
            None => match current_dir {
                Some(d) => d,
                None => Seq::empty(),
            },
        } && c.policy_hash == policy_hash && pair_views(c.env_vars@) == env_of(
            connection_views(c.connection_candidates@),
            vars,
            max_steps,
        ),
    }
}

/// Resolves the configuration a session runs with, from the tree at
/// `config_dir` as read into `files`: the root configuration, the policy
/// named explicitly or by the root, its connections and prompt, the working
/// directory given or else the current one, the policy's permissions and
/// limits, and the environment its connections need (`vars` being the
/// process's variables). `policy_hash` is the digest of the policy file.
pub fn resolve(
    config_dir: &ConfigDir,
    files: &ConfigFiles,
    explicit_policy: Option<&str>,
    working_dir: Option<&str>,
    current_dir: Option<String>,
    policy_hash: String,
    vars: &Vec<(String, String)>,
    max_steps: usize,
) -> (r: Result<EffectiveSessionConfig, String>)
    requires
        all_headers_settle(*files, vars@, max_steps as nat),
    ensures
        resolve_outcome(
            config_dir.0@,
            *files,
            crate::cli::opt_str(explicit_policy),
            crate::cli::opt_str(working_dir),
            opt_chars(current_dir),
            policy_hash,
            vars@,
            max_steps as nat,
            r,
        ),
{
    let root = match config_dir.load_root(files) {
        Ok(r) => r,
        Err(e) => {
            return Err(e.to_text());
        },
    };
    let policy_name: String = match explicit_policy {
        Some(p) => p.to_owned(),
        None => root.policy.clone(),
    };
    let policy = match config_dir.load_policy(files, policy_name.as_str()) {
        Ok(p) => p,
        Err(e) => {
            return Err(e.to_text());
        },
    };
    let ghost root_dir = config_dir.0@;
    let ghost pv = policy@;
    proof {
        lemma_connections_load(root_dir, *files, pv.connections);
    }
    let mut candidates: Vec<Connection> = Vec::new();
    let mut i: usize = 0;
    while i < policy.connections.len()
        invariant
            i <= policy.connections@.len(),
            pv == policy@,
            pv.connections == string_views(policy.connections@),
            forall|k: int| 0 <= k < pv.connections.len() ==> connection_result(root_dir, *files, #[trigger] pv.connections[k]) is Ok,
            root_dir == config_dir.0@,
            all_headers_settle(*files, vars@, max_steps as nat),
            candidates@.len() == i,
            forall|k: int| 0 <= k < i ==> loaded_connection(root_dir, *files, #[trigger] pv.connections[k]) == Some(candidates@[k]@),
            forall|k: int| 0 <= k < i ==> headers_settle(#[trigger] candidates@[k]@.headers, vars@, max_steps as nat),
        decreases policy.connections@.len() - i,
    {
        assert(pv.connections[i as int] == policy.connections@[i as int]@);
        let c = match config_dir.load_connection(files, policy.connections[i].as_str()) {
            Ok(c) => c,
            Err(e) => {
                assert(connection_result(root_dir, *files, pv.connections[i as int]) is Ok);
                return Err(e.to_text());
            },
        };
        proof {
            lemma_loaded_settles(root_dir, *files, pv.connections[i as int], c@, vars@, max_steps as nat);
        }
        candidates.push(c);
        i = i + 1;
    }
    let prompt = match &policy.prompt {
        Some(p) => match config_dir.load_prompt(files, p.as_str()) {
            Ok(t) => t,
            Err(e) => {
                return Err(e.to_text());
            },
        },
        None => String::new(),
    };
    let wd = match working_dir {
        Some(w) => w.to_owned(),
        None => match current_dir {
            Some(d) => d,
            None => {
                return Err("no working directory configured".to_owned());
            },
        },
    };
    let mut env_vars: Vec<(String, String)> = Vec::new();
    let mut j: usize = 0;
    assert(pair_views(env_vars@) =~= Seq::<(Seq<char>, Seq<char>)>::empty());
    assert(connection_views(candidates@).take(0) =~= Seq::<ConnectionV>::empty());
    while j < candidates.len()
        invariant
            j <= candidates@.len(),
            forall|k: int| 0 <= k < candidates@.len() ==> headers_settle(#[trigger] candidates@[k]@.headers, vars@, max_steps as nat),
            pair_views(env_vars@) == env_of(connection_views(candidates@).take(j as int), vars@, max_steps as nat),
        decreases candidates@.len() - j,
    {
        assert(connection_views(candidates@).take(j + 1).drop_last() =~= connection_views(candidates@).take(j as int));
        assert(connection_views(candidates@).take(j + 1).last() == candidates@[j as int]@);
        assert(headers_settle(candidates@[j as int]@.headers, vars@, max_steps as nat));
        add_connection_env(&mut env_vars, &candidates[j], vars, max_steps);
        j = j + 1;
    }
    assert(connection_views(candidates@).take(j as int) =~= connection_views(candidates@));
    let Policy { connections: _, prompt: _, permissions, limits, env: _ } = policy;
    Ok(
        EffectiveSessionConfig {
            policy_name,
            policy_hash,
            connection_candidates: candidates,
            prompt,
            working_dir: wd,
            permissions,
            limits,
            env_vars,
        },
    )
}


/// Whether the header values of every connection in `files` settle within
/// `max_steps` replacements.
pub fn headers_all_settle(files: &ConfigFiles, vars: &Vec<(String, String)>, max_steps: usize) -> (b: bool)
    ensures
        b == all_headers_settle(*files, vars@, max_steps as nat),
{
    let conns = &files.connections;
    let mut i: usize = 0;
    while i < conns.len()
        invariant
            i <= conns@.len(),
            conns@ == files.connections@,
            forall|k: int|
                0 <= k < i ==> match #[trigger] conns@[k].1 {
                    super::Loaded::Found(c) => headers_settle(pair_views(c.headers@), vars@, max_steps as nat),
                    _ => true,
                },
        decreases conns@.len() - i,
    {
        if let super::Loaded::Found(c) = &conns[i].1 {
            let ghost hv = pair_views(c.headers@);
            let mut j: usize = 0;
            while j < c.headers.len()
                invariant
                    j <= c.headers@.len(),
                    i < conns@.len(),
                    conns@ == files.connections@,
                    conns@[i as int].1 == super::Loaded::Found(*c),
                    hv == pair_views(c.headers@),
                    forall|k: int| 0 <= k < j ==> inline_within(#[trigger] hv[k].1, vars@, max_steps as nat),
                    forall|k: int|
                        0 <= k < i ==> match #[trigger] conns@[k].1 {
                            super::Loaded::Found(c) => headers_settle(pair_views(c.headers@), vars@, max_steps as nat),
                            _ => true,
                        },
                decreases c.headers@.len() - j,
            {
                assert(hv[j as int] == (c.headers@[j as int].0@, c.headers@[j as int].1@));
                if resolve_env_inline(c.headers[j].1.as_str(), vars, max_steps).is_none() {
                    assert(!inline_within(hv[j as int].1, vars@, max_steps as nat));
                    assert(!headers_settle(hv, vars@, max_steps as nat));
                    assert(match files.connections@[i as int].1 {
                        super::Loaded::Found(c) => !headers_settle(pair_views(c.headers@), vars@, max_steps as nat),
                        _ => false,
                    });
                    return false;
                }
                j = j + 1;
            }
            assert(headers_settle(hv, vars@, max_steps as nat));
        }
        i = i + 1;
    }
    true
}

/// Resolves as `resolve` does where every connection's header values settle
/// within `max_steps` replacements; nothing where one does not, since
/// resolving such a value would never finish.
pub fn resolve_settled(
    config_dir: &ConfigDir,
    files: &ConfigFiles,
    explicit_policy: Option<&str>,
    working_dir: Option<&str>,
    current_dir: Option<String>,
    policy_hash: String,
    vars: &Vec<(String, String)>,
    max_steps: usize,
) -> (r: Option<Result<EffectiveSessionConfig, String>>)
    ensures
        r is None <==> !all_headers_settle(*files, vars@, max_steps as nat),
        r matches Some(x) ==> resolve_outcome(
            config_dir.0@,
            *files,
            crate::cli::opt_str(explicit_policy),
            crate::cli::opt_str(working_dir),
            opt_chars(current_dir),
            policy_hash,
            vars@,
            max_steps as nat,
            x,
        ),
{
    if !headers_all_settle(files, vars, max_steps) {
        return None;
    }
    Some(resolve(config_dir, files, explicit_policy, working_dir, current_dir, policy_hash, vars, max_steps))
}

} // verus!
