//! `fs_read`: the paths a call names, where each read may go, and what a
//! call returns.
use super::scope::{allowed, expand_path, expanded_path, is_allowed, is_allowed_by_policy, policy_admits, Resolution};
use super::ToolContext;
use crate::json::{json_members_view, lemma_members_view, set_member, with_member, Json, JsonV};
use crate::provider::dispatch::{string_items, string_list, tool_error_content};
use crate::text::{concat, string_views};
use vstd::prelude::*;

verus! {

/// The paths of an `fs_read` call: the strings of its `paths` array (a
/// single `path` is not read).
pub fn extract_paths(input: &Json) -> (r: Vec<String>)
    ensures
        string_views(r@) == string_items(input@, "paths"@),
{
    string_list(input, "paths")
}

/// Why reading a file failed.
#[derive(Debug, PartialEq)]
pub enum ReadFailure {
    NotFound,
    PermissionDenied,
    /// Another failure, with the system's message.
    Other(String),
}

/// The message of a failed read of `path`.
pub open spec fn failure_message(path: Seq<char>, f: ReadFailure) -> Seq<char> {
    match f {
        ReadFailure::NotFound => "file not found: "@ + path,
        ReadFailure::PermissionDenied => "permission denied: "@ + path,
        ReadFailure::Other(m) => "failed to read file: "@ + m@,
    }
}

/// The message of a failed read of `path`.
pub fn read_failure_message(path: &str, f: &ReadFailure) -> (m: String)
    ensures
        m@ == failure_message(path@, *f),
{
    match f {
        ReadFailure::NotFound => concat("file not found: ", path),
        ReadFailure::PermissionDenied => concat("permission denied: ", path),
        ReadFailure::Other(e) => concat("failed to read file: ", e.as_str()),
    }
}

/// A read of `path` is allowed: it may be reached and the policy admits it.
pub open spec fn read_allowed(path: Seq<char>, c: ToolContext, res: Resolution) -> bool {
    &&& allowed(
        path,
        c.working_dir@,
        c.env.vars@,
        c.env.home_dir,
        string_views(c.global_scope_set.patterns@),
        string_views(c.session_scope_set.patterns@),
        res,
    )
    &&& policy_admits(path, c.working_dir@, c.env.vars@, c.env.home_dir, string_views(c.allowed_paths@))
}

/// Where a read of `path` goes: its expanded form, or a refusal when it is
/// out of scope.
pub fn read_target(path: &str, context: &ToolContext, res: &Resolution) -> (r: Result<String, String>)
    ensures
        match r {
            Ok(p) => read_allowed(path@, *context, *res) && p@ == expanded_path(
                path@,
                context.working_dir@,
                context.env.vars@,
                context.env.home_dir,
            ),
            Err(m) => !read_allowed(path@, *context, *res) && m@ == "path out of scope: "@ + path@,
        },
{
    let wd = context.working_dir.as_str();
    if !is_allowed(path, wd, &context.env, &context.global_scope_set, &context.session_scope_set, res)
        || !is_allowed_by_policy(path, wd, &context.env, &context.allowed_paths) {
        return Err(concat("path out of scope: ", path));
    }
    Ok(expand_path(path, wd, &context.env))
}

/// The value a read contributes: the text, or `{"error": message}`.
pub open spec fn outcome_value(o: Result<String, String>) -> JsonV {
    match o {
        Ok(c) => JsonV::Str(c@),
        Err(e) => JsonV::Object(seq![("error"@, JsonV::Str(e@))]),
    }
}

/// The members of a batch read: each path set to its outcome, in order, a
/// repeated path keeping its first place and its last outcome.
pub open spec fn read_members(paths: Seq<Seq<char>>, outcomes: Seq<Result<String, String>>) -> Seq<(Seq<char>, JsonV)>
    decreases paths.len(),
{
    if paths.len() == 0 {
        Seq::empty()
    } else {
        with_member(read_members(paths.drop_last(), outcomes.drop_last()), paths.last(), outcome_value(outcomes.last()))
    }
}

/// The message of a call with no path.
pub open spec fn no_paths_message() -> Seq<char> {
    "invalid fs_read input: expected non-empty 'paths' array"@
}

/// What an `fs_read` call returns for the outcomes of its reads: no path is
/// an error; a single read's failure is the call's; a batch maps each path
/// to its text or its error.
pub open spec fn read_response(paths: Seq<Seq<char>>, outcomes: Seq<Result<String, String>>) -> Result<JsonV, Seq<char>> {
    if paths.len() == 0 {
        Err(no_paths_message())
    } else if paths.len() == 1 {
        match outcomes[0] {
            Ok(c) => Ok(JsonV::Object(seq![(paths[0], JsonV::Str(c@))])),
            Err(e) => Err(e@),
        }
    } else {
        Ok(JsonV::Object(read_members(paths, outcomes)))
    }
}

/// The mathematical form of a call result.
pub open spec fn json_result(r: Result<Json, String>) -> Result<JsonV, Seq<char>> {
    match r {
        Ok(j) => Ok(j@),
        Err(e) => Err(e@),
    }
}

/// Assembles the result of an `fs_read` call from the outcome of each read,
/// `outcomes[i]` being that of `paths[i]`.
pub fn read_result(paths: &Vec<String>, outcomes: &Vec<Result<String, String>>) -> (r: Result<Json, String>)
    requires
        outcomes@.len() == paths@.len(),
    ensures
        json_result(r) == read_response(string_views(paths@), outcomes@),
{
    let ghost views = string_views(paths@);
    if paths.len() == 0 {
        return Err("invalid fs_read input: expected non-empty 'paths' array".to_owned());
    }
    if paths.len() == 1 {
        assert(views[0] == paths@[0]@);
        return match &outcomes[0] {
            Ok(c) => {
                let mut members: Vec<(String, Json)> = Vec::new();
                members.push((paths[0].clone(), Json::Str(c.clone())));
                proof {
                    lemma_members_view(members@);
                    assert(json_members_view(members@) =~= seq![(views[0], JsonV::Str(c@))]);
                }
                Ok(Json::Object(members))
            },
            Err(e) => Err(e.clone()),
        };
    }
    let mut members: Vec<(String, Json)> = Vec::new();
    let mut i: usize = 0;
    assert(views.take(0) =~= Seq::<Seq<char>>::empty());
    assert(json_members_view(members@) =~= Seq::<(Seq<char>, JsonV)>::empty());
    while i < paths.len()
        invariant
            i <= paths@.len(),
            outcomes@.len() == paths@.len(),
            views == string_views(paths@),
            json_members_view(members@) == read_members(views.take(i as int), outcomes@.take(i as int)),
        decreases paths@.len() - i,
    {
        assert(views.take(i + 1).drop_last() =~= views.take(i as int));
        assert(outcomes@.take(i + 1).drop_last() =~= outcomes@.take(i as int));
        assert(views.take(i + 1).last() == paths@[i as int]@);
        let value = match &outcomes[i] {
            Ok(c) => Json::Str(c.clone()),
            Err(e) => tool_error_content(e.as_str()),
        };
        assert(value@ == outcome_value(outcomes@[i as int]));
        set_member(&mut members, paths[i].clone(), value);
        i = i + 1;
    }
    assert(views.take(i as int) =~= views);
    assert(outcomes@.take(i as int) =~= outcomes@);
    Ok(Json::Object(members))
}

} // verus!
