//! Structured file edits: which edits a request carries, and how they
//! transform a file's text, all or nothing.
use crate::json::{Json, JsonV};
use crate::text::{
    chars_of, count, count_matches, decimal, decimal_string, push_str, replace, replace_all, replace_first,
    replace_once, string_of,
};
use vstd::prelude::*;

verus! {

/// One replacement: `old_string` by `new_string`, once (it must then match
/// exactly once) or everywhere.
#[derive(Debug, Clone, PartialEq, Eq)]
pub struct Edit {
    pub old_string: String,
    pub new_string: String,
    pub replace_all: bool,
}

/// An `fs_edit` request: a batch of edits, or the single legacy edit.
#[derive(Debug, Clone, PartialEq, Eq)]
pub struct FsEditInput {
    pub path: String,
    pub edits: Vec<Edit>,
    pub old_string: Option<String>,
    pub new_string: Option<String>,
    pub replace_all: bool,
}

/// What an `fs_edit` request does to its file.
#[derive(Debug, Clone, PartialEq, Eq)]
pub enum EditPlan {
    /// A single edit with an empty `old_string`: write `content` as the file.
    Create { content: String },
    /// Apply the edits, in order, to the file's current text.
    Apply { edits: Vec<Edit> },
}

/// The message of a request without edits.
pub open spec fn no_edits_message() -> Seq<char> {
    "invalid fs_edit input: provide 'edits' array or 'old_string'/'new_string'"@
}

/// Chooses what a request does: its batch of edits when it has one, else its
/// legacy single edit when both strings are given; a lone edit of an empty
/// `old_string` creates the file.
pub fn plan_edit(input: FsEditInput) -> (r: Result<EditPlan, String>)
    ensures
        ({
            let edits: Option<Seq<Edit>> = if input.edits@.len() > 0 {
                Some(input.edits@)
            } else if input.old_string is Some && input.new_string is Some {
                Some(seq![Edit { old_string: input.old_string->0, new_string: input.new_string->0, replace_all: input.replace_all }])
            } else {
                None
            };
            match edits {
                None => r matches Err(m) && m@ == no_edits_message(),
                Some(es) => if es.len() == 1 && es[0].old_string@.len() == 0 {
                    r matches Ok(EditPlan::Create { content }) && content == es[0].new_string
                } else {
                    r matches Ok(EditPlan::Apply { edits }) && edits@ == es
                },
            }
        }),
{
    let edits: Vec<Edit> = if input.edits.len() > 0 {
        input.edits
    } else {
        match (input.old_string, input.new_string) {
            (Some(old), Some(new)) => {
                let mut v: Vec<Edit> = Vec::new();
                v.push(Edit { old_string: old, new_string: new, replace_all: input.replace_all });
                v
            },
            _ => {
                return Err(
                    "invalid fs_edit input: provide 'edits' array or 'old_string'/'new_string'".to_owned(),
                );
            },
        }
    };
    if edits.len() == 1 && edits[0].old_string.as_str().is_empty() {
        let content = edits[0].new_string.clone();
        return Ok(EditPlan::Create { content });
    }
    Ok(EditPlan::Apply { edits })
}

/// The message of an edit whose text does not occur.
pub open spec fn not_found_message(i: nat, old: Seq<char>) -> Seq<char> {
    "edit["@ + decimal(i) + "]: pattern not found: "@ + old
}

/// The message of an edit that matches more than once without `replace_all`.
pub open spec fn ambiguous_message(i: nat, n: nat) -> Seq<char> {
    "edit["@ + decimal(i) + "]: multiple matches ("@ + decimal(n) + ") without replace_all=true"@
}

/// Edit number `i`, `e`, applied to `w`.
pub open spec fn apply_one(w: Seq<char>, e: Edit, i: nat) -> Result<Seq<char>, Seq<char>> {
    let n = count_matches(w, e.old_string@);
    if n == 0 {
        Err(not_found_message(i, e.old_string@))
    } else if n > 1 && !e.replace_all {
        Err(ambiguous_message(i, n))
    } else if e.replace_all {
        Ok(replace_all(w, e.old_string@, e.new_string@))
    } else {
        Ok(replace_first(w, e.old_string@, e.new_string@))
    }
}

/// The first `n` edits applied in order to `text`, stopping at the first
/// that fails.
pub open spec fn apply_upto(text: Seq<char>, edits: Seq<Edit>, n: nat) -> Result<Seq<char>, Seq<char>>
    decreases n,
{
    if n == 0 {
        Ok(text)
    } else {
        match apply_upto(text, edits, (n - 1) as nat) {
            Ok(w) => apply_one(w, edits[n - 1], (n - 1) as nat),
            Err(e) => Err(e),
        }
    }
}

/// Once an edit of a batch fails, the batch fails with that edit's message,
/// whatever the edits after it: a batch is applied all or nothing.
pub proof fn law_first_failure_stands(text: Seq<char>, edits: Seq<Edit>, k: nat, n: nat)
    requires
        k <= n,
        apply_upto(text, edits, k) is Err,
    ensures
        apply_upto(text, edits, n) == apply_upto(text, edits, k),
    decreases n,
{
    if n > k {
        law_first_failure_stands(text, edits, k, (n - 1) as nat);
    }
}

/// Every intermediate text stays below the largest length a count can add one
/// to.
pub open spec fn edits_fit(text: Seq<char>, edits: Seq<Edit>) -> bool {
    forall|n: nat| n <= edits.len() ==> (#[trigger] apply_upto(text, edits, n) matches Ok(w) ==> w.len() < usize::MAX)
}

/// Applies `edits` in order to `original`; the first edit that does not
/// match, or matches more than once without `replace_all`, fails the whole
/// batch with its index.
pub fn apply_edits(original: &str, edits: &Vec<Edit>) -> (r: Result<String, String>)
    requires
        edits_fit(original@, edits@),
    ensures
        match r {
            Ok(t) => apply_upto(original@, edits@, edits@.len() as nat) == Ok::<Seq<char>, Seq<char>>(t@),
            Err(m) => apply_upto(original@, edits@, edits@.len() as nat) == Err::<Seq<char>, Seq<char>>(m@),
        },
{
    let mut working = chars_of(original);
    let mut i: usize = 0;
    while i < edits.len()
        invariant
            i <= edits@.len(),
            edits_fit(original@, edits@),
            apply_upto(original@, edits@, i as nat) == Ok::<Seq<char>, Seq<char>>(working@),
        decreases edits@.len() - i,
    {
        let e = &edits[i];
        assert(apply_upto(original@, edits@, i as nat) matches Ok(w) ==> w.len() < usize::MAX);
        let old = chars_of(e.old_string.as_str());
        let new = chars_of(e.new_string.as_str());
        let n = count(&working, &old);
        if n == 0 {
            let mut m = "edit[".to_owned();
            let d = decimal_string(i as u64);
            push_str(&mut m, d.as_str());
            push_str(&mut m, "]: pattern not found: ");
            push_str(&mut m, e.old_string.as_str());
            assert(apply_upto(original@, edits@, (i + 1) as nat) == apply_one(working@, edits@[i as int], i as nat));
            proof {
                law_first_failure_stands(original@, edits@, (i + 1) as nat, edits@.len() as nat);
            }
            return Err(m);
        }
        if n > 1 && !e.replace_all {
            let mut m = "edit[".to_owned();
            let d = decimal_string(i as u64);
            push_str(&mut m, d.as_str());
            push_str(&mut m, "]: multiple matches (");
            let c = decimal_string(n as u64);
            push_str(&mut m, c.as_str());
            push_str(&mut m, ") without replace_all=true");
            assert(apply_upto(original@, edits@, (i + 1) as nat) == apply_one(working@, edits@[i as int], i as nat));
            proof {
                law_first_failure_stands(original@, edits@, (i + 1) as nat, edits@.len() as nat);
            }
            return Err(m);
        }
        working = if e.replace_all {
            replace(&working, &old, &new)
        } else {
            replace_once(&working, &old, &new)
        };
        assert(apply_upto(original@, edits@, (i + 1) as nat) == apply_one(
            apply_upto(original@, edits@, i as nat)->Ok_0,
            edits@[i as int],
            i as nat,
        ));
        i = i + 1;
    }
    Ok(string_of(&working))
}

/// The report of a successful edit: `{"path": path, "edits_applied": n}`,
/// members in the order `serde_json` keeps them.
pub fn edit_report(path: &str, applied: u64) -> (r: Json)
    ensures
        r@ == JsonV::Object(seq![
            ("edits_applied"@, JsonV::Number(Some(applied), decimal(applied as nat))),
            ("path"@, JsonV::Str(path@)),
        ]),
{
    let mut members: Vec<(String, Json)> = Vec::new();
    let number = crate::json::JsonNumber { unsigned: Some(applied), text: decimal_string(applied) };
    members.push(("edits_applied".to_owned(), Json::Number(number)));
    members.push(("path".to_owned(), Json::Str(path.to_owned())));
    let r = Json::Object(members);
    proof {
        crate::json::lemma_members_view(members@);
        assert(crate::json::json_members_view(members@) =~= seq![
            ("edits_applied"@, JsonV::Number(Some(applied), decimal(applied as nat))),
            ("path"@, JsonV::Str(path@)),
        ]);
    }
    r
}

} // verus!
