//! Unix path text: joining a relative path onto a base the way
//! `PathBuf::push` does.
use crate::text::{chars_of, concat, push_str};
use vstd::prelude::*;

verus! {

/// `rel` is absolute: it starts at the root.
pub open spec fn is_absolute(rel: Seq<char>) -> bool {
    rel.len() > 0 && rel[0] == '/'
}

/// `base` joined with `rel`: `rel` itself when it is absolute or `base` is
/// empty, else `rel` after `base` and one separator (none is added after a
/// trailing one).
pub open spec fn join_path(base: Seq<char>, rel: Seq<char>) -> Seq<char> {
    if is_absolute(rel) {
        rel
    } else if base.len() == 0 {
        rel
    } else if base.last() == '/' {
        base + rel
    } else {
        base + "/"@ + rel
    }
}

/// Joins `rel` onto `base` (`Path::join` on Unix).
pub fn join(base: &str, rel: &str) -> (r: String)
    ensures
        r@ == join_path(base@, rel@),
{
    let b = chars_of(base);
    let c = chars_of(rel);
    if c.len() > 0 && c[0] == '/' {
        return rel.to_owned();
    }
    if b.len() == 0 {
        return rel.to_owned();
    }
    if b[b.len() - 1] == '/' {
        return concat(base, rel);
    }
    let mut r = base.to_owned();
    push_str(&mut r, "/");
    push_str(&mut r, rel);
    r
}

/// `p` is absolute (`Path::is_absolute` on Unix).
pub fn absolute(p: &str) -> (r: bool)
    ensures
        r == is_absolute(p@),
{
    let c = chars_of(p);
    c.len() > 0 && c[0] == '/'
}

} // verus!
