//! Joining file-system paths held as text, the way `Path::join` does: a
//! relative part is added after one `/` (none added when the base is empty
//! or already ends with one); an absolute part replaces the base.

use vstd::prelude::*;

use crate::text::{chars_of, push_str};

verus! {

broadcast use vstd::string::group_string_axioms;

/// `base` joined with the path `rel`.
pub open spec fn join_spec(base: Seq<char>, rel: Seq<char>) -> Seq<char> {
    if rel.len() > 0 && rel[0] == '/' {
        rel
    } else if base.len() == 0 || base.last() == '/' {
        base + rel
    } else {
        base + "/"@ + rel
    }
}

/// `base` joined with the path `rel`; an absolute `rel` (one that starts
/// with `/`) replaces the base.
pub fn join_path(base: &str, rel: &str) -> (r: String)
    ensures
        r@ == join_spec(base@, rel@),
{
    let rs = chars_of(rel);
    let mut out = String::new();
    if rs.len() > 0 && rs[0] == '/' {
        push_str(&mut out, rel);
        return out;
    }
    let cs = chars_of(base);
    push_str(&mut out, base);
    if cs.len() > 0 && cs[cs.len() - 1] != '/' {
        push_str(&mut out, "/");
    }
    push_str(&mut out, rel);
    out
}

} // verus!
