//! Paths as texts.
use crate::text::chars_of;
use vstd::prelude::*;

verus! {

/// `leaf` under the directory `base`: an absolute leaf stands for itself, an
/// empty base adds nothing, and one separator stands between the two.
pub open spec fn joined(base: Seq<char>, leaf: Seq<char>) -> Seq<char> {
    if leaf.len() > 0 && leaf[0] == '/' {
        leaf
    } else if base.len() == 0 || base.last() == '/' {
        base + leaf
    } else {
        base + "/"@ + leaf
    }
}

/// `leaf` under the directory `base`.
pub fn join_path(base: &str, leaf: &str) -> (out: String)
    ensures
        out@ == joined(base@, leaf@),
{
    let b: Vec<char> = chars_of(base);
    let l: Vec<char> = chars_of(leaf);
    if l.len() > 0 && l[0] == '/' {
        return leaf.to_owned();
    }
    let mut out: String = base.to_owned();
    if b.len() > 0 && b[b.len() - 1] != '/' {
        out.append("/");
    }
    out.append(leaf);
    out
}

/// An absolute path stands for itself; any other stands below the base, with one
/// slash between them.
pub proof fn law_joined_paths(base: Seq<char>, leaf: Seq<char>)
    ensures
        leaf.len() > 0 && leaf[0] == '/' ==> joined(base, leaf) == leaf,
        !(leaf.len() > 0 && leaf[0] == '/') ==> {
            &&& base.len() == 0 ==> joined(base, leaf) == leaf
            &&& base.len() > 0 && base.last() == '/' ==> joined(base, leaf) == base + leaf
            &&& base.len() > 0 && base.last() != '/' ==> joined(base, leaf) == base.push('/') + leaf
        },
{
    reveal_strlit("/");
    assert("/"@ =~= seq!['/']);
    assert(base + "/"@ =~= base.push('/'));
    if base.len() == 0 {
        assert(base + leaf =~= leaf);
    }
}

} // verus!
