//! File paths, as text.

use vstd::prelude::*;

use crate::text::{ends_with, starts_with};

verus! {

/// `path` seen from `base`: an absolute path stands for itself.
pub open spec fn joined_path(base: Seq<char>, path: Seq<char>) -> Seq<char> {
    if path.len() > 0 && path[0] == '/' {
        path
    } else if base.len() == 0 || base.last() == '/' {
        base + path
    } else {
        base.push('/') + path
    }
}

/// `path` seen from `base`.
pub fn join_path(base: &str, path: &str) -> (out: String)
    ensures
        out@ == joined_path(base@, path@),
{
    proof {
        reveal_strlit("/");
    }
    if starts_with(path, "/") {
        assert("/"@[0] == path@.subrange(0, 1)[0]);
        return path.to_owned();
    }
    assert(path@.len() > 0 && path@[0] == '/' ==> "/"@ =~= path@.subrange(0, 1));
    let mut out = base.to_owned();
    let slashed: bool = ends_with(base, "/");
    assert(slashed ==> "/"@[0] == base@.subrange(base@.len() - 1, base@.len() as int)[0]);
    assert(base@.len() > 0 && base@.last() == '/' ==> "/"@ =~= base@.subrange(
        base@.len() - 1,
        base@.len() as int,
    ));
    if !base.is_empty() && !slashed {
        out.push('/');
    }
    out.append(path);
    assert(out@ =~= joined_path(base@, path@));
    out
}

/// A path is looked up below its directory, with one slash between the two, and an absolute path
/// where it says.
pub proof fn law_paths_are_looked_up(base: Seq<char>, path: Seq<char>)
    requires
        path.len() > 0,
    ensures
        path[0] == '/' ==> joined_path(base, path) == path,
        path[0] != '/' && base.len() > 0 && base.last() != '/' ==> joined_path(base, path) == base
            + seq!['/'] + path,
        path[0] != '/' && base.len() > 0 ==> joined_path(base.push('/'), path) == base + seq!['/']
            + path,
{
    assert(base.push('/') =~= base + seq!['/']);
}

} // verus!
