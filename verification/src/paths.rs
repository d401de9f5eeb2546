//! Slash-separated identity paths.  A fingerprint's identity is a
//! relative path whose components are joined by '/'; rebasing strips a
//! root prefix so that both stores name the same logical file alike.

use vstd::prelude::*;

verus! {

/// `name` appended to `base` with a '/' separator; an empty base
/// leaves `name` unchanged.
pub open spec fn spec_join(base: Seq<char>, name: Seq<char>) -> Seq<char> {
    if base.len() == 0 {
        name
    } else {
        base + seq!['/'] + name
    }
}

/// The path left when `prefix` and the '/' after it are removed, if
/// `path` lies under `prefix`.  An empty prefix strips nothing; a path
/// equal to the prefix strips to the empty path.
pub open spec fn spec_strip_prefix(path: Seq<char>, prefix: Seq<char>) -> Option<Seq<char>> {
    if prefix.len() == 0 {
        Some(path)
    } else if path == prefix {
        Some(Seq::empty())
    } else if path.len() > prefix.len() && path.subrange(0, prefix.len() as int) == prefix
        && path[prefix.len() as int] == '/' {
        Some(path.skip(prefix.len() as int + 1))
    } else {
        None
    }
}

/// Join two path pieces with a '/' separator.
pub fn join_path(base: &str, name: &str) -> (r: String)
    ensures
        r@ == spec_join(base@, name@),
{
    if base.is_empty() {
        name.to_owned()
    } else {
        let mut joined = base.to_owned();
        joined.append("/");
        joined.append(name);
        proof {
            reveal_strlit("/");
            assert(("/")@ =~= seq!['/']);
        }
        joined
    }
}

} // verus!
