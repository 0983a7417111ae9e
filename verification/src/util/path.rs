//! Joining of path components with the separator rules of Unix paths

use vstd::prelude::*;
use vstd::string::{StrSliceExecFns, StringExecFns};

verus! {

/// Pushes component `c` onto path `p`: an absolute component (one that starts
/// with `/`) replaces the path; otherwise a separator is added when the path
/// is non-empty and does not already end with one
pub open spec fn path_push(p: Seq<char>, c: Seq<char>) -> Seq<char> {
    if c.len() > 0 && c[0] == '/' {
        c
    } else if p.len() > 0 && p.last() != '/' {
        p + seq!['/'] + c
    } else {
        p + c
    }
}

/// The path made by pushing each of `parts` in turn onto an empty path
pub open spec fn join_spec(parts: Seq<Seq<char>>) -> Seq<char>
    decreases parts.len(),
{
    if parts.len() == 0 {
        Seq::empty()
    } else {
        path_push(join_spec(parts.drop_last()), parts.last())
    }
}

/// The views of a slice of string slices
pub open spec fn str_views(s: Seq<&str>) -> Seq<Seq<char>> {
    s.map_values(|x: &str| x@)
}

/// Pushes component `c` onto the path `p`
pub fn push_path(p: &mut String, c: &str)
    ensures
        final(p)@ == path_push(old(p)@, c@),
{
    let clen = c.unicode_len();
    if clen > 0 && c.get_char(0) == '/' {
        *p = c.to_owned();
        return;
    }
    let plen = p.as_str().unicode_len();
    if plen > 0 && p.as_str().get_char(plen - 1) != '/' {
        let sep = "/";
        proof {
            reveal_strlit("/");
        }
        p.append(sep);
        p.append(c);
        assert(p@ =~= path_push(old(p)@, c@));
    } else {
        p.append(c);
    }
}

/// Joins the given components into a path
pub fn join_parts(parts: &[&str]) -> (r: String)
    ensures
        r@ == join_spec(str_views(parts@)),
{
    let mut path = String::new();
    let mut i: usize = 0;
    assert(str_views(parts@.subrange(0, 0)) =~= Seq::<Seq<char>>::empty());
    while i < parts.len()
        invariant
            i <= parts@.len(),
            path@ == join_spec(str_views(parts@.subrange(0, i as int))),
        decreases parts@.len() - i,
    {
        push_path(&mut path, parts[i]);
        assert(str_views(parts@.subrange(0, i + 1)).drop_last() =~= str_views(
            parts@.subrange(0, i as int),
        ));
        i += 1;
    }
    assert(parts@.subrange(0, parts@.len() as int) =~= parts@);
    path
}

} // verus!
