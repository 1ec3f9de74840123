//! Joining a list of already-rendered items into one line of
//! diagnostic text, with `", "` between neighbours and nothing after
//! the last — the shape in which bound addresses are listed.

use vstd::prelude::*;

verus! {

/// The items joined with `", "` between neighbours.
pub open spec fn joined(parts: Seq<Seq<char>>) -> Seq<char>
    decreases parts.len(),
{
    if parts.len() == 0 {
        Seq::empty()
    } else if parts.len() == 1 {
        parts[0]
    } else {
        joined(parts.drop_last()) + ", "@ + parts.last()
    }
}

/// Joins the parts with `", "`, leaving no trailing separator.
pub fn join_displayed(parts: &Vec<String>) -> (line: String)
    ensures
        line@ == joined(parts@.map_values(|s: String| s@)),
{
    let ghost views = parts@.map_values(|s: String| s@);
    let n = parts.len();
    let mut line = String::new();
    let mut i: usize = 0;
    while i < n
        invariant
            n == parts@.len(),
            0 <= i <= n,
            line@ == joined(views.take(i as int)),
        decreases n - i,
    {
        proof {
            assert(views.take(i + 1).drop_last() =~= views.take(i as int));
            assert(views.take(i + 1).last() == parts@[i as int]@);
        }
        if i > 0 {
            line.append(", ");
        } else {
            proof {
                assert(line@ + parts@[i as int]@ =~= parts@[i as int]@);
            }
        }
        line.append(parts[i].as_str());
        i += 1;
    }
    proof {
        assert(views.take(n as int) =~= views);
    }
    line
}

} // verus!
