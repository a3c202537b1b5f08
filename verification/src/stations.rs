//! Joining station codes into the query string the weather feed expects.

use vstd::prelude::*;

verus! {

/// The codes joined by single commas, no other separator: empty for no
/// codes, the code itself for one, and each further code appended after a
/// comma.
pub open spec fn join_commas(xs: Seq<Seq<char>>) -> Seq<char>
    decreases xs,
{
    if xs.len() == 0 {
        Seq::empty()
    } else if xs.len() == 1 {
        xs[0]
    } else {
        join_commas(xs.drop_last()) + ","@ + xs.last()
    }
}

/// Join station codes into the feed's comma-separated station string.
pub fn site_string(sites: &Vec<String>) -> (r: String)
    ensures
        r@ == join_commas(sites@.map_values(|s: String| s@)),
{
    let ghost views = sites@.map_values(|s: String| s@);
    let mut r = String::new();
    let mut i: usize = 0;
    while i < sites.len()
        invariant
            i <= sites.len(),
            views == sites@.map_values(|s: String| s@),
            views.len() == sites@.len(),
            r@ == join_commas(views.take(i as int)),
        decreases sites.len() - i,
    {
        if i > 0 {
            r.append(",");
        }
        r.append(sites[i].as_str());
        proof {
            assert(views.take(i as int + 1).drop_last() =~= views.take(i as int));
            assert(views.take(i as int + 1).last() == views[i as int]);
            if i == 0 {
                assert(r@ =~= join_commas(views.take(1)));
            } else {
                assert(r@ =~= join_commas(views.take(i as int + 1)));
            }
        }
        i += 1;
    }
    proof {
        assert(views.take(views.len() as int) =~= views);
    }
    r
}

} // verus!
