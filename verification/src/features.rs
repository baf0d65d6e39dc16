//! The feature flags announced to the management UI.
use vstd::prelude::*;

use crate::text::concat2;

verus! {

/// The texts of `list` separated by `sep`.
pub open spec fn joined(list: Seq<Seq<char>>, sep: Seq<char>) -> Seq<char>
    decreases list.len(),
{
    if list.len() == 0 {
        Seq::empty()
    } else if list.len() == 1 {
        list[0]
    } else {
        joined(list.drop_last(), sep) + sep + list.last()
    }
}

/// The value of the `X-Feature-Flag` header: the enabled flags separated by commas.
pub fn feature_header(flags: &Vec<String>) -> (h: String)
    ensures
        h@ == joined(flags@.map_values(|f: String| f@), ","@),
{
    let ghost views = flags@.map_values(|f: String| f@);
    let mut h = String::new();
    let mut i: usize = 0;
    proof {
        reveal_strlit(",");
        assert(views.subrange(0, 0) =~= Seq::<Seq<char>>::empty());
    }
    while i < flags.len()
        invariant
            i <= flags@.len(),
            views == flags@.map_values(|f: String| f@),
            h@ == joined(views.subrange(0, i as int), ","@),
        decreases flags@.len() - i,
    {
        proof {
            assert(views.subrange(0, i + 1).drop_last() =~= views.subrange(0, i as int));
            assert(views.subrange(0, i + 1).last() == flags@[i as int]@);
        }
        if i == 0 {
            h = flags[i].clone();
        } else {
            let with_sep = concat2(h.as_str(), ",");
            h = concat2(with_sep.as_str(), flags[i].as_str());
        }
        i = i + 1;
    }
    proof {
        assert(views.subrange(0, flags@.len() as int) =~= views);
    }
    h
}

} // verus!
