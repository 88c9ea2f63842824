//! Building lists of texts, whose views the contracts speak of.

use vstd::prelude::*;
use crate::text::copy_str;

verus! {

/// Whether `x` is one of the texts.
pub fn holds(list: &Vec<String>, x: &str) -> (b: bool)
    ensures
        b == list.deep_view().contains(x@),
{
    let key = copy_str(x);
    let mut i: usize = 0;
    while i < list.len()
        invariant
            i <= list.len(),
            key@ == x@,
            forall|j: int| 0 <= j < i ==> list.deep_view()[j] != x@,
        decreases list.len() - i,
    {
        if list[i] == key {
            proof {
                assert(list.deep_view()[i as int] == x@);
            }
            return true;
        }
        i += 1;
    }
    false
}

/// Appends one text.
pub fn put_text(list: &mut Vec<String>, x: String)
    ensures
        final(list).deep_view() == old(list).deep_view().push(x@),
{
    list.push(x);
    proof {
        assert(list.deep_view() =~= old(list).deep_view().push(x@));
    }
}

/// Appends one pair of texts.
pub fn put_pair(list: &mut Vec<(String, String)>, first: String, second: String)
    ensures
        final(list).deep_view() == old(list).deep_view().push((first@, second@)),
{
    list.push((first, second));
    proof {
        assert(list.deep_view() =~= old(list).deep_view().push((first@, second@)));
    }
}

} // verus!
