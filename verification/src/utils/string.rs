use vstd::prelude::*;

use crate::utils::filter::strings_view;
use crate::utils::text::{push_str, string_from_chars};

verus! {

/// The pieces joined in order with `sep` between each two neighbours.
pub open spec fn join_seqs(items: Seq<Seq<char>>, sep: Seq<char>) -> Seq<char>
    decreases items.len(),
{
    if items.len() == 0 {
        Seq::empty()
    } else if items.len() == 1 {
        items[0]
    } else {
        join_seqs(items.drop_last(), sep) + sep + items.last()
    }
}

/// Joins the items with `sep` between each two neighbours.
pub fn join_iter_string(items: &[String], sep: &str) -> (result: String)
    ensures
        result@ == join_seqs(strings_view(items@), sep@),
{
    let mut result = String::new();
    let mut i: usize = 0;
    while i < items.len()
        invariant
            i <= items@.len(),
            result@ == join_seqs(strings_view(items@).take(i as int), sep@),
        decreases items@.len() - i,
    {
        let ghost before = strings_view(items@).take(i as int);
        if i > 0 {
            push_str(&mut result, sep);
        }
        push_str(&mut result, items[i].as_str());
        proof {
            let after = strings_view(items@).take(i + 1);
            assert(after.drop_last() == before);
            assert(after.last() == items@[i as int]@);
            if i == 0 {
                assert(after.len() == 1);
            }
        }
        i = i + 1;
    }
    proof {
        assert(strings_view(items@).take(items@.len() as int) == strings_view(items@));
    }
    result
}

} // verus!
