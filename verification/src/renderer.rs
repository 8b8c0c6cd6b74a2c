//! The aggregation step of the bin-packing summary: the sibling feature
//! counts how many distinct material, package, batch, and container-type
//! categories a load plan uses.
//!
//! Each scan reduces a list of labels to its distinct members; the count is
//! the reduced list's length. The scans are independent and read-only, so a
//! caller may run them concurrently and join the results.

use vstd::prelude::*;

use crate::gantt::strings_model;
use crate::task_dto::{dedup, push_label};

verus! {

/// The distinct labels of a list, in first-seen order.
pub fn distinct_labels(labels: &Vec<String>) -> (r: Vec<String>)
    ensures
        strings_model(r@) == dedup(strings_model(labels@)),
{
    let mut r: Vec<String> = Vec::new();
    proof {
        assert(strings_model(r@) =~= dedup(Seq::<Seq<char>>::empty()));
        assert(strings_model(labels@).take(0) =~= Seq::<Seq<char>>::empty());
    }
    let mut i: usize = 0;
    while i < labels.len()
        invariant
            i <= labels@.len(),
            strings_model(r@) == dedup(strings_model(labels@).take(i as int)),
        decreases labels@.len() - i,
    {
        push_label(&mut r, &labels[i], Ghost(strings_model(labels@).take(i as int)));
        proof {
            assert(strings_model(labels@).take(i as int + 1) =~= strings_model(labels@).take(
                i as int,
            ).push(labels@[i as int]@));
        }
        i = i + 1;
    }
    proof {
        assert(strings_model(labels@).take(labels@.len() as int) =~= strings_model(labels@));
    }
    r
}

} // verus!
