//! Following one orbit: how many passes are made before it is given up.
//!
//! The arithmetic of the orbit is not done here. Whoever follows an orbit
//! starts with no pass made, looks at the point before every pass, tells
//! `next_pass` whether it still lies in the disc of radius 2 around the
//! origin, and makes the pass only when told to. The count at which
//! `next_pass` says no is the one the pixel is coloured by.

use vstd::prelude::*;

verus! {

/// What follows `passes` passes: one more, if the point is still inside and
/// the bound has not been reached, else nothing.
pub open spec fn next_pass_of(passes: int, inside: bool, max_iterations: int) -> Option<int> {
    if inside && passes < max_iterations {
        Some(passes + 1)
    } else {
        None
    }
}

/// `counts` is what the pass count goes through while one orbit is followed:
/// it starts at 0, and each count but the last one is followed by the next
/// as `next_pass_of` says for the look taken at that count.
pub open spec fn is_run(counts: Seq<int>, looks: Seq<bool>, max_iterations: int) -> bool {
    &&& counts.len() > 0
    &&& looks.len() + 1 == counts.len()
    &&& counts[0] == 0
    &&& forall|k: int|
        0 <= k < looks.len() ==> next_pass_of(#[trigger] counts[k], looks[k], max_iterations)
            == Some(counts[k + 1])
}

/// Decides whether an orbit that has survived `passes` passes is followed
/// for one more: it is, if its point is still `inside` the disc and fewer
/// than `max_iterations` passes have been made. The new count is handed back,
/// and it is never more than `max_iterations`.
pub fn next_pass(passes: u32, inside: bool, max_iterations: u32) -> (next: Option<u32>)
    ensures
        next_pass_of(passes as int, inside, max_iterations as int) == match next {
            Some(count) => Some(count as int),
            None => None,
        },
        next matches Some(count) ==> count <= max_iterations,
{
    if inside && passes < max_iterations {
        Some(passes + 1)
    } else {
        None
    }
}

/// However the looks at an orbit turn out, the pass count never leaves the
/// range from 0 to `max_iterations`: the count after `k` steps is `k`, and
/// no run is longer than the bound allows.
pub proof fn lemma_passes_bounded(counts: Seq<int>, looks: Seq<bool>, max_iterations: int)
    requires
        0 <= max_iterations,
        is_run(counts, looks, max_iterations),
    ensures
        forall|k: int| 0 <= k < counts.len() ==> #[trigger] counts[k] == k,
        forall|k: int| 0 <= k < counts.len() ==> 0 <= #[trigger] counts[k] <= max_iterations,
    decreases counts.len(),
{
    if counts.len() > 1 {
        let earlier = counts.drop_last();
        let earlier_looks = looks.drop_last();
        assert forall|k: int| 0 <= k < earlier_looks.len() implies next_pass_of(
            #[trigger] earlier[k],
            earlier_looks[k],
            max_iterations,
        ) == Some(earlier[k + 1]) by {
            assert(next_pass_of(counts[k], looks[k], max_iterations) == Some(counts[k + 1]));
        }
        lemma_passes_bounded(earlier, earlier_looks, max_iterations);
        let last = counts.len() - 2;
        assert(earlier[last] == last);
        assert(next_pass_of(counts[last], looks[last], max_iterations) == Some(counts[last + 1]));
        assert forall|k: int| 0 <= k < counts.len() implies #[trigger] counts[k] == k by {
            if k < counts.len() - 1 {
                assert(earlier[k] == k);
            }
        }
        assert forall|k: int| 0 <= k < counts.len() implies 0 <= #[trigger] counts[k]
            <= max_iterations by {
            if k < counts.len() - 1 {
                assert(0 <= earlier[k] <= max_iterations);
            }
        }
    }
}

} // verus!
