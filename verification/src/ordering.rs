//! Stable sorting of listings by a rank: frame records by frame id and
//! recorded sessions newest first.

use vstd::prelude::*;

verus! {

/// A value listed in order of a numeric rank.
pub trait Ranked: Sized {
    spec fn rank(&self) -> int;

    fn rank_value(&self) -> (r: i128)
        ensures
            r == self.rank(),
    ;
}

/// `output` is `input` stably sorted by ascending rank: an arrangement
/// `origin` of the input positions in which ranks never decrease and items of
/// equal rank keep their input order.
pub open spec fn stably_sorted_from<T: Ranked>(
    input: Seq<T>,
    output: Seq<T>,
    origin: Seq<int>,
) -> bool {
    &&& origin.len() == output.len()
    &&& output.len() == input.len()
    &&& forall|k: int| 0 <= k < origin.len() ==> 0 <= #[trigger] origin[k] < input.len()
    &&& forall|k: int| 0 <= k < origin.len() ==> output[k] == input[#[trigger] origin[k]]
    &&& forall|k: int, l: int| 0 <= k < l < origin.len() ==> origin[k] != origin[l]
    &&& forall|k: int, l: int| 0 <= k < l < output.len() ==> output[k].rank() <= output[l].rank()
    &&& forall|k: int, l: int|
        0 <= k < l < output.len() && output[k].rank() == output[l].rank() ==> origin[k]
            < origin[l]
}

pub open spec fn is_stable_sort<T: Ranked>(input: Seq<T>, output: Seq<T>) -> bool {
    exists|origin: Seq<int>| stably_sorted_from(input, output, origin)
}

/// Partial progress of the insertion: `output` holds the first `n` inputs.
spec fn sorted_prefix<T: Ranked>(input: Seq<T>, n: int, output: Seq<T>, origin: Seq<int>) -> bool {
    &&& origin.len() == output.len()
    &&& output.len() == n
    &&& forall|k: int| 0 <= k < origin.len() ==> 0 <= #[trigger] origin[k] < n
    &&& forall|k: int| 0 <= k < origin.len() ==> output[k] == input[#[trigger] origin[k]]
    &&& forall|k: int, l: int| 0 <= k < l < origin.len() ==> origin[k] != origin[l]
    &&& forall|k: int, l: int| 0 <= k < l < output.len() ==> output[k].rank() <= output[l].rank()
    &&& forall|k: int, l: int|
        0 <= k < l < output.len() && output[k].rank() == output[l].rank() ==> origin[k]
            < origin[l]
}

/// Sorts by ascending rank, keeping items of equal rank in their input order
/// (as a stable sort by key does). Already ordered input costs one comparison
/// per item.
pub fn stable_sort_by_rank<T: Ranked>(items: Vec<T>) -> (sorted: Vec<T>)
    ensures
        is_stable_sort(items@, sorted@),
{
    let ghost input = items@;
    let n = items.len();
    let mut items = items;
    // Reverse the input so that popping yields it in order.
    let mut pending: Vec<T> = Vec::new();
    while items.len() > 0
        invariant
            pending@.len() + items@.len() == n,
            n == input.len(),
            items@ == input.subrange(0, items@.len() as int),
            forall|k: int| 0 <= k < pending@.len() ==> #[trigger] pending@[k] == input[n - 1 - k],
        decreases items@.len(),
    {
        let x = items.pop().unwrap();
        pending.push(x);
        assert(items@ =~= input.subrange(0, items@.len() as int));
    }
    let mut sorted: Vec<T> = Vec::new();
    let ghost mut origin: Seq<int> = Seq::empty();
    let mut taken: usize = 0;
    while pending.len() > 0
        invariant
            n == input.len(),
            taken + pending@.len() == n,
            forall|k: int| 0 <= k < pending@.len() ==> #[trigger] pending@[k] == input[n - 1 - k],
            sorted_prefix(input, taken as int, sorted@, origin),
        decreases pending@.len(),
    {
        let x = pending.pop().unwrap();
        assert(x == input[taken as int]);
        let rank = x.rank_value();
        // Insert after every item of lower or equal rank.
        let mut pos = sorted.len();
        while pos > 0 && sorted[pos - 1].rank_value() > rank
            invariant
                pos <= sorted@.len(),
                forall|k: int| pos <= k < sorted@.len() ==> (#[trigger] sorted@[k]).rank() > rank,
            decreases pos,
        {
            pos = pos - 1;
        }
        let ghost before = sorted@;
        let ghost old_origin = origin;
        proof {
            assert(pos == 0 || sorted@[pos - 1].rank() <= rank);
        }
        sorted.insert(pos, x);
        proof {
            origin = old_origin.insert(pos as int, taken as int);
            assert forall|k: int| 0 <= k < origin.len() implies 0 <= #[trigger] origin[k] < taken
                + 1 by {
                if k < pos {
                    assert(origin[k] == old_origin[k]);
                } else if k > pos {
                    assert(origin[k] == old_origin[k - 1]);
                }
            }
            assert forall|k: int| 0 <= k < origin.len() implies sorted@[k] == input[
                #[trigger] origin[k]
            ] by {
                if k < pos {
                    assert(origin[k] == old_origin[k]);
                    assert(sorted@[k] == before[k]);
                } else if k > pos {
                    assert(origin[k] == old_origin[k - 1]);
                    assert(sorted@[k] == before[k - 1]);
                }
            }
            assert forall|k: int, l: int| 0 <= k < l < origin.len() implies origin[k]
                != origin[l] by {
                if k != pos && l != pos {
                    let kk = if k < pos { k } else { k - 1 };
                    let ll = if l < pos { l } else { l - 1 };
                    assert(origin[k] == old_origin[kk]);
                    assert(origin[l] == old_origin[ll]);
                } else if k == pos {
                    assert(origin[l] == old_origin[l - 1]);
                } else {
                    assert(origin[k] == old_origin[k]);
                }
            }
            assert forall|k: int, l: int| 0 <= k < l < sorted@.len() implies sorted@[k].rank()
                <= sorted@[l].rank() by {
                if k != pos && l != pos {
                    let kk = if k < pos { k } else { k - 1 };
                    let ll = if l < pos { l } else { l - 1 };
                    assert(sorted@[k] == before[kk]);
                    assert(sorted@[l] == before[ll]);
                } else if k == pos {
                    assert(sorted@[l] == before[l - 1]);
                } else {
                    assert(sorted@[k] == before[k]);
                    if k < pos - 1 {
                        assert(before[k].rank() <= before[pos - 1].rank());
                    }
                }
            }
            assert forall|k: int, l: int|
                0 <= k < l < sorted@.len() && sorted@[k].rank() == sorted@[l].rank() implies origin[k]
                < origin[l] by {
                if k != pos && l != pos {
                    let kk = if k < pos { k } else { k - 1 };
                    let ll = if l < pos { l } else { l - 1 };
                    assert(sorted@[k] == before[kk]);
                    assert(sorted@[l] == before[ll]);
                    assert(origin[k] == old_origin[kk]);
                    assert(origin[l] == old_origin[ll]);
                } else if k == pos {
                    assert(sorted@[l] == before[l - 1]);
                } else {
                    assert(sorted@[k] == before[k]);
                    assert(origin[k] == old_origin[k]);
                }
            }
        }
        taken = taken + 1;
    }
    assert(stably_sorted_from(input, sorted@, origin));
    sorted
}

} // verus!
