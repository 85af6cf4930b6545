//! The order in which package names are listed.

use itertools::Itertools;
use vstd::prelude::*;

verus! {

/// Whether `a` comes before `b`, or is `b`, in the lexicographic order of
/// their characters' code points: the order of `str`.
pub open spec fn precedes(a: Seq<char>, b: Seq<char>) -> bool
    decreases a.len(),
{
    if a.len() == 0 {
        true
    } else if b.len() == 0 {
        false
    } else if a[0] != b[0] {
        (a[0] as u32) < (b[0] as u32)
    } else {
        precedes(a.drop_first(), b.drop_first())
    }
}

/// Whether `order` lists every position of `names` once, by ascending name,
/// positions with equal names in ascending order.
pub open spec fn is_name_order(order: Seq<usize>, names: Seq<Seq<char>>) -> bool {
    &&& order.len() == names.len()
    &&& forall|k: int| 0 <= k < order.len() ==> #[trigger] order[k] < names.len()
    &&& forall|i: int, j: int| 0 <= i < j < order.len() ==> #[trigger] order[i] != #[trigger] order[j]
    &&& forall|i: int, j: int|
        0 <= i < j < order.len() ==> precedes(
            names[#[trigger] order[i] as int],
            names[#[trigger] order[j] as int],
        )
    &&& forall|i: int, j: int|
        0 <= i < j < order.len() && names[#[trigger] order[i] as int] == names[#[trigger] order[j] as int]
            ==> order[i] < order[j]
}

/// The texts that strings hold.
pub open spec fn texts(strings: Seq<String>) -> Seq<Seq<char>> {
    strings.map_values(|s: String| s@)
}

/// `Itertools::sorted_by_key` on the positions of `names`, keyed by the name
/// at each position. It sorts with `slice::sort_by_key`, which is stable, and
/// `String` orders by code points: the result lists the positions by
/// ascending name, equal names in their given order.
#[verifier::external_body]
pub(crate) fn name_order(names: &Vec<String>) -> (order: Vec<usize>)
    ensures
        is_name_order(order@, texts(names@)),
{
    (0..names.len()).sorted_by_key(|&position| &names[position]).collect()
}

} // verus!
