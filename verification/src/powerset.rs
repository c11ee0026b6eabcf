//! The set of all subsets of a list of numbers.
use vstd::prelude::*;

verus! {

/// Every subset of `set`, as a list in the order of `set`: the subsets
/// without the last element first, then the same subsets with that element
/// added at their end.
pub open spec fn subsets(set: Seq<i32>) -> Seq<Seq<i32>>
    decreases set.len(),
{
    if set.len() == 0 {
        seq![Seq::<i32>::empty()]
    } else {
        let before = subsets(set.drop_last());
        before + Seq::new(before.len(), |i: int| before[i].push(set.last()))
    }
}

/// The lists that the vectors hold.
pub open spec fn views(lists: Seq<Vec<i32>>) -> Seq<Seq<i32>> {
    Seq::new(lists.len(), |i: int| lists[i]@)
}

fn copy_of(list: &Vec<i32>) -> (copy: Vec<i32>)
    ensures
        copy@ == list@,
{
    let mut copy: Vec<i32> = Vec::new();
    let mut i: usize = 0;
    while i < list.len()
        invariant
            i <= list.len(),
            copy@ == list@.take(i as int),
        decreases list.len() - i,
    {
        copy.push(list[i]);
        i = i + 1;
        assert(list@.take(i as int) =~= list@.take(i - 1).push(list@[i - 1]));
    }
    assert(list@.take(i as int) =~= list@);
    copy
}

/// Lists every subset of `set`.
pub fn powerset(set: Vec<i32>) -> (all: Vec<Vec<i32>>)
    ensures
        views(all@) == subsets(set@),
{
    let mut all: Vec<Vec<i32>> = Vec::new();
    all.push(Vec::new());
    assert(views(all@) =~= subsets(set@.take(0)));
    let mut n: usize = 0;
    while n < set.len()
        invariant
            n <= set.len(),
            views(all@) == subsets(set@.take(n as int)),
        decreases set.len() - n,
    {
        let value = set[n];
        let ghost before = views(all@);
        let known = all.len();
        let mut i: usize = 0;
        while i < known
            invariant
                i <= known,
                known == before.len(),
                all.len() == known + i,
                views(all@) == before + Seq::new(i as nat, |j: int| before[j].push(value)),
            decreases known - i,
        {
            let ghost earlier = all@;
            let mut subset = copy_of(&all[i]);
            assert(subset@ == before[i as int]) by {
                assert(views(all@)[i as int] == all@[i as int]@);
            }
            subset.push(value);
            all.push(subset);
            i = i + 1;
            proof {
                let target = before + Seq::new(i as nat, |j: int| before[j].push(value));
                assert forall|j: int| 0 <= j < target.len() implies views(all@)[j] == target[j] by {
                    if j < earlier.len() {
                        assert(all@[j] == earlier[j]);
                        assert(views(earlier)[j] == earlier[j]@);
                    }
                }
                assert(views(all@) =~= target);
            }
        }
        n = n + 1;
        proof {
            let prefix = set@.take(n as int);
            assert(prefix.drop_last() =~= set@.take(n - 1));
            assert(prefix.last() == value);
        }
    }
    assert(set@.take(n as int) =~= set@);
    all
}

} // verus!
