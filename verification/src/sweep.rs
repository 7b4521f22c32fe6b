//! Taking things away: what stays of a row when some of it is marked as gone.

use vstd::prelude::*;

verus! {

/// Whether place `i` is marked in `gone`. A place beyond the marks is not.
pub open spec fn marked(gone: Seq<bool>, i: int) -> bool {
    0 <= i < gone.len() && gone[i]
}

/// The first `n` of `items` without those that `gone` marks, in their order.
pub open spec fn kept<T>(items: Seq<T>, gone: Seq<bool>, n: int) -> Seq<T>
    decreases n,
{
    if n <= 0 {
        Seq::empty()
    } else if marked(gone, n - 1) {
        kept(items, gone, n - 1)
    } else {
        kept(items, gone, n - 1).push(items[n - 1])
    }
}

/// The items that are not marked as gone, in their order.
pub fn discard<T: Copy>(items: &Vec<T>, gone: &Vec<bool>) -> (rest: Vec<T>)
    ensures
        rest@ == kept(items@, gone@, items@.len() as int),
{
    let mut rest: Vec<T> = Vec::new();
    let n: usize = items.len();
    let mut i: usize = 0;
    while i < n
        invariant
            0 <= i <= n,
            n == items@.len(),
            rest@ == kept(items@, gone@, i as int),
        decreases n - i,
    {
        if i < gone.len() && gone[i] {
        } else {
            rest.push(items[i]);
        }
        i = i + 1;
    }
    rest
}

/// Whether `x` is one of the first `n` items and not marked as gone.
pub open spec fn stays<T>(items: Seq<T>, gone: Seq<bool>, n: int, x: T) -> bool {
    exists|i: int| #![trigger items[i]] 0 <= i < n && !marked(gone, i) && items[i] == x
}

/// Everything kept was there before and was not marked.
pub proof fn lemma_kept_sound<T>(items: Seq<T>, gone: Seq<bool>, n: int)
    requires
        0 <= n <= items.len(),
    ensures
        kept(items, gone, n).len() <= n,
        forall|k: int|
            0 <= k < kept(items, gone, n).len() ==> stays(
                items,
                gone,
                n,
                #[trigger] kept(items, gone, n)[k],
            ),
    decreases n,
{
    if n > 0 {
        lemma_kept_sound(items, gone, n - 1);
        let prev = kept(items, gone, n - 1);
        let now = kept(items, gone, n);
        assert forall|k: int| 0 <= k < now.len() implies stays(items, gone, n, #[trigger] now[k]) by {
            if k < prev.len() {
                assert(stays(items, gone, n - 1, prev[k]));
                let i = choose|i: int|
                    #![trigger items[i]]
                    0 <= i < n - 1 && !marked(gone, i) && items[i] == prev[k];
                assert(0 <= i < n && !marked(gone, i) && items[i] == now[k]);
            } else {
                assert(!marked(gone, n - 1) && items[n - 1] == now[k]);
            }
        }
    }
}

/// What is kept of the first `n` items depends on nothing but those items
/// and their marks.
pub proof fn lemma_kept_prefix<T>(a: Seq<T>, ga: Seq<bool>, b: Seq<T>, gb: Seq<bool>, n: int)
    requires
        0 <= n <= a.len(),
        n <= b.len(),
        forall|i: int|
            #![trigger a[i]]
            0 <= i < n ==> a[i] == b[i] && marked(ga, i) == marked(gb, i),
    ensures
        kept(a, ga, n) == kept(b, gb, n),
    decreases n,
{
    if n > 0 {
        lemma_kept_prefix(a, ga, b, gb, n - 1);
    }
}

} // verus!
