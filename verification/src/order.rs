//! The order in which the players of a team are listed: by a key, and among equal keys in the
//! order received.

use vstd::prelude::*;

verus! {

/// `order` with the place `i` put in by its key: behind every place whose key is not greater.
pub open spec fn placed(order: Seq<usize>, keys: Seq<u64>, i: usize) -> Seq<usize>
    decreases order.len(),
{
    if order.len() > 0 && keys[order.last() as int] > keys[i as int] {
        placed(order.drop_last(), keys, i).push(order.last())
    } else {
        order.push(i)
    }
}

/// The first `n` places of `keys`, listed by key; among equal keys the earlier place first.
pub open spec fn listed(keys: Seq<u64>, n: nat) -> Seq<usize>
    decreases n,
{
    if n == 0 {
        Seq::empty()
    } else {
        placed(listed(keys, (n - 1) as nat), keys, (n - 1) as usize)
    }
}

/// The places of `keys`, listed by key; among equal keys the earlier place first.
pub open spec fn sorted_order(keys: Seq<u64>) -> Seq<usize> {
    listed(keys, keys.len())
}

/// Whether the place `a` is listed before the place `b`: its key is smaller, or the keys are
/// equal and it comes first.
pub open spec fn goes_before(keys: Seq<u64>, a: usize, b: usize) -> bool {
    keys[a as int] < keys[b as int] || (keys[a as int] == keys[b as int] && a < b)
}

/// Whether `order` lists places below `bound`, each before the next.
pub open spec fn is_listing(order: Seq<usize>, keys: Seq<u64>, bound: int) -> bool {
    &&& forall|a: int| 0 <= a < order.len() ==> 0 <= #[trigger] order[a] < bound
    &&& forall|a: int, b: int|
        0 <= a < b < order.len() ==> goes_before(keys, #[trigger] order[a], #[trigger] order[b])
}

proof fn lemma_placed(order: Seq<usize>, keys: Seq<u64>, i: usize)
    requires
        i < keys.len(),
        is_listing(order, keys, i as int),
    ensures
        placed(order, keys, i).len() == order.len() + 1,
        is_listing(placed(order, keys, i), keys, i + 1),
        forall|x: usize| #[trigger] placed(order, keys, i).contains(x) ==> order.contains(x) || x == i,
        forall|x: usize| #[trigger] order.contains(x) ==> placed(order, keys, i).contains(x),
        placed(order, keys, i).contains(i),
    decreases order.len(),
{
    let result = placed(order, keys, i);
    if order.len() > 0 && keys[order.last() as int] > keys[i as int] {
        let head = order.drop_last();
        lemma_placed(head, keys, i);
        let inner = placed(head, keys, i);
        assert forall|a: int, b: int| 0 <= a < b < result.len() implies goes_before(
            keys,
            #[trigger] result[a],
            #[trigger] result[b],
        ) by {
            if b == result.len() - 1 {
                assert(inner.contains(inner[a]));
                if inner[a] != i {
                    let at = choose|at: int| 0 <= at < head.len() && head[at] == inner[a];
                    assert(goes_before(keys, order[at], order.last()));
                }
            }
        }
        assert forall|x: usize| #[trigger] result.contains(x) implies order.contains(x) || x
            == i by {
            let at = choose|at: int| 0 <= at < result.len() && result[at] == x;
            if at < inner.len() {
                assert(inner.contains(x));
                if x != i {
                    let from = choose|from: int| 0 <= from < head.len() && head[from] == x;
                    assert(order[from] == x);
                }
            }
        }
        assert forall|x: usize| #[trigger] order.contains(x) implies result.contains(x) by {
            let from = choose|from: int| 0 <= from < order.len() && order[from] == x;
            if from == order.len() - 1 {
                assert(result[result.len() - 1] == x);
            } else {
                assert(head[from] == x);
                assert(head.contains(x));
                assert(inner.contains(x));
                let at = choose|at: int| 0 <= at < inner.len() && inner[at] == x;
                assert(result[at] == x);
            }
        }
        assert(result.contains(i)) by {
            let at = choose|at: int| 0 <= at < inner.len() && inner[at] == i;
            assert(result[at] == i);
        }
    } else {
        assert forall|x: usize| #[trigger] result.contains(x) implies order.contains(x) || x
            == i by {
            let at = choose|at: int| 0 <= at < result.len() && result[at] == x;
            if at < order.len() {
                assert(order[at] == x);
            }
        }
        assert forall|x: usize| #[trigger] order.contains(x) implies result.contains(x) by {
            let from = choose|from: int| 0 <= from < order.len() && order[from] == x;
            assert(result[from] == x);
        }
        assert(result[result.len() - 1] == i);
    }
}

proof fn lemma_listed(keys: Seq<u64>, n: nat)
    requires
        n <= keys.len(),
        keys.len() <= usize::MAX,
    ensures
        listed(keys, n).len() == n,
        is_listing(listed(keys, n), keys, n as int),
        forall|x: usize| 0 <= x < n ==> #[trigger] listed(keys, n).contains(x),
    decreases n,
{
    if n > 0 {
        let before = listed(keys, (n - 1) as nat);
        lemma_listed(keys, (n - 1) as nat);
        lemma_placed(before, keys, (n - 1) as usize);
        assert forall|x: usize| 0 <= x < n implies #[trigger] listed(keys, n).contains(x) by {
            if x < n - 1 {
                assert(before.contains(x));
            }
        }
    }
}

/// The listing is a stable sort of the places: every place occurs in it, exactly once, and
/// each place listed has a smaller key than the next, or the same key and an earlier place.
pub proof fn lemma_sorted_order_is_stable(keys: Seq<u64>)
    requires
        keys.len() <= usize::MAX,
    ensures
        sorted_order(keys).len() == keys.len(),
        forall|a: int| 0 <= a < keys.len() ==> 0 <= #[trigger] sorted_order(keys)[a] < keys.len(),
        forall|x: usize| 0 <= x < keys.len() ==> #[trigger] sorted_order(keys).contains(x),
        forall|a: int, b: int|
            0 <= a < b < keys.len() ==> goes_before(
                keys,
                #[trigger] sorted_order(keys)[a],
                #[trigger] sorted_order(keys)[b],
            ),
        forall|a: int, b: int|
            0 <= a < b < keys.len() ==> #[trigger] sorted_order(keys)[a] != #[trigger] sorted_order(
                keys,
            )[b],
{
    lemma_listed(keys, keys.len());
    assert forall|a: int, b: int| 0 <= a < b < keys.len() implies #[trigger] sorted_order(
        keys,
    )[a] != #[trigger] sorted_order(keys)[b] by {
        assert(goes_before(keys, sorted_order(keys)[a], sorted_order(keys)[b]));
    }
}

/// Whether `order` lists every place of `keys` once, by key and among equal keys in the order
/// of the places.
pub open spec fn is_stable_listing(order: Seq<usize>, keys: Seq<u64>) -> bool {
    &&& order.len() == keys.len()
    &&& is_listing(order, keys, keys.len() as int)
}

/// As many different places below a bound as the bound allows are all the places below it.
proof fn lemma_all_places_occur(order: Seq<usize>, bound: nat)
    requires
        order.len() == bound,
        forall|a: int| 0 <= a < order.len() ==> 0 <= #[trigger] order[a] < bound,
        forall|a: int, b: int|
            0 <= a < b < order.len() ==> #[trigger] order[a] != #[trigger] order[b],
    ensures
        forall|x: usize| 0 <= x < bound ==> #[trigger] order.contains(x),
    decreases bound,
{
    if bound > 0 {
        let top = (bound - 1) as usize;
        if order.contains(top) {
            // Without the place of `top`, the rest are all the places below `top`.
            let at = choose|at: int| 0 <= at < order.len() && order[at] == top;
            let rest = order.remove(at);
            assert forall|a: int, b: int| 0 <= a < b < rest.len() implies #[trigger] rest[a]
                != #[trigger] rest[b] by {
                let from = if a < at {
                    a
                } else {
                    a + 1
                };
                let to = if b < at {
                    b
                } else {
                    b + 1
                };
                assert(rest[a] == order[from] && rest[b] == order[to]);
            }
            lemma_all_places_occur(rest, (bound - 1) as nat);
            assert forall|x: usize| 0 <= x < bound implies #[trigger] order.contains(x) by {
                if x < bound - 1 {
                    assert(rest.contains(x));
                    let a = choose|a: int| 0 <= a < rest.len() && rest[a] == x;
                    assert(order[if a < at {
                        a
                    } else {
                        a + 1
                    }] == x);
                }
            }
        } else {
            // All but the last are all the places below `top`, so the last is one of them.
            let rest = order.drop_last();
            assert forall|a: int| 0 <= a < rest.len() implies 0 <= #[trigger] rest[a] < bound
                - 1 by {
                assert(order.contains(order[a]));
            }
            lemma_all_places_occur(rest, (bound - 1) as nat);
            assert(order.contains(order.last()));
            assert(rest.contains(order.last()));
        }
    }
}

proof fn lemma_listings_agree(first: Seq<usize>, second: Seq<usize>, keys: Seq<u64>, upto: int)
    requires
        is_stable_listing(first, keys),
        is_stable_listing(second, keys),
        0 <= upto <= keys.len(),
    ensures
        forall|i: int| 0 <= i < upto ==> first[i] == second[i],
    decreases upto,
{
    if upto > 0 {
        lemma_listings_agree(first, second, keys, upto - 1);
        let i = upto - 1;
        if first[i] != second[i] {
            // Each of the two places stands in the other listing, at `i` or later; so each
            // goes before the other.
            lemma_all_places_occur(first, keys.len());
            lemma_all_places_occur(second, keys.len());
            assert(second.contains(first[i]));
            assert(first.contains(second[i]));
            let j = choose|j: int| 0 <= j < second.len() && second[j] == first[i];
            let k = choose|k: int| 0 <= k < first.len() && first[k] == second[i];
            assert(goes_before(keys, second[i], second[j]));
            assert(goes_before(keys, first[i], first[k]));
        }
    }
}

/// There is one stable listing of the places and no other: whatever lists every place once,
/// by key and among equal keys in the order of the places, is [`sorted_order`].
pub proof fn lemma_stable_listing_is_unique(order: Seq<usize>, keys: Seq<u64>)
    requires
        keys.len() <= usize::MAX,
    ensures
        is_stable_listing(sorted_order(keys), keys),
        is_stable_listing(order, keys) ==> order == sorted_order(keys),
{
    lemma_listed(keys, keys.len());
    if is_stable_listing(order, keys) {
        lemma_listings_agree(order, sorted_order(keys), keys, keys.len() as int);
        assert(order =~= sorted_order(keys));
    }
}

proof fn lemma_placed_is_insert(order: Seq<usize>, keys: Seq<u64>, i: usize, at: int)
    requires
        0 <= at <= order.len(),
        forall|a: int| at <= a < order.len() ==> keys[#[trigger] order[a] as int] > keys[i as int],
        at > 0 ==> keys[order[at - 1] as int] <= keys[i as int],
    ensures
        placed(order, keys, i) == order.insert(at, i),
    decreases order.len() - at,
{
    if at == order.len() {
        assert(order.insert(at, i) =~= order.push(i));
    } else {
        let head = order.drop_last();
        lemma_placed_is_insert(head, keys, i, at);
        assert(head.insert(at, i).push(order.last()) =~= order.insert(at, i));
    }
}

/// Lists the places of `keys` by key, places with equal keys in their own order.
pub fn stable_order(keys: &Vec<u64>) -> (order: Vec<usize>)
    ensures
        order@ == sorted_order(keys@),
        is_stable_listing(order@, keys@),
{
    let mut order: Vec<usize> = Vec::new();
    let mut i: usize = 0;
    while i < keys.len()
        invariant
            i <= keys@.len(),
            order@ == listed(keys@, i as nat),
        decreases keys@.len() - i,
    {
        proof {
            lemma_listed(keys@, i as nat);
        }
        let mut at: usize = order.len();
        while at > 0 && keys[order[at - 1]] > keys[i]
            invariant
                at <= order@.len(),
                i < keys@.len(),
                forall|a: int| 0 <= a < order@.len() ==> 0 <= #[trigger] order@[a] < i,
                forall|a: int|
                    at <= a < order@.len() ==> keys@[#[trigger] order@[a] as int] > keys@[i as int],
            decreases at,
        {
            at = at - 1;
        }
        proof {
            lemma_placed_is_insert(order@, keys@, i, at as int);
        }
        order.insert(at, i);
        i = i + 1;
    }
    proof {
        lemma_listed(keys@, keys@.len());
    }
    order
}

} // verus!
