use vstd::prelude::*;

verus! {

/// The sum of `w(k)` over the keys `keys`.
pub open spec fn sum_over(keys: Seq<Seq<char>>, w: spec_fn(Seq<char>) -> int) -> int
    decreases keys.len(),
{
    if keys.len() == 0 {
        0
    } else {
        sum_over(keys.drop_last(), w) + w(keys.last())
    }
}

/// Adding a key adds its weight.
pub proof fn lemma_sum_push(keys: Seq<Seq<char>>, w: spec_fn(Seq<char>) -> int, k: Seq<char>)
    ensures
        sum_over(keys.push(k), w) == sum_over(keys, w) + w(k),
{
    assert(keys.push(k).drop_last() =~= keys);
}

/// Changing the weight of one key changes the sum by the difference, where
/// the key occurs once, and not at all where it does not occur.
pub proof fn lemma_sum_change_one(
    keys: Seq<Seq<char>>,
    w1: spec_fn(Seq<char>) -> int,
    w2: spec_fn(Seq<char>) -> int,
    k: Seq<char>,
)
    requires
        keys.no_duplicates(),
        forall|x: Seq<char>| x != k ==> #[trigger] w1(x) == w2(x),
    ensures
        sum_over(keys, w2) == sum_over(keys, w1) + (if keys.contains(k) {
            w2(k) - w1(k)
        } else {
            0
        }),
    decreases keys.len(),
{
    if keys.len() > 0 {
        let p = keys.drop_last();
        assert(p.no_duplicates());
        lemma_sum_change_one(p, w1, w2, k);
        if keys.last() == k {
            assert(!p.contains(k));
            assert(keys.contains(k)) by {
                assert(keys[keys.len() - 1] == k);
            }
        } else {
            assert(keys.contains(k) == p.contains(k)) by {
                if keys.contains(k) {
                    let i = keys.index_of(k);
                    assert(p[i] == k);
                }
                if p.contains(k) {
                    let i = p.index_of(k);
                    assert(keys[i] == k);
                }
            }
        }
    }
}

} // verus!
