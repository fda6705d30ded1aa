//! The first position of a row at which something holds.
use vstd::prelude::*;

verus! {

/// The position an optional 32-bit index holds.
pub open spec fn position(index: Option<u32>) -> Option<int> {
    match index {
        Some(i) => Some(i as int),
        None => None,
    }
}

/// The positions a column of optional 32-bit indices holds.
pub open spec fn index_view(indices: Seq<Option<u32>>) -> Seq<Option<int>> {
    Seq::new(indices.len(), |r: int| position(indices[r]))
}

/// Whether `j` is the lowest position at which `flags` is set.
pub open spec fn is_first_set(flags: Seq<bool>, j: int) -> bool {
    &&& 0 <= j < flags.len()
    &&& flags[j]
    &&& forall|k: int| 0 <= k < j ==> !flags[k]
}

/// The lowest position at which `flags` is set, if there is one.
pub open spec fn first_set(flags: Seq<bool>) -> Option<int> {
    if exists|j: int| is_first_set(flags, j) {
        Some(choose|j: int| is_first_set(flags, j))
    } else {
        None
    }
}

/// A position that is set and has no set position before it is the one
/// `first_set` names.
pub proof fn lemma_first_set_at(flags: Seq<bool>, j: int)
    requires
        is_first_set(flags, j),
    ensures
        first_set(flags) == Some(j),
{
    // Any two lowest set positions coincide: neither can lie below the other.
    let w = choose|w: int| is_first_set(flags, w);
    assert(is_first_set(flags, w));
    assert(!(w < j) && !(j < w));
}

/// Where no position is set, `first_set` names none.
pub proof fn lemma_first_set_absent(flags: Seq<bool>)
    requires
        forall|k: int| 0 <= k < flags.len() ==> !flags[k],
    ensures
        first_set(flags) is None,
{
}

/// Below any set position there is a lowest set position.
proof fn lemma_lowest_exists(flags: Seq<bool>, j: int)
    requires
        0 <= j < flags.len(),
        flags[j],
    ensures
        exists|w: int| is_first_set(flags, w),
    decreases j,
{
    if exists|k: int| 0 <= k < j && flags[k] {
        let k = choose|k: int| 0 <= k < j && flags[k];
        lemma_lowest_exists(flags, k);
    } else {
        assert(is_first_set(flags, j));
    }
}

/// `first_set` names a position exactly when some position is set, and then
/// it names the lowest one.
pub proof fn lemma_first_set_cases(flags: Seq<bool>)
    ensures
        match first_set(flags) {
            Some(j) => is_first_set(flags, j),
            None => forall|k: int| 0 <= k < flags.len() ==> !flags[k],
        },
{
    if first_set(flags) is None {
        assert forall|k: int| 0 <= k < flags.len() implies !flags[k] by {
            if flags[k] {
                lemma_lowest_exists(flags, k);
            }
        }
    }
}

/// The positions at which `flags` is set, in rising order.
pub open spec fn set_positions(flags: Seq<bool>) -> Seq<int>
    decreases flags.len(),
{
    if flags.len() == 0 {
        Seq::empty()
    } else {
        let before = set_positions(flags.drop_last());
        if flags.last() {
            before.push(flags.len() - 1)
        } else {
            before
        }
    }
}

/// `set_positions` lists exactly the set positions, each once, in rising
/// order.
pub proof fn lemma_set_positions(flags: Seq<bool>)
    ensures
        forall|k: int|
            0 <= k < set_positions(flags).len() ==> 0 <= (#[trigger] set_positions(flags)[k])
                < flags.len() && flags[set_positions(flags)[k]],
        forall|i: int, j: int|
            0 <= i < j < set_positions(flags).len() ==> (#[trigger] set_positions(flags)[i])
                < (#[trigger] set_positions(flags)[j]),
        forall|c: int|
            0 <= c < flags.len() && #[trigger] flags[c] ==> set_positions(flags).contains(c),
    decreases flags.len(),
{
    if flags.len() > 0 {
        let init = flags.drop_last();
        let before = set_positions(init);
        let all = set_positions(flags);
        lemma_set_positions(init);
        // `all` is `before`, followed by the last position if that is set.
        assert forall|k: int| 0 <= k < all.len() implies 0 <= (#[trigger] all[k]) < flags.len()
            && flags[all[k]] by {
            if k < before.len() {
                assert(all[k] == before[k]);
            }
        }
        assert forall|i: int, j: int| 0 <= i < j < all.len() implies (#[trigger] all[i]) < (
        #[trigger] all[j]) by {
            assert(all[i] == before[i]);
        }
        assert forall|c: int| 0 <= c < flags.len() && #[trigger] flags[c] implies all.contains(
            c,
        ) by {
            if c < init.len() {
                assert(init[c]);
                let k = choose|k: int| 0 <= k < before.len() && before[k] == c;
                assert(all[k] == c);
            } else {
                assert(all[all.len() - 1] == c);
            }
        }
    }
}

/// The list of set positions starts with the first set position, and is
/// empty exactly when no position is set.
pub proof fn lemma_first_of_set_positions(flags: Seq<bool>)
    ensures
        first_set(flags) == if set_positions(flags).len() > 0 {
            Some(set_positions(flags)[0])
        } else {
            None::<int>
        },
{
    let all = set_positions(flags);
    lemma_set_positions(flags);
    if all.len() > 0 {
        let j = all[0];
        assert forall|k: int| 0 <= k < j implies !flags[k] by {
            if flags[k] {
                // A set position below `all[0]` would stand in `all` before its start.
                let i = choose|i: int| 0 <= i < all.len() && all[i] == k;
                assert(all[0] <= all[i]);
            }
        }
        lemma_first_set_at(flags, j);
    } else {
        assert forall|k: int| 0 <= k < flags.len() implies !flags[k] by {
            if flags[k] {
                assert(all.contains(k));
            }
        }
        lemma_first_set_absent(flags);
    }
}

} // verus!
