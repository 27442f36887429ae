//! Sums over maps of amounts, and the size of sets of small numbers.

use vstd::prelude::*;

verus! {

/// The amount under `key`, zero where there is none.
pub open spec fn amount_at(amounts: Map<u64, i128>, key: u64) -> int {
    if amounts.dom().contains(key) {
        amounts[key] as int
    } else {
        0
    }
}

/// The sum of all the amounts.
pub open spec fn sum_of(amounts: Map<u64, i128>) -> int
    decreases amounts.dom().len(),
{
    if amounts.dom().finite() && amounts.dom().len() > 0 {
        let key = amounts.dom().choose();
        amounts[key] + sum_of(amounts.remove(key))
    } else {
        0
    }
}

/// The amounts without those that are zero.
pub open spec fn nonzero(amounts: Map<u64, i128>) -> Map<u64, i128> {
    amounts.restrict(Set::new(|key: u64| amounts[key] != 0))
}

/// Any key may be taken out first.
pub proof fn lemma_sum_remove(amounts: Map<u64, i128>, key: u64)
    requires
        amounts.dom().finite(),
        amounts.dom().contains(key),
    ensures
        sum_of(amounts) == amounts[key] + sum_of(amounts.remove(key)),
    decreases amounts.dom().len(),
{
    let first = amounts.dom().choose();
    assert(amounts.dom().contains(first));
    if first != key {
        let rest = amounts.remove(first);
        lemma_sum_remove(rest, key);
        let other = amounts.remove(key);
        lemma_sum_remove(other, first);
        assert(rest.remove(key) =~= other.remove(first));
    }
}

/// Writing an amount changes the sum by the difference.
pub proof fn lemma_sum_insert(amounts: Map<u64, i128>, key: u64, amount: i128)
    requires
        amounts.dom().finite(),
    ensures
        amounts.insert(key, amount).dom().finite(),
        sum_of(amounts.insert(key, amount)) == sum_of(amounts) - amount_at(amounts, key) + amount,
{
    let after = amounts.insert(key, amount);
    lemma_sum_remove(after, key);
    if amounts.dom().contains(key) {
        lemma_sum_remove(amounts, key);
        assert(after.remove(key) =~= amounts.remove(key));
    } else {
        assert(after.remove(key) =~= amounts);
    }
}

/// The sum of amounts that are not negative is not negative.
pub proof fn lemma_sum_nonnegative(amounts: Map<u64, i128>)
    requires
        amounts.dom().finite(),
        forall|key: u64| amounts.dom().contains(key) ==> #[trigger] amounts[key] >= 0,
    ensures
        sum_of(amounts) >= 0,
    decreases amounts.dom().len(),
{
    if amounts.dom().len() > 0 {
        let key = amounts.dom().choose();
        assert(amounts.dom().contains(key));
        lemma_sum_nonnegative(amounts.remove(key));
    }
}

/// No amount exceeds the sum, and two amounts together do not either.
pub proof fn lemma_amount_within_sum(amounts: Map<u64, i128>, key: u64, other: u64)
    requires
        amounts.dom().finite(),
        forall|key: u64| amounts.dom().contains(key) ==> #[trigger] amounts[key] >= 0,
    ensures
        0 <= amount_at(amounts, key) <= sum_of(amounts),
        key != other ==> amount_at(amounts, key) + amount_at(amounts, other) <= sum_of(amounts),
{
    lemma_sum_nonnegative(amounts);
    if amounts.dom().contains(key) {
        lemma_sum_remove(amounts, key);
        lemma_sum_nonnegative(amounts.remove(key));
        if key != other && amounts.dom().contains(other) {
            lemma_sum_remove(amounts.remove(key), other);
            lemma_sum_nonnegative(amounts.remove(key).remove(other));
        }
    } else if amounts.dom().contains(other) {
        lemma_sum_remove(amounts, other);
        lemma_sum_nonnegative(amounts.remove(other));
    }
}

/// Dropping the zero amounts leaves the sum as it was.
pub proof fn lemma_sum_nonzero(amounts: Map<u64, i128>)
    requires
        amounts.dom().finite(),
    ensures
        nonzero(amounts).dom().finite(),
        sum_of(nonzero(amounts)) == sum_of(amounts),
    decreases amounts.dom().len(),
{
    let kept = nonzero(amounts);
    assert(kept.dom().subset_of(amounts.dom()));
    vstd::set_lib::lemma_set_subset_finite(amounts.dom(), kept.dom());
    if amounts.dom().len() > 0 {
        let key = amounts.dom().choose();
        assert(amounts.dom().contains(key));
        let rest = amounts.remove(key);
        lemma_sum_nonzero(rest);
        if amounts[key] != 0 {
            assert(kept.dom().contains(key));
            lemma_sum_remove(kept, key);
            assert(kept.remove(key) =~= nonzero(rest));
        } else {
            assert(kept =~= nonzero(rest));
        }
    } else {
        assert(kept =~= amounts);
    }
}

/// A set of numbers from 1 to `bound` has at most `bound` members.
pub proof fn lemma_small_set(numbers: Set<u64>, bound: nat)
    requires
        numbers.finite(),
        forall|n: u64| #[trigger] numbers.contains(n) ==> 1 <= n <= bound,
    ensures
        numbers.len() <= bound,
    decreases bound,
{
    if bound == 0 {
        if numbers.len() > 0 {
            assert(numbers.contains(numbers.choose()));
        }
    } else if bound <= u64::MAX {
        let top = bound as u64;
        let rest = numbers.remove(top);
        assert forall|n: u64| #[trigger] rest.contains(n) implies 1 <= n <= bound - 1 by {
            assert(numbers.contains(n));
        }
        lemma_small_set(rest, (bound - 1) as nat);
    } else {
        assert forall|n: u64| #[trigger] numbers.contains(n) implies 1 <= n <= bound - 1 by {}
        lemma_small_set(numbers, (bound - 1) as nat);
    }
}

} // verus!
