//! The sum of the amounts that a finite book of balances holds, and how it
//! moves when one entry is written.

use vstd::prelude::*;

verus! {

/// The sum of all values of `m`. It is meaningful for a map with finitely many
/// keys; for any other map it is zero.
pub open spec fn sum_of<K>(m: Map<K, i128>) -> int
    decreases m.dom().len(),
    when m.dom().finite()
    via sum_of_decreases::<K>
{
    if m.dom().finite() && m.dom().len() > 0 {
        let k = m.dom().choose();
        m[k] + sum_of(m.remove(k))
    } else {
        0
    }
}

#[via_fn]
proof fn sum_of_decreases<K>(m: Map<K, i128>) {
    if m.dom().finite() && m.dom().len() > 0 {
        let k = m.dom().choose();
        vstd::set_lib::axiom_is_empty_len0(m.dom());
        assert(m.dom().contains(k));
        assert(m.remove(k).dom() =~= m.dom().remove(k));
    }
}

/// The amount that `m` holds for `k`: its entry, or zero where it has none.
pub open spec fn amount_at<K>(m: Map<K, i128>, k: K) -> int {
    if m.dom().contains(k) {
        m[k] as int
    } else {
        0
    }
}

/// No entry of `m` is negative.
pub open spec fn all_nonnegative<K>(m: Map<K, i128>) -> bool {
    forall|k: K| m.dom().contains(k) ==> #[trigger] m[k] >= 0
}

/// The sum of an empty book is zero.
pub proof fn lemma_sum_empty<K>(m: Map<K, i128>)
    requires
        m.dom() =~= Set::empty(),
    ensures
        sum_of(m) == 0,
{
    assert(m.dom().finite());
    assert(m.dom().len() == 0);
}

/// Any entry can be taken out first: the sum is that entry plus the sum of
/// the rest.
pub proof fn lemma_sum_remove<K>(m: Map<K, i128>, k: K)
    requires
        m.dom().finite(),
        m.dom().contains(k),
    ensures
        sum_of(m) == m[k] + sum_of(m.remove(k)),
    decreases m.dom().len(),
{
    let c = m.dom().choose();
    assert(m.dom().len() > 0) by {
        if m.dom().len() == 0 {
            vstd::set_lib::axiom_is_empty_len0(m.dom());
        }
    }
    assert(m.dom().contains(c));
    if c != k {
        let mc = m.remove(c);
        let mk = m.remove(k);
        assert(mc.dom() =~= m.dom().remove(c));
        assert(mk.dom() =~= m.dom().remove(k));
        lemma_sum_remove(mc, k);
        lemma_sum_remove(mk, c);
        assert(mc.remove(k) =~= mk.remove(c));
    }
}

/// Writing one entry moves the sum by the difference between the new amount
/// and the amount held before.
pub proof fn lemma_sum_insert<K>(m: Map<K, i128>, k: K, v: i128)
    requires
        m.dom().finite(),
    ensures
        sum_of(m.insert(k, v)) == sum_of(m) - amount_at(m, k) + v,
{
    let n = m.insert(k, v);
    assert(n.dom() =~= m.dom().insert(k));
    lemma_sum_remove(n, k);
    if m.dom().contains(k) {
        lemma_sum_remove(m, k);
        assert(n.remove(k) =~= m.remove(k));
    } else {
        assert(n.remove(k) =~= m);
    }
}

/// Where no entry is negative, neither is the sum.
pub proof fn lemma_sum_nonnegative<K>(m: Map<K, i128>)
    requires
        m.dom().finite(),
        all_nonnegative(m),
    ensures
        sum_of(m) >= 0,
    decreases m.dom().len(),
{
    if m.dom().len() > 0 {
        let c = m.dom().choose();
        vstd::set_lib::axiom_is_empty_len0(m.dom());
        assert(m.dom().contains(c));
        let rest = m.remove(c);
        assert(rest.dom() =~= m.dom().remove(c));
        assert(all_nonnegative(rest)) by {
            assert forall|k: K| rest.dom().contains(k) implies #[trigger] rest[k] >= 0 by {
                assert(m.dom().contains(k));
                assert(m[k] >= 0);
            }
        }
        lemma_sum_nonnegative(rest);
        assert(m[c] >= 0);
    }
}

/// Where no entry is negative, no single entry exceeds the sum.
pub proof fn lemma_entry_at_most_sum<K>(m: Map<K, i128>, k: K)
    requires
        m.dom().finite(),
        all_nonnegative(m),
    ensures
        0 <= amount_at(m, k) <= sum_of(m),
{
    lemma_sum_nonnegative(m);
    if m.dom().contains(k) {
        let rest = m.remove(k);
        assert(rest.dom() =~= m.dom().remove(k));
        assert(all_nonnegative(rest)) by {
            assert forall|j: K| rest.dom().contains(j) implies #[trigger] rest[j] >= 0 by {
                assert(m.dom().contains(j));
                assert(m[j] >= 0);
            }
        }
        lemma_sum_nonnegative(rest);
        lemma_sum_remove(m, k);
        assert(m[k] >= 0);
    }
}

} // verus!
