//! Spec-level counts over the entity vectors, and the lemmas that keep the
//! aggregate statistics in step with them.

use vstd::prelude::*;

use crate::types::Asset;
use crate::types::Lease;

verus! {

/// Number of assets in `s` whose `is_available` flag is set.
pub open spec fn count_available(s: Seq<Asset>) -> int
    decreases s.len(),
{
    if s.len() == 0 {
        0
    } else {
        count_available(s.drop_last()) + if s.last().is_available {
            1int
        } else {
            0int
        }
    }
}

/// Number of leases in `s` whose `is_active` flag is set.
pub open spec fn count_active(s: Seq<Lease>) -> int
    decreases s.len(),
{
    if s.len() == 0 {
        0
    } else {
        count_active(s.drop_last()) + if s.last().is_active {
            1int
        } else {
            0int
        }
    }
}

pub proof fn lemma_count_available_bounds(s: Seq<Asset>)
    ensures
        0 <= count_available(s) <= s.len(),
    decreases s.len(),
{
    if s.len() > 0 {
        lemma_count_available_bounds(s.drop_last());
    }
}

pub proof fn lemma_count_active_bounds(s: Seq<Lease>)
    ensures
        0 <= count_active(s) <= s.len(),
    decreases s.len(),
{
    if s.len() > 0 {
        lemma_count_active_bounds(s.drop_last());
    }
}

pub proof fn lemma_count_available_push(s: Seq<Asset>, a: Asset)
    ensures
        count_available(s.push(a)) == count_available(s) + if a.is_available {
            1int
        } else {
            0int
        },
{
    assert(s.push(a).drop_last() =~= s);
    assert(s.push(a).last() == a);
}

pub proof fn lemma_count_active_push(s: Seq<Lease>, l: Lease)
    ensures
        count_active(s.push(l)) == count_active(s) + if l.is_active {
            1int
        } else {
            0int
        },
{
    assert(s.push(l).drop_last() =~= s);
    assert(s.push(l).last() == l);
}

pub proof fn lemma_count_available_update(s: Seq<Asset>, i: int, a: Asset)
    requires
        0 <= i < s.len(),
    ensures
        count_available(s.update(i, a)) == count_available(s) - (if s[i].is_available {
            1int
        } else {
            0int
        }) + (if a.is_available {
            1int
        } else {
            0int
        }),
    decreases s.len(),
{
    let t = s.update(i, a);
    if i == s.len() - 1 {
        assert(t.drop_last() =~= s.drop_last());
        assert(t.last() == a);
    } else {
        assert(t.drop_last() =~= s.drop_last().update(i, a));
        lemma_count_available_update(s.drop_last(), i, a);
        assert(t.last() == s.last());
    }
}

pub proof fn lemma_count_active_update(s: Seq<Lease>, i: int, l: Lease)
    requires
        0 <= i < s.len(),
    ensures
        count_active(s.update(i, l)) == count_active(s) - (if s[i].is_active {
            1int
        } else {
            0int
        }) + (if l.is_active {
            1int
        } else {
            0int
        }),
    decreases s.len(),
{
    let t = s.update(i, l);
    if i == s.len() - 1 {
        assert(t.drop_last() =~= s.drop_last());
        assert(t.last() == l);
    } else {
        assert(t.drop_last() =~= s.drop_last().update(i, l));
        lemma_count_active_update(s.drop_last(), i, l);
        assert(t.last() == s.last());
    }
}

/// A single element witnesses one unit of the count: an available asset keeps
/// the count at 1 or above, an unavailable one keeps it at `len - 1` or below.
pub proof fn lemma_count_available_element(s: Seq<Asset>, i: int)
    requires
        0 <= i < s.len(),
    ensures
        s[i].is_available ==> count_available(s) >= 1,
        !s[i].is_available ==> count_available(s) <= s.len() - 1,
    decreases s.len(),
{
    lemma_count_available_bounds(s.drop_last());
    if i < s.len() - 1 {
        lemma_count_available_element(s.drop_last(), i);
    }
}

/// A single element witnesses one unit of the count: an active lease keeps
/// the count at 1 or above, an inactive one keeps it at `len - 1` or below.
pub proof fn lemma_count_active_element(s: Seq<Lease>, i: int)
    requires
        0 <= i < s.len(),
    ensures
        s[i].is_active ==> count_active(s) >= 1,
        !s[i].is_active ==> count_active(s) <= s.len() - 1,
    decreases s.len(),
{
    lemma_count_active_bounds(s.drop_last());
    if i < s.len() - 1 {
        lemma_count_active_element(s.drop_last(), i);
    }
}

/// Filtering a sequence extended by one element keeps the filtered prefix and
/// appends the element exactly when it satisfies the predicate. This is the
/// step lemma of the linear-scan queries.
pub proof fn lemma_filter_push<A>(s: Seq<A>, pred: spec_fn(A) -> bool, a: A)
    ensures
        s.push(a).filter(pred) == if pred(a) {
            s.filter(pred).push(a)
        } else {
            s.filter(pred)
        },
{
    reveal(Seq::filter);
    assert(s.push(a).drop_last() =~= s);
    assert(s.push(a).last() == a);
}

/// Distinct active leases each hold a distinct unavailable asset, so there
/// can be no more active leases than unavailable assets. This is what makes
/// `available + leased <= registered` an invariant of the well-formed state.
pub proof fn lemma_active_le_unavailable(assets: Seq<Asset>, leases: Seq<Lease>)
    requires
        forall|j: int|
            0 <= j < leases.len() && (#[trigger] leases[j]).is_active ==> 1 <= leases[j].asset_id
                <= assets.len() && !assets[leases[j].asset_id - 1].is_available,
        forall|j1: int, j2: int|
            0 <= j1 < j2 < leases.len() && (#[trigger] leases[j1]).is_active
                && (#[trigger] leases[j2]).is_active ==> leases[j1].asset_id != leases[j2].asset_id,
    ensures
        count_active(leases) <= assets.len() - count_available(assets),
    decreases leases.len(),
{
    if leases.len() == 0 {
        lemma_count_available_bounds(assets);
    } else {
        let rest = leases.drop_last();
        let last = leases[leases.len() - 1];
        assert(leases.last() == last);
        if last.is_active {
            let k = last.asset_id - 1;
            let freed = Asset { is_available: true, ..assets[k] };
            let assets2 = assets.update(k, freed);
            lemma_count_available_update(assets, k, freed);
            assert forall|j: int| 0 <= j < rest.len() && (#[trigger] rest[j]).is_active implies 1
                <= rest[j].asset_id <= assets2.len() && !assets2[rest[j].asset_id
                - 1].is_available by {
                assert(rest[j] == leases[j]);
                assert(leases[j].asset_id != last.asset_id);
            }
            assert forall|j1: int, j2: int|
                0 <= j1 < j2 < rest.len() && (#[trigger] rest[j1]).is_active && (#[trigger] rest[j2]).is_active implies rest[j1].asset_id
                != rest[j2].asset_id by {
                assert(rest[j1] == leases[j1]);
                assert(rest[j2] == leases[j2]);
            }
            lemma_active_le_unavailable(assets2, rest);
        } else {
            lemma_active_le_unavailable(assets, rest);
        }
    }
}

} // verus!
