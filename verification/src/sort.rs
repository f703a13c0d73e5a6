//! Deterministic ordering of aggregated records: an insertion sort under
//! the record order, and the fact that a sorted arrangement of given
//! records is unique — which makes the engine's output independent of
//! scanner execution order.

use vstd::prelude::*;
use vstd::relations::sorted_by;
use crate::record::{
    HookRecord, SpecRecord, record_le, record_leq, record_lt, record_lt_exec, recs_view,
    lemma_record_le_total_ordering, lemma_record_lt_transitive, lemma_record_trichotomy,
};

verus! {

/// Inserts a record into a sorted vector, keeping it sorted and adding
/// exactly that record to the contents.
fn insert_sorted(out: &mut Vec<HookRecord>, rec: HookRecord)
    requires
        sorted_by(recs_view(old(out)@), record_leq()),
    ensures
        sorted_by(recs_view(final(out)@), record_leq()),
        recs_view(final(out)@).to_multiset() == recs_view(old(out)@).to_multiset().insert(rec@),
{
    broadcast use vstd::seq_lib::group_to_multiset_ensures;
    broadcast use vstd::seq_lib::lemma_multiset_commutative;

    let ghost pre = recs_view(out@);
    let mut j: usize = 0;
    while j < out.len()
        invariant
            0 <= j <= out@.len(),
            out@ == old(out)@,
            forall|k: int| 0 <= k < j ==> !record_lt(rec@, recs_view(out@)[k]),
        ensures
            0 <= j <= out@.len(),
            out@ == old(out)@,
            forall|k: int| 0 <= k < j ==> !record_lt(rec@, recs_view(out@)[k]),
            j < out@.len() ==> record_lt(rec@, recs_view(out@)[j as int]),
        decreases out@.len() - j,
    {
        if record_lt_exec(&rec, &out[j]) {
            break;
        }
        j = j + 1;
    }
    out.insert(j, rec);
    proof {
        let v = recs_view(out@);
        assert(v =~= pre.take(j as int).push(rec@) + pre.skip(j as int));
        assert(pre =~= pre.take(j as int) + pre.skip(j as int));
        // Sortedness: everything before position j is at most `rec`,
        // everything after is at least `rec`.
        assert forall|p: int, q: int| 0 <= p < q < v.len() implies record_leq()(v[p], v[q]) by {
            if p < j && q == j {
            } else if p < j && q > j {
            } else if p == j && q > j {
                if record_lt(v[q], rec@) {
                    lemma_record_lt_transitive(v[q], rec@, pre[j as int]);
                    if j < q - 1 {
                        assert(record_leq()(pre[j as int], pre[q - 1]));
                    } else {
                        lemma_record_trichotomy(pre[j as int], pre[j as int]);
                    }
                }
            }
        }
        // Contents: inserting in the middle adds exactly one occurrence.
        let a = pre.take(j as int);
        let b = pre.skip(j as int);
        assert((a.push(rec@) + b).to_multiset() == a.push(rec@).to_multiset().add(b.to_multiset()));
        assert((a + b).to_multiset() == a.to_multiset().add(b.to_multiset()));
        assert(a.push(rec@).to_multiset() =~= a.to_multiset().insert(rec@));
        assert(v.to_multiset() =~= pre.to_multiset().insert(rec@));
    }
}

/// Sorts records by the record order: technique in the fixed order, then
/// location ascending, then evidence. The result is the unique sorted
/// arrangement of the given records.
pub fn sort_records(records: Vec<HookRecord>) -> (r: Vec<HookRecord>)
    ensures
        sorted_by(recs_view(r@), record_leq()),
        recs_view(r@).to_multiset() == recs_view(records@).to_multiset(),
        recs_view(r@) == recs_view(records@).sort_by(record_leq()),
{
    broadcast use vstd::seq_lib::group_to_multiset_ensures;

    let ghost whole = recs_view(records@);
    let mut rest = records;
    let mut out: Vec<HookRecord> = Vec::new();
    proof {
        assert(recs_view(out@).to_multiset().len() == 0);
        assert(recs_view(out@).to_multiset().add(recs_view(rest@).to_multiset()) =~= recs_view(
            rest@,
        ).to_multiset());
    }
    loop
        invariant
            sorted_by(recs_view(out@), record_leq()),
            recs_view(out@).to_multiset().add(recs_view(rest@).to_multiset()) == whole.to_multiset(),
        ensures
            rest@.len() == 0,
            sorted_by(recs_view(out@), record_leq()),
            recs_view(out@).to_multiset().add(recs_view(rest@).to_multiset()) == whole.to_multiset(),
        decreases rest@.len(),
    {
        let ghost rest_pre = recs_view(rest@);
        match rest.pop() {
            Option::Some(rec) => {
                proof {
                    assert(rest_pre =~= recs_view(rest@).push(rec@));
                    vstd::seq_lib::to_multiset_build(recs_view(rest@), rec@);
                    assert(rest_pre.to_multiset() == recs_view(rest@).to_multiset().insert(rec@));
                }
                insert_sorted(&mut out, rec);
            }
            Option::None => {
                break;
            }
        }
    }
    proof {
        assert(recs_view(rest@).to_multiset().len() == 0);
        assert(recs_view(out@).to_multiset() =~= whole.to_multiset());
        lemma_record_le_total_ordering();
        whole.lemma_sort_by_ensures(record_leq());
        lemma_sorted_unique(recs_view(out@), whole.sort_by(record_leq()));
    }
    out
}

/// Two sorted sequences with the same contents are the same sequence:
/// the aggregation order is reproducible whatever order the records
/// arrived in.
pub proof fn lemma_sorted_unique(s1: Seq<SpecRecord>, s2: Seq<SpecRecord>)
    requires
        sorted_by(s1, record_leq()),
        sorted_by(s2, record_leq()),
        s1.to_multiset() == s2.to_multiset(),
    ensures
        s1 == s2,
    decreases s1.len(),
{
    broadcast use vstd::seq_lib::group_to_multiset_ensures;

    if s1.len() == 0 {
        assert(s2.to_multiset().len() == 0);
        assert(s1 =~= s2);
    } else {
        assert(s2.to_multiset().len() == s1.len());
        assert(s2.len() > 0);
        // The two heads are equal: each occurs in the other sequence, and
        // a sorted sequence's head precedes everything it contains.
        assert(s1.to_multiset().count(s1[0]) > 0);
        assert(s2.contains(s1[0]));
        assert(s2.to_multiset().count(s2[0]) > 0);
        assert(s1.contains(s2[0]));
        let i1 = choose|i: int| 0 <= i < s2.len() && s2[i] == s1[0];
        let i2 = choose|i: int| 0 <= i < s1.len() && s1[i] == s2[0];
        assert(record_le(s2[0], s1[0])) by {
            if i1 > 0 {
                assert(record_leq()(s2[0], s2[i1]));
            } else {
                lemma_record_trichotomy(s2[0], s2[0]);
            }
        }
        assert(record_le(s1[0], s2[0])) by {
            if i2 > 0 {
                assert(record_leq()(s1[0], s1[i2]));
            } else {
                lemma_record_trichotomy(s1[0], s1[0]);
            }
        }
        lemma_record_trichotomy(s1[0], s2[0]);
        assert(s1[0] == s2[0]);
        // Drop the equal heads and recurse.
        let t1 = s1.drop_first();
        let t2 = s2.drop_first();
        assert(s1.remove(0) == t1);
        assert(s2.remove(0) == t2);
        assert(t1.to_multiset() =~= s1.to_multiset().remove(s1[0]));
        assert(t2.to_multiset() =~= s2.to_multiset().remove(s2[0]));
        assert(sorted_by(t1, record_leq())) by {
            assert forall|p: int, q: int| 0 <= p < q < t1.len() implies record_leq()(t1[p], t1[q]) by {
                assert(t1[p] == s1[p + 1]);
                assert(t1[q] == s1[q + 1]);
                assert(record_leq()(s1[p + 1], s1[q + 1]));
            }
        }
        assert(sorted_by(t2, record_leq())) by {
            assert forall|p: int, q: int| 0 <= p < q < t2.len() implies record_leq()(t2[p], t2[q]) by {
                assert(t2[p] == s2[p + 1]);
                assert(t2[q] == s2[q + 1]);
                assert(record_leq()(s2[p + 1], s2[q + 1]));
            }
        }
        lemma_sorted_unique(t1, t2);
        assert(s1 =~= s2) by {
            assert(s1.len() == s2.len());
            assert forall|i: int| 0 <= i < s1.len() implies s1[i] == s2[i] by {
                if i > 0 {
                    assert(t1[i - 1] == t2[i - 1]);
                }
            }
        }
    }
}

} // verus!
