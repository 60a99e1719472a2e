//! Conservation of time under attribution.
//!
//! For a family of intervals that nest strictly in a single chain — each
//! interval starting no earlier and ending strictly earlier than the one
//! before it — every microsecond of the outermost interval is attributed as
//! self time to exactly one entry: the self times summed over all entries
//! equal the root's total time. Nothing is double-counted and nothing is
//! lost.
//!
//! The chain shape matters: when an interval's predecessor in start order
//! has already ended (siblings under one parent), the engine's single
//! look-back at the stack's top subtracts nothing, and the summed self time
//! can exceed the root's total.

use vstd::prelude::*;
use crate::attribution::{
    ffps_or_zero, fops_or_zero, op_attr_fold, op_iv_end, op_prev, source_attr_fold,
    source_iv_end, source_prev, OperationInterval, SourceInterval,
};
use crate::sorting::{lemma_stable_sorted_id, sorted, stable_sorted, SortOrd};
use crate::summary::{FrontendFileProcessSummary, FrontendOperation, FrontendOperationSummary};

verus! {

/// The intervals form a strictly nested chain: each interval starts no
/// earlier and ends strictly earlier than the one before it, no end
/// computation overflows, and every interval carries its own key.
pub open spec fn strictly_nested_chain(ivs: Seq<SourceInterval>) -> bool {
    &&& (forall|i: int|
        0 <= i < ivs.len() ==> (#[trigger] ivs[i].start_us) + ivs[i].duration_us <= u64::MAX)
    &&& (forall|i: int|
        1 <= i < ivs.len() ==> ivs[i - 1].start_us <= (#[trigger] ivs[i].start_us) && ivs[
            i
        ].start_us + ivs[i].duration_us < ivs[i - 1].start_us + ivs[i - 1].duration_us)
    &&& (forall|i: int, j: int| 0 <= i < j < ivs.len() ==> ivs[i].key@ != ivs[j].key@)
}

/// The self times of the entries of `ivs[j..]`, summed.
pub open spec fn sum_self_from(
    m: Map<Seq<char>, FrontendFileProcessSummary>,
    ivs: Seq<SourceInterval>,
    j: int,
) -> int
    decreases ivs.len() - j,
{
    if j < 0 || j >= ivs.len() {
        0
    } else {
        m[ivs[j].key@].self_time_us + sum_self_from(m, ivs, j + 1)
    }
}

proof fn lemma_chain_fold_state(ivs: Seq<SourceInterval>)
    requires
        ivs.len() > 0,
        strictly_nested_chain(ivs),
    ensures
        ({
            let m = source_attr_fold(Map::empty(), ivs);
            &&& (forall|k: Seq<char>|
                m.contains_key(k) <==> exists|i: int| 0 <= i < ivs.len() && ivs[i].key@ == k)
            &&& (forall|i: int|
                0 <= i < ivs.len() ==> m[(#[trigger] ivs[i].key@)].total_time_us == ivs[
                    i
                ].duration_us)
            &&& (forall|i: int|
                0 <= i < ivs.len() - 1 ==> m[(#[trigger] ivs[i].key@)].self_time_us == ivs[
                    i
                ].duration_us - ivs[i + 1].duration_us)
            &&& m[ivs[ivs.len() - 1].key@].self_time_us == ivs[ivs.len() - 1].duration_us
        }),
    decreases ivs.len(),
{
    let n = ivs.len() as int;
    let m = source_attr_fold(Map::empty(), ivs);
    if n == 1 {
        assert(ivs.drop_last().len() == 0);
        assert(source_attr_fold(Map::empty(), ivs.drop_last()) == Map::<
            Seq<char>,
            FrontendFileProcessSummary,
        >::empty());
        assert(source_prev(ivs, 0) is None);
    } else {
        let pre = ivs.drop_last();
        assert(forall|i: int| 0 <= i < pre.len() ==> pre[i] == ivs[i]);
        assert(strictly_nested_chain(pre));
        lemma_chain_fold_state(pre);
        let pm = source_attr_fold(Map::empty(), pre);
        let iv = ivs.last();
        assert(iv == ivs[n - 1]);
        let prev = source_prev(ivs, n - 1);
        assert(prev == Some((ivs[n - 2].key@, source_iv_end(ivs[n - 2]))));
        assert(source_iv_end(ivs[n - 2]) == ivs[n - 2].start_us + ivs[n - 2].duration_us);
        assert(source_iv_end(iv) == iv.start_us + iv.duration_us);
        assert(source_iv_end(ivs[n - 2]) > source_iv_end(iv));
        assert(!pm.contains_key(iv.key@));
        assert(ffps_or_zero(pm, iv.key@).total_time_us == 0);
        // the duration of the nested interval is strictly below its
        // predecessor's, so the self-time subtraction is exact
        assert(iv.duration_us < ivs[n - 2].duration_us);
        assert(pm[ivs[n - 2].key@].self_time_us == ivs[n - 2].duration_us);
        assert(m == source_attr_fold(Map::empty(), pre).insert(
            iv.key@,
            crate::attribution::ffps_add(ffps_or_zero(pm, iv.key@), iv.duration_us),
        ).insert(
            ivs[n - 2].key@,
            crate::attribution::ffps_sub_self(
                ffps_or_zero(
                    pm.insert(
                        iv.key@,
                        crate::attribution::ffps_add(ffps_or_zero(pm, iv.key@), iv.duration_us),
                    ),
                    ivs[n - 2].key@,
                ),
                iv.duration_us,
            ),
        ));
        assert forall|k: Seq<char>|
            m.contains_key(k) <==> exists|i: int| 0 <= i < ivs.len() && ivs[i].key@ == k by {
            if m.contains_key(k) {
                if k == iv.key@ {
                    assert(ivs[n - 1].key@ == k);
                } else if k == ivs[n - 2].key@ {
                    assert(ivs[n - 2].key@ == k);
                } else {
                    assert(pm.contains_key(k));
                    let i = choose|i: int| 0 <= i < pre.len() && pre[i].key@ == k;
                    assert(ivs[i].key@ == k);
                }
            }
            if exists|i: int| 0 <= i < ivs.len() && ivs[i].key@ == k {
                let i = choose|i: int| 0 <= i < ivs.len() && ivs[i].key@ == k;
                if i < n - 1 {
                    assert(pre[i].key@ == k);
                    assert(pm.contains_key(k));
                }
            }
        }
    }
}

proof fn lemma_sum_telescopes(
    m: Map<Seq<char>, FrontendFileProcessSummary>,
    ivs: Seq<SourceInterval>,
    j: int,
)
    requires
        0 <= j < ivs.len(),
        forall|i: int|
            0 <= i < ivs.len() - 1 ==> m[(#[trigger] ivs[i].key@)].self_time_us == ivs[
                i
            ].duration_us - ivs[i + 1].duration_us,
        m[ivs[ivs.len() - 1].key@].self_time_us == ivs[ivs.len() - 1].duration_us,
    ensures
        sum_self_from(m, ivs, j) == ivs[j].duration_us,
    decreases ivs.len() - j,
{
    if j == ivs.len() - 1 {
        assert(sum_self_from(m, ivs, j + 1) == 0);
        assert(sum_self_from(m, ivs, j) == m[ivs[j].key@].self_time_us + sum_self_from(
            m,
            ivs,
            j + 1,
        ));
    } else {
        lemma_sum_telescopes(m, ivs, j + 1);
        assert(m[ivs[j].key@].self_time_us == ivs[j].duration_us - ivs[j + 1].duration_us);
        assert(sum_self_from(m, ivs, j) == m[ivs[j].key@].self_time_us + sum_self_from(
            m,
            ivs,
            j + 1,
        ));
    }
}

proof fn lemma_chain_is_sorted(ivs: Seq<SourceInterval>, i: int, j: int)
    requires
        strictly_nested_chain(ivs),
        0 <= i <= j < ivs.len(),
    ensures
        ivs[i].start_us <= ivs[j].start_us,
    decreases j - i,
{
    if i < j {
        lemma_chain_is_sorted(ivs, i, j - 1);
    }
}

/// Conservation of time: attributing a strictly nested chain of intervals
/// loses nothing and double-counts nothing. The self times summed over all
/// entries equal the root's total time, which is the root's duration; and
/// such a chain is already in the order the engine sorts by.
pub proof fn lemma_nested_chain_conserves_time(ivs: Seq<SourceInterval>)
    requires
        ivs.len() > 0,
        strictly_nested_chain(ivs),
    ensures
        ({
            let m = source_attr_fold(Map::empty(), ivs);
            &&& sum_self_from(m, ivs, 0) == ivs[0].duration_us
            &&& m.contains_key(ivs[0].key@)
            &&& m[ivs[0].key@].total_time_us == ivs[0].duration_us
            &&& stable_sorted(ivs) == ivs
        }),
{
    lemma_chain_fold_state(ivs);
    let m = source_attr_fold(Map::empty(), ivs);
    lemma_sum_telescopes(m, ivs, 0);
    assert forall|i: int, j: int| 0 <= i < j < ivs.len() implies ivs[i].le_spec(&ivs[j]) by {
        lemma_chain_is_sorted(ivs, i, j);
    }
    assert(sorted(ivs));
    lemma_stable_sorted_id(ivs);
}


/// The operation intervals form a strictly nested chain; see
/// [`strictly_nested_chain`].
pub open spec fn strictly_nested_op_chain(ivs: Seq<OperationInterval>) -> bool {
    &&& (forall|i: int|
        0 <= i < ivs.len() ==> (#[trigger] ivs[i].start_us) + ivs[i].duration_us <= u64::MAX)
    &&& (forall|i: int|
        1 <= i < ivs.len() ==> ivs[i - 1].start_us <= (#[trigger] ivs[i].start_us) && ivs[
            i
        ].start_us + ivs[i].duration_us < ivs[i - 1].start_us + ivs[i - 1].duration_us)
    &&& (forall|i: int, j: int| 0 <= i < j < ivs.len() ==> ivs[i].key@ != ivs[j].key@)
}

/// The self times of the entries of `ivs[j..]`, summed.
pub open spec fn sum_op_self_from(
    m: Map<(Seq<char>, FrontendOperation), FrontendOperationSummary>,
    ivs: Seq<OperationInterval>,
    j: int,
) -> int
    decreases ivs.len() - j,
{
    if j < 0 || j >= ivs.len() {
        0
    } else {
        m[ivs[j].key@].self_time_us + sum_op_self_from(m, ivs, j + 1)
    }
}

proof fn lemma_op_chain_fold_state(ivs: Seq<OperationInterval>)
    requires
        ivs.len() > 0,
        strictly_nested_op_chain(ivs),
    ensures
        ({
            let m = op_attr_fold(Map::empty(), ivs);
            &&& (forall|k: (Seq<char>, FrontendOperation)|
                m.contains_key(k) <==> exists|i: int| 0 <= i < ivs.len() && ivs[i].key@ == k)
            &&& (forall|i: int|
                0 <= i < ivs.len() ==> m[(#[trigger] ivs[i].key@)].total_time_us == ivs[
                    i
                ].duration_us)
            &&& (forall|i: int|
                0 <= i < ivs.len() - 1 ==> m[(#[trigger] ivs[i].key@)].self_time_us == ivs[
                    i
                ].duration_us - ivs[i + 1].duration_us)
            &&& m[ivs[ivs.len() - 1].key@].self_time_us == ivs[ivs.len() - 1].duration_us
        }),
    decreases ivs.len(),
{
    let n = ivs.len() as int;
    let m = op_attr_fold(Map::empty(), ivs);
    if n == 1 {
        assert(ivs.drop_last().len() == 0);
        assert(op_attr_fold(Map::empty(), ivs.drop_last()) == Map::<
            (Seq<char>, FrontendOperation),
            FrontendOperationSummary,
        >::empty());
        assert(op_prev(ivs, 0) is None);
    } else {
        let pre = ivs.drop_last();
        assert(forall|i: int| 0 <= i < pre.len() ==> pre[i] == ivs[i]);
        assert(strictly_nested_op_chain(pre));
        lemma_op_chain_fold_state(pre);
        let pm = op_attr_fold(Map::empty(), pre);
        let iv = ivs.last();
        assert(iv == ivs[n - 1]);
        let prev = op_prev(ivs, n - 1);
        assert(prev == Some((ivs[n - 2].key@, op_iv_end(ivs[n - 2]))));
        assert(op_iv_end(ivs[n - 2]) == ivs[n - 2].start_us + ivs[n - 2].duration_us);
        assert(op_iv_end(iv) == iv.start_us + iv.duration_us);
        assert(op_iv_end(ivs[n - 2]) > op_iv_end(iv));
        assert(!pm.contains_key(iv.key@));
        assert(fops_or_zero(pm, iv.key@).total_time_us == 0);
        assert(iv.duration_us < ivs[n - 2].duration_us);
        assert(pm[ivs[n - 2].key@].self_time_us == ivs[n - 2].duration_us);
        assert(m == op_attr_fold(Map::empty(), pre).insert(
            iv.key@,
            crate::attribution::fops_add(fops_or_zero(pm, iv.key@), iv.duration_us),
        ).insert(
            ivs[n - 2].key@,
            crate::attribution::fops_sub_self(
                fops_or_zero(
                    pm.insert(
                        iv.key@,
                        crate::attribution::fops_add(fops_or_zero(pm, iv.key@), iv.duration_us),
                    ),
                    ivs[n - 2].key@,
                ),
                iv.duration_us,
            ),
        ));
        assert forall|k: (Seq<char>, FrontendOperation)|
            m.contains_key(k) <==> exists|i: int| 0 <= i < ivs.len() && ivs[i].key@ == k by {
            if m.contains_key(k) {
                if k == iv.key@ {
                    assert(ivs[n - 1].key@ == k);
                } else if k == ivs[n - 2].key@ {
                    assert(ivs[n - 2].key@ == k);
                } else {
                    assert(pm.contains_key(k));
                    let i = choose|i: int| 0 <= i < pre.len() && pre[i].key@ == k;
                    assert(ivs[i].key@ == k);
                }
            }
            if exists|i: int| 0 <= i < ivs.len() && ivs[i].key@ == k {
                let i = choose|i: int| 0 <= i < ivs.len() && ivs[i].key@ == k;
                if i < n - 1 {
                    assert(pre[i].key@ == k);
                    assert(pm.contains_key(k));
                }
            }
        }
    }
}

proof fn lemma_op_sum_telescopes(
    m: Map<(Seq<char>, FrontendOperation), FrontendOperationSummary>,
    ivs: Seq<OperationInterval>,
    j: int,
)
    requires
        0 <= j < ivs.len(),
        forall|i: int|
            0 <= i < ivs.len() - 1 ==> m[(#[trigger] ivs[i].key@)].self_time_us == ivs[
                i
            ].duration_us - ivs[i + 1].duration_us,
        m[ivs[ivs.len() - 1].key@].self_time_us == ivs[ivs.len() - 1].duration_us,
    ensures
        sum_op_self_from(m, ivs, j) == ivs[j].duration_us,
    decreases ivs.len() - j,
{
    if j == ivs.len() - 1 {
        assert(sum_op_self_from(m, ivs, j + 1) == 0);
        assert(sum_op_self_from(m, ivs, j) == m[ivs[j].key@].self_time_us + sum_op_self_from(
            m,
            ivs,
            j + 1,
        ));
    } else {
        lemma_op_sum_telescopes(m, ivs, j + 1);
        assert(m[ivs[j].key@].self_time_us == ivs[j].duration_us - ivs[j + 1].duration_us);
        assert(sum_op_self_from(m, ivs, j) == m[ivs[j].key@].self_time_us + sum_op_self_from(
            m,
            ivs,
            j + 1,
        ));
    }
}

proof fn lemma_op_chain_is_sorted(ivs: Seq<OperationInterval>, i: int, j: int)
    requires
        strictly_nested_op_chain(ivs),
        0 <= i <= j < ivs.len(),
    ensures
        ivs[i].start_us <= ivs[j].start_us,
    decreases j - i,
{
    if i < j {
        lemma_op_chain_is_sorted(ivs, i, j - 1);
    }
}

/// Conservation of time for the frontend-operation family: the same law as
/// [`lemma_nested_chain_conserves_time`], for the engine's second run.
pub proof fn lemma_nested_op_chain_conserves_time(ivs: Seq<OperationInterval>)
    requires
        ivs.len() > 0,
        strictly_nested_op_chain(ivs),
    ensures
        ({
            let m = op_attr_fold(Map::empty(), ivs);
            &&& sum_op_self_from(m, ivs, 0) == ivs[0].duration_us
            &&& m.contains_key(ivs[0].key@)
            &&& m[ivs[0].key@].total_time_us == ivs[0].duration_us
            &&& stable_sorted(ivs) == ivs
        }),
{
    lemma_op_chain_fold_state(ivs);
    let m = op_attr_fold(Map::empty(), ivs);
    lemma_op_sum_telescopes(m, ivs, 0);
    assert forall|i: int, j: int| 0 <= i < j < ivs.len() implies ivs[i].le_spec(&ivs[j]) by {
        lemma_op_chain_is_sorted(ivs, i, j);
    }
    assert(sorted(ivs));
    lemma_stable_sorted_id(ivs);
}

} // verus!
