//! Folding parsed profiles into the summary.
//!
//! One analysis run processes every trace file in turn: a file that parsed
//! contributes its totals, its include-file attribution, its per-operation
//! attribution and its backend symbols; a file that could not be read or
//! parsed only bumps the invalid counter (and makes its target known). The
//! whole effect of a file on the summary is pinned by [`fold_valid_file`] and
//! [`fold_invalid_file`] over the summary's mathematical model.

use vstd::prelude::*;
use crate::arith::{
    saturating_add_u128, saturating_add_u64, saturating_add_usize, spec_sat_add_u128,
    spec_sat_add_u64, spec_sat_add_usize,
};
use crate::attribution::{
    attribute_operations, attribute_sources, ffps_self_le_total, fops_self_le_total,
    lemma_op_attr_fold_le, lemma_source_attr_fold_le, op_attr_fold, operation_intervals,
    source_attr_fold, source_intervals,
};
use crate::backend::{backend_fold_cache_dom, backend_fold_map, backend_fold_singles,
    fold_backend_operations};
use crate::demangle::DemangleCache;
use crate::layout::CmakeCachePathInferenceError;
use crate::model::BuildVariant;
use crate::indices::{
    distinct_view_seq, lists_keys_of, order_keys_by_time, order_keys_desc, order_op_keys_desc,
    sorted_op_keys, sorted_string_keys, views_of, KeyMetricDesc, KeyTimeAsc, OpKeyMetricDesc,
};
use crate::strkit::str_le;
use crate::sorting::stable_sorted;
use crate::summary::{
    FrontendFileProcessSummary, FrontendOperation, FrontendOperationKey,
    FrontendOperationSummary, SourceFileProcessSummary, Summary, TopLevelTargetSummary,
    BackendOperationSummaries,
};
use crate::trace::{Event, EventCategory, Profile};

verus! {

/// The mathematical content of a [`Summary`]'s aggregate state: the run
/// counters and the view of every table. Index lists are not part of the
/// model; they are derived from it once all files are folded in.
pub struct SummaryModel {
    pub total_valid_files: usize,
    pub total_invalid_files: usize,
    pub frontend_duration_total_us: u64,
    pub backend_duration_total_us: u64,
    pub backend_duration_single_events_us: u64,
    pub first_event_time: u128,
    pub last_event_time: u128,
    pub target_summaries: Map<Seq<char>, TopLevelTargetSummary>,
    pub frontend_file_process_summaries: Map<Seq<char>, FrontendFileProcessSummary>,
    pub source_file_process_summaries: Map<Seq<char>, SourceFileProcessSummary>,
    pub frontend_operation_summaries: Map<
        (Seq<char>, FrontendOperation),
        FrontendOperationSummary,
    >,
    pub backend_operation_summaries: Map<Seq<char>, BackendOperationSummaries>,
}

/// The model a summary value denotes.
pub open spec fn summary_model(s: &Summary) -> SummaryModel {
    SummaryModel {
        total_valid_files: s.total_valid_files,
        total_invalid_files: s.total_invalid_files,
        frontend_duration_total_us: s.frontend_duration_total_us,
        backend_duration_total_us: s.backend_duration_total_us,
        backend_duration_single_events_us: s.backend_duration_single_events_us,
        first_event_time: s.first_event_time,
        last_event_time: s.last_event_time,
        target_summaries: s.target_summaries@,
        frontend_file_process_summaries: s.frontend_file_process_summaries@,
        source_file_process_summaries: s.source_file_process_summaries@,
        frontend_operation_summaries: s.frontend_operation_summaries@,
        backend_operation_summaries: s.backend_operation_summaries@,
    }
}

/// The model of the empty summary.
pub open spec fn empty_model() -> SummaryModel {
    SummaryModel {
        total_valid_files: 0,
        total_invalid_files: 0,
        frontend_duration_total_us: 0,
        backend_duration_total_us: 0,
        backend_duration_single_events_us: 0,
        first_event_time: 0,
        last_event_time: 0,
        target_summaries: Map::empty(),
        frontend_file_process_summaries: Map::empty(),
        source_file_process_summaries: Map::empty(),
        frontend_operation_summaries: Map::empty(),
        backend_operation_summaries: Map::empty(),
    }
}

/// Sum of the durations of the coarse `Frontend` span events.
pub open spec fn fe_total_spec(events: Seq<Event>) -> u64
    decreases events.len(),
{
    if events.len() == 0 {
        0
    } else {
        let p = fe_total_spec(events.drop_last());
        if events.last().category == EventCategory::Frontend {
            spec_sat_add_u64(p, events.last().duration_us)
        } else {
            p
        }
    }
}

/// Sum of the durations of the coarse `Backend` span events.
pub open spec fn be_total_spec(events: Seq<Event>) -> u64
    decreases events.len(),
{
    if events.len() == 0 {
        0
    } else {
        let p = be_total_spec(events.drop_last());
        if events.last().category == EventCategory::Backend {
            spec_sat_add_u64(p, events.last().duration_us)
        } else {
            p
        }
    }
}

/// Running minimum of first event times, with `0` meaning "none seen yet".
pub open spec fn merge_first(cur: u128, origin: u128) -> u128 {
    if cur == 0 {
        origin
    } else if origin < cur {
        origin
    } else {
        cur
    }
}

/// Running maximum of last event times.
pub open spec fn merge_last(cur: u128, end: u128) -> u128 {
    if end > cur {
        end
    } else {
        cur
    }
}

/// The end of a file's span: its origin plus its frontend and backend time.
pub open spec fn file_end_time(origin: u128, fe: u64, be: u64) -> u128 {
    spec_sat_add_u128(origin, (fe + be) as u128)
}

/// The entry of `k`, or the all-zero entry if `k` has none yet.
pub open spec fn target_or_zero(
    m: Map<Seq<char>, TopLevelTargetSummary>,
    k: Seq<char>,
) -> TopLevelTargetSummary {
    if m.contains_key(k) {
        m[k]
    } else {
        TopLevelTargetSummary {
            total_files: 0,
            total_frontend_duration_us: 0,
            total_backend_duration_us: 0,
            first_event_time: 0,
            last_event_time: 0,
        }
    }
}

/// A target's entry after one more valid file.
pub open spec fn target_after_file(
    cur: TopLevelTargetSummary,
    origin: u128,
    fe: u64,
    be: u64,
) -> TopLevelTargetSummary {
    TopLevelTargetSummary {
        total_files: spec_sat_add_usize(cur.total_files, 1),
        total_frontend_duration_us: spec_sat_add_u64(cur.total_frontend_duration_us, fe),
        total_backend_duration_us: spec_sat_add_u64(cur.total_backend_duration_us, be),
        first_event_time: merge_first(cur.first_event_time, origin),
        last_event_time: merge_last(cur.last_event_time, file_end_time(origin, fe, be)),
    }
}

/// The whole effect of one parsed profile on the summary's model.
pub open spec fn fold_valid_file(
    m: SummaryModel,
    target: Seq<char>,
    display_key: Seq<char>,
    p: Profile,
) -> SummaryModel {
    let fe = fe_total_spec(p.events@);
    let be = be_total_spec(p.events@);
    let end = file_end_time(p.origin_time, fe, be);
    SummaryModel {
        total_valid_files: spec_sat_add_usize(m.total_valid_files, 1),
        total_invalid_files: m.total_invalid_files,
        frontend_duration_total_us: spec_sat_add_u64(m.frontend_duration_total_us, fe),
        backend_duration_total_us: spec_sat_add_u64(m.backend_duration_total_us, be),
        backend_duration_single_events_us: backend_fold_singles(
            m.backend_duration_single_events_us,
            p.events@,
        ),
        first_event_time: merge_first(m.first_event_time, p.origin_time),
        last_event_time: merge_last(m.last_event_time, end),
        target_summaries: m.target_summaries.insert(
            target,
            target_after_file(target_or_zero(m.target_summaries, target), p.origin_time, fe, be),
        ),
        frontend_file_process_summaries: source_attr_fold(
            m.frontend_file_process_summaries,
            stable_sorted(source_intervals(p.events@)),
        ),
        source_file_process_summaries: m.source_file_process_summaries.insert(
            display_key,
            SourceFileProcessSummary {
                total_time_us: spec_sat_add_u64(fe, be),
                total_frontend_time_us: fe,
                total_backend_time_us: be,
            },
        ),
        frontend_operation_summaries: op_attr_fold(
            m.frontend_operation_summaries,
            stable_sorted(operation_intervals(p.events@)),
        ),
        backend_operation_summaries: backend_fold_map(m.backend_operation_summaries, p.events@),
    }
}

/// The whole effect of one unreadable or malformed file: its target becomes
/// known (with an all-zero entry if new) and the invalid counter grows.
pub open spec fn fold_invalid_file(m: SummaryModel, target: Seq<char>) -> SummaryModel {
    SummaryModel {
        total_invalid_files: spec_sat_add_usize(m.total_invalid_files, 1),
        target_summaries: m.target_summaries.insert(
            target,
            target_or_zero(m.target_summaries, target),
        ),
        ..m
    }
}

/// The index lists of `s`, as values.
pub open spec fn index_lists(s: &Summary) -> (
    Vec<String>,
    Vec<String>,
    Vec<String>,
    Vec<String>,
    Vec<String>,
    Vec<String>,
    Vec<String>,
    Vec<String>,
    Vec<String>,
    Vec<crate::summary::FrontendOperationKey>,
    Vec<crate::summary::FrontendOperationKey>,
    Vec<String>,
) {
    (
        s.target_summaries_alpha_order,
        s.target_summaries_first_event_indices,
        s.target_summaries_last_event_indices,
        s.target_summaries_largest_duration_indices,
        s.frontend_file_largest_self_time_indices,
        s.frontend_file_largest_time_indices,
        s.source_file_largest_total_time_indices,
        s.source_file_largest_frontend_time_indices,
        s.source_file_largest_backend_time_indices,
        s.frontend_operation_largest_total_time_indices,
        s.frontend_operation_largest_self_time_indices,
        s.backend_operation_largest_total_time_indices,
    )
}

/// Attribute one profile's `Source` events into the per-include table.
pub fn process_sources(summary: &mut Summary, events: &Vec<Event>)
    requires
        old(summary).wf(),
    ensures
        final(summary).wf(),
        final(summary).frontend_file_process_summaries@ == source_attr_fold(
            old(summary).frontend_file_process_summaries@,
            stable_sorted(source_intervals(events@)),
        ),
        ffps_self_le_total(old(summary).frontend_file_process_summaries@) ==> ffps_self_le_total(
            final(summary).frontend_file_process_summaries@,
        ),
        *final(summary) == (Summary {
            frontend_file_process_summaries: final(summary).frontend_file_process_summaries,
            ..*old(summary)
        }),
{
    attribute_sources(&mut summary.frontend_file_process_summaries, events);
    proof {
        if ffps_self_le_total(old(summary).frontend_file_process_summaries@) {
            lemma_source_attr_fold_le(
                old(summary).frontend_file_process_summaries@,
                stable_sorted(source_intervals(events@)),
            );
        }
    }
}

/// Attribute one profile's frontend-operation events into the per-operation
/// table.
pub fn process_frontend_operations(summary: &mut Summary, events: &Vec<Event>)
    requires
        old(summary).wf(),
    ensures
        final(summary).wf(),
        final(summary).frontend_operation_summaries@ == op_attr_fold(
            old(summary).frontend_operation_summaries@,
            stable_sorted(operation_intervals(events@)),
        ),
        fops_self_le_total(old(summary).frontend_operation_summaries@) ==> fops_self_le_total(
            final(summary).frontend_operation_summaries@,
        ),
        *final(summary) == (Summary {
            frontend_operation_summaries: final(summary).frontend_operation_summaries,
            ..*old(summary)
        }),
{
    attribute_operations(&mut summary.frontend_operation_summaries, events);
    proof {
        if fops_self_le_total(old(summary).frontend_operation_summaries@) {
            lemma_op_attr_fold_le(
                old(summary).frontend_operation_summaries@,
                stable_sorted(operation_intervals(events@)),
            );
        }
    }
}

/// Sum one profile's backend events into the per-symbol table and the
/// single-event total, demangling through `cache`.
pub fn process_backend_operations(
    summary: &mut Summary,
    demangle_cache: &mut DemangleCache,
    events: &Vec<Event>,
)
    requires
        old(summary).wf(),
        old(demangle_cache).wf(),
    ensures
        final(summary).wf(),
        final(demangle_cache).wf(),
        final(summary).backend_operation_summaries@ == backend_fold_map(
            old(summary).backend_operation_summaries@,
            events@,
        ),
        final(summary).backend_duration_single_events_us == backend_fold_singles(
            old(summary).backend_duration_single_events_us,
            events@,
        ),
        final(demangle_cache).entries@.dom() == backend_fold_cache_dom(
            old(demangle_cache).entries@.dom(),
            events@,
        ),
        *final(summary) == (Summary {
            backend_operation_summaries: final(summary).backend_operation_summaries,
            backend_duration_single_events_us: final(summary).backend_duration_single_events_us,
            ..*old(summary)
        }),
{
    fold_backend_operations(
        &mut summary.backend_operation_summaries,
        &mut summary.backend_duration_single_events_us,
        demangle_cache,
        events,
    );
}

/// Fold one parsed profile into the summary under its target name and
/// display key.
pub fn process_single_file(
    summary: &mut Summary,
    demangle_cache: &mut DemangleCache,
    target_name: &str,
    display_key: &str,
    profile: &Profile,
)
    requires
        old(summary).wf(),
        old(demangle_cache).wf(),
    ensures
        final(summary).wf(),
        final(demangle_cache).wf(),
        summary_model(final(summary)) == fold_valid_file(
            summary_model(old(summary)),
            target_name@,
            display_key@,
            *profile,
        ),
        final(demangle_cache).entries@.dom() == backend_fold_cache_dom(
            old(demangle_cache).entries@.dom(),
            profile.events@,
        ),
        index_lists(final(summary)) == index_lists(old(summary)),
{
    let events = &profile.events;
    let mut fe: u64 = 0;
    let mut be: u64 = 0;
    let mut i: usize = 0;
    while i < events.len()
        invariant
            i <= events@.len(),
            fe == fe_total_spec(events@.take(i as int)),
            be == be_total_spec(events@.take(i as int)),
        decreases events@.len() - i,
    {
        let e = &events[i];
        if e.category == EventCategory::Frontend {
            fe = saturating_add_u64(fe, e.duration_us);
        } else if e.category == EventCategory::Backend {
            be = saturating_add_u64(be, e.duration_us);
        }
        proof {
            assert(events@.take(i + 1).drop_last() =~= events@.take(i as int));
            assert(events@.take(i + 1).last() == events@[i as int]);
        }
        i = i + 1;
    }
    proof {
        assert(events@.take(events@.len() as int) =~= events@);
    }
    let end = saturating_add_u128(profile.origin_time, fe as u128 + be as u128);

    summary.total_valid_files = saturating_add_usize(summary.total_valid_files, 1);
    if summary.first_event_time == 0 {
        summary.first_event_time = profile.origin_time;
    } else if profile.origin_time < summary.first_event_time {
        summary.first_event_time = profile.origin_time;
    }
    if end > summary.last_event_time {
        summary.last_event_time = end;
    }
    summary.frontend_duration_total_us = saturating_add_u64(
        summary.frontend_duration_total_us,
        fe,
    );
    summary.backend_duration_total_us = saturating_add_u64(summary.backend_duration_total_us, be);

    let target_key = target_name.to_owned();
    let cur_target = match summary.target_summaries.get(&target_key) {
        Some(t) => *t,
        None => TopLevelTargetSummary::zero(),
    };
    let merged_target = TopLevelTargetSummary {
        total_files: saturating_add_usize(cur_target.total_files, 1),
        total_frontend_duration_us: saturating_add_u64(
            cur_target.total_frontend_duration_us,
            fe,
        ),
        total_backend_duration_us: saturating_add_u64(cur_target.total_backend_duration_us, be),
        first_event_time: if cur_target.first_event_time == 0 {
            profile.origin_time
        } else if profile.origin_time < cur_target.first_event_time {
            profile.origin_time
        } else {
            cur_target.first_event_time
        },
        last_event_time: if end > cur_target.last_event_time {
            end
        } else {
            cur_target.last_event_time
        },
    };
    summary.target_summaries.set(target_key, merged_target);

    process_sources(summary, events);

    let source_entry = SourceFileProcessSummary {
        total_time_us: saturating_add_u64(fe, be),
        total_frontend_time_us: fe,
        total_backend_time_us: be,
    };
    summary.source_file_process_summaries.set(display_key.to_owned(), source_entry);

    process_frontend_operations(summary, events);

    process_backend_operations(summary, demangle_cache, events);
}

/// Record a file that could not be read or parsed: the run continues, the
/// file's target becomes known, and only the invalid counter grows.
pub fn record_invalid_file(summary: &mut Summary, target_name: &str)
    requires
        old(summary).wf(),
    ensures
        final(summary).wf(),
        summary_model(final(summary)) == fold_invalid_file(
            summary_model(old(summary)),
            target_name@,
        ),
        index_lists(final(summary)) == index_lists(old(summary)),
{
    let target_key = target_name.to_owned();
    let cur_target = match summary.target_summaries.get(&target_key) {
        Some(t) => *t,
        None => TopLevelTargetSummary::zero(),
    };
    summary.target_summaries.set(target_key, cur_target);
    summary.total_invalid_files = saturating_add_usize(summary.total_invalid_files, 1);
}

/// The alpha list and the three criterion lists over the target table are
/// permutations of its key set, in their stated orders.
pub open spec fn target_indices_ok(s: &Summary) -> bool {
    let m = s.target_summaries@;
    &&& lists_keys_of(s.target_summaries_alpha_order@, m)
    &&& (forall|i: int, j: int|
        0 <= i < j < s.target_summaries_alpha_order@.len() ==> str_le(
            s.target_summaries_alpha_order@[i]@,
            s.target_summaries_alpha_order@[j]@,
        ))
    &&& lists_keys_of(s.target_summaries_first_event_indices@, m)
    &&& (forall|i: int, j: int|
        0 <= i < j < s.target_summaries_first_event_indices@.len() ==> m[
            s.target_summaries_first_event_indices@[i]@
        ].first_event_time <= m[s.target_summaries_first_event_indices@[j]@].first_event_time)
    &&& lists_keys_of(s.target_summaries_last_event_indices@, m)
    &&& (forall|i: int, j: int|
        0 <= i < j < s.target_summaries_last_event_indices@.len() ==> m[
            s.target_summaries_last_event_indices@[i]@
        ].last_event_time <= m[s.target_summaries_last_event_indices@[j]@].last_event_time)
    &&& lists_keys_of(s.target_summaries_largest_duration_indices@, m)
    &&& (forall|i: int, j: int|
        0 <= i < j < s.target_summaries_largest_duration_indices@.len() ==> spec_sat_add_u64(
            m[s.target_summaries_largest_duration_indices@[i]@].total_frontend_duration_us,
            m[s.target_summaries_largest_duration_indices@[i]@].total_backend_duration_us,
        ) >= spec_sat_add_u64(
            m[s.target_summaries_largest_duration_indices@[j]@].total_frontend_duration_us,
            m[s.target_summaries_largest_duration_indices@[j]@].total_backend_duration_us,
        ))
}

/// The two criterion lists over the per-include table are permutations of
/// its key set, largest first.
pub open spec fn include_indices_ok(s: &Summary) -> bool {
    let m = s.frontend_file_process_summaries@;
    &&& lists_keys_of(s.frontend_file_largest_self_time_indices@, m)
    &&& (forall|i: int, j: int|
        0 <= i < j < s.frontend_file_largest_self_time_indices@.len() ==> m[
            s.frontend_file_largest_self_time_indices@[i]@
        ].self_time_us >= m[s.frontend_file_largest_self_time_indices@[j]@].self_time_us)
    &&& lists_keys_of(s.frontend_file_largest_time_indices@, m)
    &&& (forall|i: int, j: int|
        0 <= i < j < s.frontend_file_largest_time_indices@.len() ==> m[
            s.frontend_file_largest_time_indices@[i]@
        ].total_time_us >= m[s.frontend_file_largest_time_indices@[j]@].total_time_us)
}

/// The three criterion lists over the per-source-file table are permutations
/// of its key set, largest first.
pub open spec fn source_indices_ok(s: &Summary) -> bool {
    let m = s.source_file_process_summaries@;
    &&& lists_keys_of(s.source_file_largest_total_time_indices@, m)
    &&& (forall|i: int, j: int|
        0 <= i < j < s.source_file_largest_total_time_indices@.len() ==> m[
            s.source_file_largest_total_time_indices@[i]@
        ].total_time_us >= m[s.source_file_largest_total_time_indices@[j]@].total_time_us)
    &&& lists_keys_of(s.source_file_largest_frontend_time_indices@, m)
    &&& (forall|i: int, j: int|
        0 <= i < j < s.source_file_largest_frontend_time_indices@.len() ==> m[
            s.source_file_largest_frontend_time_indices@[i]@
        ].total_frontend_time_us >= m[
            s.source_file_largest_frontend_time_indices@[j]@
        ].total_frontend_time_us)
    &&& lists_keys_of(s.source_file_largest_backend_time_indices@, m)
    &&& (forall|i: int, j: int|
        0 <= i < j < s.source_file_largest_backend_time_indices@.len() ==> m[
            s.source_file_largest_backend_time_indices@[i]@
        ].total_backend_time_us >= m[
            s.source_file_largest_backend_time_indices@[j]@
        ].total_backend_time_us)
}

/// The two criterion lists over the frontend-operation table are
/// permutations of its key set, largest first.
pub open spec fn frontend_indices_ok(s: &Summary) -> bool {
    let m = s.frontend_operation_summaries@;
    &&& lists_keys_of(s.frontend_operation_largest_total_time_indices@, m)
    &&& (forall|i: int, j: int|
        0 <= i < j < s.frontend_operation_largest_total_time_indices@.len() ==> m[
            s.frontend_operation_largest_total_time_indices@[i]@
        ].total_time_us >= m[s.frontend_operation_largest_total_time_indices@[j]@].total_time_us)
    &&& lists_keys_of(s.frontend_operation_largest_self_time_indices@, m)
    &&& (forall|i: int, j: int|
        0 <= i < j < s.frontend_operation_largest_self_time_indices@.len() ==> m[
            s.frontend_operation_largest_self_time_indices@[i]@
        ].self_time_us >= m[s.frontend_operation_largest_self_time_indices@[j]@].self_time_us)
}

/// The criterion list over the backend-symbol table is a permutation of its
/// key set, largest total first.
pub open spec fn backend_indices_ok(s: &Summary) -> bool {
    let m = s.backend_operation_summaries@;
    &&& lists_keys_of(s.backend_operation_largest_total_time_indices@, m)
    &&& (forall|i: int, j: int|
        0 <= i < j < s.backend_operation_largest_total_time_indices@.len() ==> m[
            s.backend_operation_largest_total_time_indices@[i]@
        ].total_time_us >= m[s.backend_operation_largest_total_time_indices@[j]@].total_time_us)
}


/// Rebuild the four index lists of the target table.
pub fn process_summary_indices(summary: &mut Summary)
    requires
        old(summary).wf(),
    ensures
        final(summary).wf(),
        summary_model(final(summary)) == summary_model(old(summary)),
        target_indices_ok(final(summary)),
        *final(summary) == (Summary {
            target_summaries_alpha_order: final(summary).target_summaries_alpha_order,
            target_summaries_first_event_indices: final(summary).target_summaries_first_event_indices,
            target_summaries_last_event_indices: final(summary).target_summaries_last_event_indices,
            target_summaries_largest_duration_indices: final(summary).target_summaries_largest_duration_indices,
            ..*old(summary)
        }),
{
    let alpha = sorted_string_keys(&summary.target_summaries);
    let ghost m = summary.target_summaries@;
    let mut first_pairs: Vec<KeyTimeAsc> = Vec::new();
    let mut last_pairs: Vec<KeyTimeAsc> = Vec::new();
    let mut dur_pairs: Vec<KeyMetricDesc> = Vec::new();
    let mut i: usize = 0;
    while i < alpha.len()
        invariant
            *summary == *old(summary),
            summary.wf(),
            m == summary.target_summaries@,
            lists_keys_of(alpha@, m),
            i <= alpha@.len(),
            first_pairs@.len() == i,
            last_pairs@.len() == i,
            dur_pairs@.len() == i,
            forall|j: int|
                0 <= j < i ==> first_pairs@[j]@ == alpha@[j]@ && first_pairs@[j].metric == m[
                    alpha@[j]@
                ].first_event_time,
            forall|j: int|
                0 <= j < i ==> last_pairs@[j]@ == alpha@[j]@ && last_pairs@[j].metric == m[
                    alpha@[j]@
                ].last_event_time,
            forall|j: int|
                0 <= j < i ==> dur_pairs@[j]@ == alpha@[j]@ && dur_pairs@[j].metric
                    == spec_sat_add_u64(
                    m[alpha@[j]@].total_frontend_duration_us,
                    m[alpha@[j]@].total_backend_duration_us,
                ),
        decreases alpha@.len() - i,
    {
        let k = &alpha[i];
        proof {
            assert(views_of(alpha@)[i as int] == alpha@[i as int]@);
            assert(views_of(alpha@).contains(alpha@[i as int]@));
            assert(views_of(alpha@).to_set().contains(alpha@[i as int]@));
            assert(m.contains_key(alpha@[i as int]@));
        }
        let v = match summary.target_summaries.get(k) {
            Some(t) => *t,
            None => TopLevelTargetSummary::zero(),
        };
        first_pairs.push(KeyTimeAsc { key: k.clone(), metric: v.first_event_time });
        last_pairs.push(KeyTimeAsc { key: k.clone(), metric: v.last_event_time });
        dur_pairs.push(
            KeyMetricDesc {
                key: k.clone(),
                metric: saturating_add_u64(
                    v.total_frontend_duration_us,
                    v.total_backend_duration_us,
                ),
            },
        );
        i = i + 1;
    }
    proof {
        assert(views_of(first_pairs@) =~= views_of(alpha@));
        assert(views_of(last_pairs@) =~= views_of(alpha@));
        assert(views_of(dur_pairs@) =~= views_of(alpha@));
        assert forall|a: int, b: int| 0 <= a < b < first_pairs@.len() implies first_pairs@[a]@
            != first_pairs@[b]@ by {
            assert(alpha@[a]@ != alpha@[b]@);
        }
        assert forall|a: int, b: int| 0 <= a < b < last_pairs@.len() implies last_pairs@[a]@
            != last_pairs@[b]@ by {
            assert(alpha@[a]@ != alpha@[b]@);
        }
        assert forall|a: int, b: int| 0 <= a < b < dur_pairs@.len() implies dur_pairs@[a]@
            != dur_pairs@[b]@ by {
            assert(alpha@[a]@ != alpha@[b]@);
        }
    }
    let ghost fp = first_pairs@;
    let ghost lp = last_pairs@;
    let ghost dp = dur_pairs@;
    let first_idx = order_keys_by_time(first_pairs);
    let last_idx = order_keys_by_time(last_pairs);
    let dur_idx = order_keys_desc(dur_pairs);
    proof {
        assert forall|a: int, b: int| 0 <= a < b < first_idx@.len() implies m[
            first_idx@[a]@
        ].first_event_time <= m[first_idx@[b]@].first_event_time by {
            let sp = stable_sorted(fp);
            assert(fp.contains(sp[a]));
            assert(fp.contains(sp[b]));
            let x = choose|x: int| 0 <= x < fp.len() && fp[x] == sp[a];
            let y = choose|y: int| 0 <= y < fp.len() && fp[y] == sp[b];
            assert(sp[a].metric == m[sp[a]@].first_event_time);
            assert(sp[b].metric == m[sp[b]@].first_event_time);
            assert(first_idx@[a]@ == sp[a]@);
            assert(first_idx@[b]@ == sp[b]@);
        }
        assert forall|a: int, b: int| 0 <= a < b < last_idx@.len() implies m[
            last_idx@[a]@
        ].last_event_time <= m[last_idx@[b]@].last_event_time by {
            let sp = stable_sorted(lp);
            assert(lp.contains(sp[a]));
            assert(lp.contains(sp[b]));
            let x = choose|x: int| 0 <= x < lp.len() && lp[x] == sp[a];
            let y = choose|y: int| 0 <= y < lp.len() && lp[y] == sp[b];
            assert(sp[a].metric == m[sp[a]@].last_event_time);
            assert(sp[b].metric == m[sp[b]@].last_event_time);
            assert(last_idx@[a]@ == sp[a]@);
            assert(last_idx@[b]@ == sp[b]@);
        }
        assert forall|a: int, b: int| 0 <= a < b < dur_idx@.len() implies spec_sat_add_u64(
            m[dur_idx@[a]@].total_frontend_duration_us,
            m[dur_idx@[a]@].total_backend_duration_us,
        ) >= spec_sat_add_u64(
            m[dur_idx@[b]@].total_frontend_duration_us,
            m[dur_idx@[b]@].total_backend_duration_us,
        ) by {
            let sp = stable_sorted(dp);
            assert(dp.contains(sp[a]));
            assert(dp.contains(sp[b]));
            let x = choose|x: int| 0 <= x < dp.len() && dp[x] == sp[a];
            let y = choose|y: int| 0 <= y < dp.len() && dp[y] == sp[b];
            assert(sp[a].metric == spec_sat_add_u64(
                m[sp[a]@].total_frontend_duration_us,
                m[sp[a]@].total_backend_duration_us,
            ));
            assert(sp[b].metric == spec_sat_add_u64(
                m[sp[b]@].total_frontend_duration_us,
                m[sp[b]@].total_backend_duration_us,
            ));
            assert(dur_idx@[a]@ == sp[a]@);
            assert(dur_idx@[b]@ == sp[b]@);
        }
    }
    summary.target_summaries_alpha_order = alpha;
    summary.target_summaries_first_event_indices = first_idx;
    summary.target_summaries_last_event_indices = last_idx;
    summary.target_summaries_largest_duration_indices = dur_idx;
}

/// Rebuild the two index lists of the per-include table.
pub fn process_include_indices(summary: &mut Summary)
    requires
        old(summary).wf(),
    ensures
        final(summary).wf(),
        summary_model(final(summary)) == summary_model(old(summary)),
        include_indices_ok(final(summary)),
        *final(summary) == (Summary {
            frontend_file_largest_self_time_indices: final(summary).frontend_file_largest_self_time_indices,
            frontend_file_largest_time_indices: final(summary).frontend_file_largest_time_indices,
            ..*old(summary)
        }),
{
    let alpha = sorted_string_keys(&summary.frontend_file_process_summaries);
    let ghost m = summary.frontend_file_process_summaries@;
    let mut pairs0: Vec<KeyMetricDesc> = Vec::new();
    let mut pairs1: Vec<KeyMetricDesc> = Vec::new();
    let mut i: usize = 0;
    while i < alpha.len()
        invariant
            *summary == *old(summary),
            summary.wf(),
            m == summary.frontend_file_process_summaries@,
            lists_keys_of(alpha@, m),
            i <= alpha@.len(),
            pairs0@.len() == i,
            forall|j: int|
                0 <= j < i ==> pairs0@[j]@ == alpha@[j]@ && pairs0@[j].metric == m[alpha@[j]@].self_time_us,
            pairs1@.len() == i,
            forall|j: int|
                0 <= j < i ==> pairs1@[j]@ == alpha@[j]@ && pairs1@[j].metric == m[alpha@[j]@].total_time_us,
        decreases alpha@.len() - i,
    {
        let k = &alpha[i];
        proof {
            assert(views_of(alpha@)[i as int] == alpha@[i as int]@);
            assert(views_of(alpha@).contains(alpha@[i as int]@));
            assert(views_of(alpha@).to_set().contains(alpha@[i as int]@));
            assert(m.contains_key(alpha@[i as int]@));
        }
        let v = match summary.frontend_file_process_summaries.get(k) {
            Some(t) => *t,
            None => FrontendFileProcessSummary { total_time_us: 0, self_time_us: 0, num: 0 },
        };
        pairs0.push(KeyMetricDesc { key: k.clone(), metric: v.self_time_us });
        pairs1.push(KeyMetricDesc { key: k.clone(), metric: v.total_time_us });
        i = i + 1;
    }
    proof {
        assert(views_of(pairs0@) =~= views_of(alpha@));
        assert forall|a: int, b: int| 0 <= a < b < pairs0@.len() implies pairs0@[a]@
            != pairs0@[b]@ by {
            assert(alpha@[a]@ != alpha@[b]@);
        }
        assert(views_of(pairs1@) =~= views_of(alpha@));
        assert forall|a: int, b: int| 0 <= a < b < pairs1@.len() implies pairs1@[a]@
            != pairs1@[b]@ by {
            assert(alpha@[a]@ != alpha@[b]@);
        }
    }
    let ghost gp0 = pairs0@;
    let ghost gp1 = pairs1@;
    let idx0 = order_keys_desc(pairs0);
    let idx1 = order_keys_desc(pairs1);
    proof {
        assert forall|a: int, b: int| 0 <= a < b < idx0@.len() implies m[idx0@[a]@].self_time_us
            >= m[idx0@[b]@].self_time_us by {
            let sp = stable_sorted(gp0);
            assert(gp0.contains(sp[a]));
            assert(gp0.contains(sp[b]));
            let x = choose|x: int| 0 <= x < gp0.len() && gp0[x] == sp[a];
            let y = choose|y: int| 0 <= y < gp0.len() && gp0[y] == sp[b];
            assert(sp[a].metric == m[sp[a]@].self_time_us);
            assert(sp[b].metric == m[sp[b]@].self_time_us);
            assert(idx0@[a]@ == sp[a]@);
            assert(idx0@[b]@ == sp[b]@);
        }
        assert forall|a: int, b: int| 0 <= a < b < idx1@.len() implies m[idx1@[a]@].total_time_us
            >= m[idx1@[b]@].total_time_us by {
            let sp = stable_sorted(gp1);
            assert(gp1.contains(sp[a]));
            assert(gp1.contains(sp[b]));
            let x = choose|x: int| 0 <= x < gp1.len() && gp1[x] == sp[a];
            let y = choose|y: int| 0 <= y < gp1.len() && gp1[y] == sp[b];
            assert(sp[a].metric == m[sp[a]@].total_time_us);
            assert(sp[b].metric == m[sp[b]@].total_time_us);
            assert(idx1@[a]@ == sp[a]@);
            assert(idx1@[b]@ == sp[b]@);
        }
    }
    summary.frontend_file_largest_self_time_indices = idx0;
    summary.frontend_file_largest_time_indices = idx1;
}

/// Rebuild the three index lists of the per-source-file table.
pub fn process_source_indices(summary: &mut Summary)
    requires
        old(summary).wf(),
    ensures
        final(summary).wf(),
        summary_model(final(summary)) == summary_model(old(summary)),
        source_indices_ok(final(summary)),
        *final(summary) == (Summary {
            source_file_largest_total_time_indices: final(summary).source_file_largest_total_time_indices,
            source_file_largest_frontend_time_indices: final(summary).source_file_largest_frontend_time_indices,
            source_file_largest_backend_time_indices: final(summary).source_file_largest_backend_time_indices,
            ..*old(summary)
        }),
{
    let alpha = sorted_string_keys(&summary.source_file_process_summaries);
    let ghost m = summary.source_file_process_summaries@;
    let mut pairs0: Vec<KeyMetricDesc> = Vec::new();
    let mut pairs1: Vec<KeyMetricDesc> = Vec::new();
    let mut pairs2: Vec<KeyMetricDesc> = Vec::new();
    let mut i: usize = 0;
    while i < alpha.len()
        invariant
            *summary == *old(summary),
            summary.wf(),
            m == summary.source_file_process_summaries@,
            lists_keys_of(alpha@, m),
            i <= alpha@.len(),
            pairs0@.len() == i,
            forall|j: int|
                0 <= j < i ==> pairs0@[j]@ == alpha@[j]@ && pairs0@[j].metric == m[alpha@[j]@].total_time_us,
            pairs1@.len() == i,
            forall|j: int|
                0 <= j < i ==> pairs1@[j]@ == alpha@[j]@ && pairs1@[j].metric == m[alpha@[j]@].total_frontend_time_us,
            pairs2@.len() == i,
            forall|j: int|
                0 <= j < i ==> pairs2@[j]@ == alpha@[j]@ && pairs2@[j].metric == m[alpha@[j]@].total_backend_time_us,
        decreases alpha@.len() - i,
    {
        let k = &alpha[i];
        proof {
            assert(views_of(alpha@)[i as int] == alpha@[i as int]@);
            assert(views_of(alpha@).contains(alpha@[i as int]@));
            assert(views_of(alpha@).to_set().contains(alpha@[i as int]@));
            assert(m.contains_key(alpha@[i as int]@));
        }
        let v = match summary.source_file_process_summaries.get(k) {
            Some(t) => *t,
            None => SourceFileProcessSummary { total_time_us: 0, total_frontend_time_us: 0, total_backend_time_us: 0 },
        };
        pairs0.push(KeyMetricDesc { key: k.clone(), metric: v.total_time_us });
        pairs1.push(KeyMetricDesc { key: k.clone(), metric: v.total_frontend_time_us });
        pairs2.push(KeyMetricDesc { key: k.clone(), metric: v.total_backend_time_us });
        i = i + 1;
    }
    proof {
        assert(views_of(pairs0@) =~= views_of(alpha@));
        assert forall|a: int, b: int| 0 <= a < b < pairs0@.len() implies pairs0@[a]@
            != pairs0@[b]@ by {
            assert(alpha@[a]@ != alpha@[b]@);
        }
        assert(views_of(pairs1@) =~= views_of(alpha@));
        assert forall|a: int, b: int| 0 <= a < b < pairs1@.len() implies pairs1@[a]@
            != pairs1@[b]@ by {
            assert(alpha@[a]@ != alpha@[b]@);
        }
        assert(views_of(pairs2@) =~= views_of(alpha@));
        assert forall|a: int, b: int| 0 <= a < b < pairs2@.len() implies pairs2@[a]@
            != pairs2@[b]@ by {
            assert(alpha@[a]@ != alpha@[b]@);
        }
    }
    let ghost gp0 = pairs0@;
    let ghost gp1 = pairs1@;
    let ghost gp2 = pairs2@;
    let idx0 = order_keys_desc(pairs0);
    let idx1 = order_keys_desc(pairs1);
    let idx2 = order_keys_desc(pairs2);
    proof {
        assert forall|a: int, b: int| 0 <= a < b < idx0@.len() implies m[idx0@[a]@].total_time_us
            >= m[idx0@[b]@].total_time_us by {
            let sp = stable_sorted(gp0);
            assert(gp0.contains(sp[a]));
            assert(gp0.contains(sp[b]));
            let x = choose|x: int| 0 <= x < gp0.len() && gp0[x] == sp[a];
            let y = choose|y: int| 0 <= y < gp0.len() && gp0[y] == sp[b];
            assert(sp[a].metric == m[sp[a]@].total_time_us);
            assert(sp[b].metric == m[sp[b]@].total_time_us);
            assert(idx0@[a]@ == sp[a]@);
            assert(idx0@[b]@ == sp[b]@);
        }
        assert forall|a: int, b: int| 0 <= a < b < idx1@.len() implies m[idx1@[a]@].total_frontend_time_us
            >= m[idx1@[b]@].total_frontend_time_us by {
            let sp = stable_sorted(gp1);
            assert(gp1.contains(sp[a]));
            assert(gp1.contains(sp[b]));
            let x = choose|x: int| 0 <= x < gp1.len() && gp1[x] == sp[a];
            let y = choose|y: int| 0 <= y < gp1.len() && gp1[y] == sp[b];
            assert(sp[a].metric == m[sp[a]@].total_frontend_time_us);
            assert(sp[b].metric == m[sp[b]@].total_frontend_time_us);
            assert(idx1@[a]@ == sp[a]@);
            assert(idx1@[b]@ == sp[b]@);
        }
        assert forall|a: int, b: int| 0 <= a < b < idx2@.len() implies m[idx2@[a]@].total_backend_time_us
            >= m[idx2@[b]@].total_backend_time_us by {
            let sp = stable_sorted(gp2);
            assert(gp2.contains(sp[a]));
            assert(gp2.contains(sp[b]));
            let x = choose|x: int| 0 <= x < gp2.len() && gp2[x] == sp[a];
            let y = choose|y: int| 0 <= y < gp2.len() && gp2[y] == sp[b];
            assert(sp[a].metric == m[sp[a]@].total_backend_time_us);
            assert(sp[b].metric == m[sp[b]@].total_backend_time_us);
            assert(idx2@[a]@ == sp[a]@);
            assert(idx2@[b]@ == sp[b]@);
        }
    }
    summary.source_file_largest_total_time_indices = idx0;
    summary.source_file_largest_frontend_time_indices = idx1;
    summary.source_file_largest_backend_time_indices = idx2;
}

/// Rebuild the two index lists of the frontend-operation table.
pub fn process_frontend_indices(summary: &mut Summary)
    requires
        old(summary).wf(),
    ensures
        final(summary).wf(),
        summary_model(final(summary)) == summary_model(old(summary)),
        frontend_indices_ok(final(summary)),
        *final(summary) == (Summary {
            frontend_operation_largest_total_time_indices: final(summary).frontend_operation_largest_total_time_indices,
            frontend_operation_largest_self_time_indices: final(summary).frontend_operation_largest_self_time_indices,
            ..*old(summary)
        }),
{
    let alpha = sorted_op_keys(&summary.frontend_operation_summaries);
    let ghost m = summary.frontend_operation_summaries@;
    let mut pairs0: Vec<OpKeyMetricDesc> = Vec::new();
    let mut pairs1: Vec<OpKeyMetricDesc> = Vec::new();
    let mut i: usize = 0;
    while i < alpha.len()
        invariant
            *summary == *old(summary),
            summary.wf(),
            m == summary.frontend_operation_summaries@,
            lists_keys_of(alpha@, m),
            i <= alpha@.len(),
            pairs0@.len() == i,
            forall|j: int|
                0 <= j < i ==> pairs0@[j]@ == alpha@[j]@ && pairs0@[j].metric == m[alpha@[j]@].total_time_us,
            pairs1@.len() == i,
            forall|j: int|
                0 <= j < i ==> pairs1@[j]@ == alpha@[j]@ && pairs1@[j].metric == m[alpha@[j]@].self_time_us,
        decreases alpha@.len() - i,
    {
        let k = &alpha[i];
        proof {
            assert(views_of(alpha@)[i as int] == alpha@[i as int]@);
            assert(views_of(alpha@).contains(alpha@[i as int]@));
            assert(views_of(alpha@).to_set().contains(alpha@[i as int]@));
            assert(m.contains_key(alpha@[i as int]@));
        }
        let v = match summary.frontend_operation_summaries.get(k) {
            Some(t) => *t,
            None => FrontendOperationSummary { total_time_us: 0, self_time_us: 0, num: 0 },
        };
        pairs0.push(OpKeyMetricDesc { key: FrontendOperationKey { name: k.name.clone(), op: k.op }, metric: v.total_time_us });
        pairs1.push(OpKeyMetricDesc { key: FrontendOperationKey { name: k.name.clone(), op: k.op }, metric: v.self_time_us });
        i = i + 1;
    }
    proof {
        assert(views_of(pairs0@) =~= views_of(alpha@));
        assert forall|a: int, b: int| 0 <= a < b < pairs0@.len() implies pairs0@[a]@
            != pairs0@[b]@ by {
            assert(alpha@[a]@ != alpha@[b]@);
        }
        assert(views_of(pairs1@) =~= views_of(alpha@));
        assert forall|a: int, b: int| 0 <= a < b < pairs1@.len() implies pairs1@[a]@
            != pairs1@[b]@ by {
            assert(alpha@[a]@ != alpha@[b]@);
        }
    }
    let ghost gp0 = pairs0@;
    let ghost gp1 = pairs1@;
    let idx0 = order_op_keys_desc(pairs0);
    let idx1 = order_op_keys_desc(pairs1);
    proof {
        assert forall|a: int, b: int| 0 <= a < b < idx0@.len() implies m[idx0@[a]@].total_time_us
            >= m[idx0@[b]@].total_time_us by {
            let sp = stable_sorted(gp0);
            assert(gp0.contains(sp[a]));
            assert(gp0.contains(sp[b]));
            let x = choose|x: int| 0 <= x < gp0.len() && gp0[x] == sp[a];
            let y = choose|y: int| 0 <= y < gp0.len() && gp0[y] == sp[b];
            assert(sp[a].metric == m[sp[a]@].total_time_us);
            assert(sp[b].metric == m[sp[b]@].total_time_us);
            assert(idx0@[a]@ == sp[a]@);
            assert(idx0@[b]@ == sp[b]@);
        }
        assert forall|a: int, b: int| 0 <= a < b < idx1@.len() implies m[idx1@[a]@].self_time_us
            >= m[idx1@[b]@].self_time_us by {
            let sp = stable_sorted(gp1);
            assert(gp1.contains(sp[a]));
            assert(gp1.contains(sp[b]));
            let x = choose|x: int| 0 <= x < gp1.len() && gp1[x] == sp[a];
            let y = choose|y: int| 0 <= y < gp1.len() && gp1[y] == sp[b];
            assert(sp[a].metric == m[sp[a]@].self_time_us);
            assert(sp[b].metric == m[sp[b]@].self_time_us);
            assert(idx1@[a]@ == sp[a]@);
            assert(idx1@[b]@ == sp[b]@);
        }
    }
    summary.frontend_operation_largest_total_time_indices = idx0;
    summary.frontend_operation_largest_self_time_indices = idx1;
}

/// Rebuild the index list of the backend-symbol table.
pub fn process_backend_indices(summary: &mut Summary)
    requires
        old(summary).wf(),
    ensures
        final(summary).wf(),
        summary_model(final(summary)) == summary_model(old(summary)),
        backend_indices_ok(final(summary)),
        *final(summary) == (Summary {
            backend_operation_largest_total_time_indices: final(summary).backend_operation_largest_total_time_indices,
            ..*old(summary)
        }),
{
    let alpha = sorted_string_keys(&summary.backend_operation_summaries);
    let ghost m = summary.backend_operation_summaries@;
    let mut pairs0: Vec<KeyMetricDesc> = Vec::new();
    let mut i: usize = 0;
    while i < alpha.len()
        invariant
            *summary == *old(summary),
            summary.wf(),
            m == summary.backend_operation_summaries@,
            lists_keys_of(alpha@, m),
            i <= alpha@.len(),
            pairs0@.len() == i,
            forall|j: int|
                0 <= j < i ==> pairs0@[j]@ == alpha@[j]@ && pairs0@[j].metric == m[alpha@[j]@].total_time_us,
        decreases alpha@.len() - i,
    {
        let k = &alpha[i];
        proof {
            assert(views_of(alpha@)[i as int] == alpha@[i as int]@);
            assert(views_of(alpha@).contains(alpha@[i as int]@));
            assert(views_of(alpha@).to_set().contains(alpha@[i as int]@));
            assert(m.contains_key(alpha@[i as int]@));
        }
        let v = match summary.backend_operation_summaries.get(k) {
            Some(t) => *t,
            None => BackendOperationSummaries { total_time_us: 0, num: 0 },
        };
        pairs0.push(KeyMetricDesc { key: k.clone(), metric: v.total_time_us });
        i = i + 1;
    }
    proof {
        assert(views_of(pairs0@) =~= views_of(alpha@));
        assert forall|a: int, b: int| 0 <= a < b < pairs0@.len() implies pairs0@[a]@
            != pairs0@[b]@ by {
            assert(alpha@[a]@ != alpha@[b]@);
        }
    }
    let ghost gp0 = pairs0@;
    let idx0 = order_keys_desc(pairs0);
    proof {
        assert forall|a: int, b: int| 0 <= a < b < idx0@.len() implies m[idx0@[a]@].total_time_us
            >= m[idx0@[b]@].total_time_us by {
            let sp = stable_sorted(gp0);
            assert(gp0.contains(sp[a]));
            assert(gp0.contains(sp[b]));
            let x = choose|x: int| 0 <= x < gp0.len() && gp0[x] == sp[a];
            let y = choose|y: int| 0 <= y < gp0.len() && gp0[y] == sp[b];
            assert(sp[a].metric == m[sp[a]@].total_time_us);
            assert(sp[b].metric == m[sp[b]@].total_time_us);
            assert(idx0@[a]@ == sp[a]@);
            assert(idx0@[b]@ == sp[b]@);
        }
    }
    summary.backend_operation_largest_total_time_indices = idx0;
}


/// One discovered trace file, handed to the engine with its accounting
/// coordinates and its decoded contents; `None` stands for a file that could
/// not be read or did not parse.
pub struct TraceFileRecord {
    pub target_name: String,
    pub display_key: String,
    pub profile: Option<Profile>,
}

/// The outcome of one analysis run: what was analyzed, where the build
/// metadata was found, and the aggregate itself.
pub struct AnalyisisResult {
    pub selected_path: String,
    pub resolved_cmake_files_path: String,
    pub build_variant: BuildVariant,
    pub summary: Summary,
}

/// Why a whole run failed. Only layout resolution fails a run; per-file
/// problems are counted and skipped.
#[derive(Debug)]
pub enum AnalysisError {
    InvalidPath(CmakeCachePathInferenceError),
    Other(String),
}

/// The model after folding in a list of trace files, in order.
pub open spec fn fold_trace_files(m: SummaryModel, files: Seq<TraceFileRecord>) -> SummaryModel
    decreases files.len(),
{
    if files.len() == 0 {
        m
    } else {
        let pm = fold_trace_files(m, files.drop_last());
        let f = files.last();
        match f.profile {
            Some(p) => fold_valid_file(pm, f.target_name@, f.display_key@, p),
            None => fold_invalid_file(pm, f.target_name@),
        }
    }
}

/// Analyze one batch of discovered trace files: fold every file into a fresh
/// summary, then derive every index list. The resulting aggregate is a
/// function of the file list alone, so an unchanged tree analyzed twice
/// yields the same numbers.
pub fn analyze_path(
    selected_path: &str,
    resolved_cmake_files_path: &str,
    build_variant: BuildVariant,
    trace_files: &Vec<TraceFileRecord>,
) -> (r: AnalyisisResult)
    ensures
        r.selected_path@ == selected_path@,
        r.resolved_cmake_files_path@ == resolved_cmake_files_path@,
        r.build_variant == build_variant,
        r.summary.wf(),
        summary_model(&r.summary) == fold_trace_files(empty_model(), trace_files@),
        target_indices_ok(&r.summary),
        include_indices_ok(&r.summary),
        source_indices_ok(&r.summary),
        frontend_indices_ok(&r.summary),
        backend_indices_ok(&r.summary),
{
    let mut summary = Summary::new();
    let mut cache = DemangleCache::new();
    let mut i: usize = 0;
    while i < trace_files.len()
        invariant
            i <= trace_files@.len(),
            summary.wf(),
            cache.wf(),
            summary_model(&summary) == fold_trace_files(
                empty_model(),
                trace_files@.take(i as int),
            ),
        decreases trace_files@.len() - i,
    {
        let f = &trace_files[i];
        match &f.profile {
            Some(p) => {
                process_single_file(
                    &mut summary,
                    &mut cache,
                    f.target_name.as_str(),
                    f.display_key.as_str(),
                    p,
                );
            },
            None => {
                record_invalid_file(&mut summary, f.target_name.as_str());
            },
        }
        proof {
            assert(trace_files@.take(i + 1).drop_last() =~= trace_files@.take(i as int));
            assert(trace_files@.take(i + 1).last() == trace_files@[i as int]);
        }
        i = i + 1;
    }
    proof {
        assert(trace_files@.take(trace_files@.len() as int) =~= trace_files@);
    }
    process_summary_indices(&mut summary);
    process_include_indices(&mut summary);
    process_source_indices(&mut summary);
    process_frontend_indices(&mut summary);
    process_backend_indices(&mut summary);
    AnalyisisResult {
        selected_path: selected_path.to_owned(),
        resolved_cmake_files_path: resolved_cmake_files_path.to_owned(),
        build_variant,
        summary,
    }
}

} // verus!
