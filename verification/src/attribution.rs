//! The self/total time attribution engine.
//!
//! For a family of named, possibly-nested intervals it computes, per
//! accounting key, the total elapsed time, the "self" time (elapsed time not
//! spent in a nested child of the same family) and the occurrence count.
//!
//! The algorithm: sort the intervals by start time (stable), then walk them
//! keeping a stack of `(key, end_time)`. For each interval, add its duration
//! to the total and self time of its key; if the stack's top entry still
//! strictly encloses the interval, subtract the duration from that entry's
//! self time; pop every stack entry that ends at or before this interval's
//! end; push the interval. The input is assumed, not checked, to nest
//! properly: the self-time subtraction clamps at zero rather than wrapping.
//!
//! The same engine runs twice per profile, with independent stacks: once for
//! the include-file `Source` events and once for the frontend operations.

use vstd::prelude::*;
use crate::arith::{
    saturating_add_u64, saturating_add_usize, saturating_sub_u64, spec_sat_add_u64,
    spec_sat_add_usize, spec_sat_sub_u64,
};
use crate::linmap::LinMap;
use crate::sorting::{insertion_sort, stable_sorted, SortOrd};
use crate::summary::{
    FrontendFileProcessSummary, FrontendOperation, FrontendOperationKey, FrontendOperationSummary,
};
use crate::trace::{Event, EventCategory};

verus! {

/// One include-file interval: the included path, its start and duration.
pub struct SourceInterval {
    pub key: String,
    pub start_us: u64,
    pub duration_us: u64,
}

impl SortOrd for SourceInterval {
    open spec fn le_spec(&self, other: &Self) -> bool {
        self.start_us <= other.start_us
    }

    proof fn lemma_le_total(a: &Self, b: &Self) {
    }

    proof fn lemma_le_trans(a: &Self, b: &Self, c: &Self) {
    }

    fn le(&self, other: &Self) -> (r: bool) {
        self.start_us <= other.start_us
    }
}

/// One frontend-operation interval: the compound key, start and duration.
pub struct OperationInterval {
    pub key: FrontendOperationKey,
    pub start_us: u64,
    pub duration_us: u64,
}

impl SortOrd for OperationInterval {
    open spec fn le_spec(&self, other: &Self) -> bool {
        self.start_us <= other.start_us
    }

    proof fn lemma_le_total(a: &Self, b: &Self) {
    }

    proof fn lemma_le_trans(a: &Self, b: &Self, c: &Self) {
    }

    fn le(&self, other: &Self) -> (r: bool) {
        self.start_us <= other.start_us
    }
}

/// The first timestamp past an interval.
pub open spec fn source_iv_end(iv: SourceInterval) -> u64 {
    spec_sat_add_u64(iv.start_us, iv.duration_us)
}

/// The first timestamp past an interval.
pub open spec fn op_iv_end(iv: OperationInterval) -> u64 {
    spec_sat_add_u64(iv.start_us, iv.duration_us)
}

/// The entry of `k`, or the all-zero entry if `k` has none yet.
pub open spec fn ffps_or_zero(
    m: Map<Seq<char>, FrontendFileProcessSummary>,
    k: Seq<char>,
) -> FrontendFileProcessSummary {
    if m.contains_key(k) {
        m[k]
    } else {
        FrontendFileProcessSummary { total_time_us: 0, self_time_us: 0, num: 0 }
    }
}

/// The entry of `k`, or the all-zero entry if `k` has none yet.
pub open spec fn fops_or_zero(
    m: Map<(Seq<char>, FrontendOperation), FrontendOperationSummary>,
    k: (Seq<char>, FrontendOperation),
) -> FrontendOperationSummary {
    if m.contains_key(k) {
        m[k]
    } else {
        FrontendOperationSummary { total_time_us: 0, self_time_us: 0, num: 0 }
    }
}

/// Count one occurrence of duration `dur`: total and (provisionally) self
/// time both grow by `dur`.
pub open spec fn ffps_add(
    e: FrontendFileProcessSummary,
    dur: u64,
) -> FrontendFileProcessSummary {
    FrontendFileProcessSummary {
        total_time_us: spec_sat_add_u64(e.total_time_us, dur),
        self_time_us: spec_sat_add_u64(e.self_time_us, dur),
        num: spec_sat_add_usize(e.num, 1),
    }
}

/// Count one occurrence of duration `dur`.
pub open spec fn fops_add(e: FrontendOperationSummary, dur: u64) -> FrontendOperationSummary {
    FrontendOperationSummary {
        total_time_us: spec_sat_add_u64(e.total_time_us, dur),
        self_time_us: spec_sat_add_u64(e.self_time_us, dur),
        num: spec_sat_add_usize(e.num, 1),
    }
}

/// Move `dur` out of the entry's self time: the time belongs to a nested
/// child.
pub open spec fn ffps_sub_self(
    e: FrontendFileProcessSummary,
    dur: u64,
) -> FrontendFileProcessSummary {
    FrontendFileProcessSummary {
        total_time_us: e.total_time_us,
        self_time_us: spec_sat_sub_u64(e.self_time_us, dur),
        num: e.num,
    }
}

/// Move `dur` out of the entry's self time.
pub open spec fn fops_sub_self(e: FrontendOperationSummary, dur: u64) -> FrontendOperationSummary {
    FrontendOperationSummary {
        total_time_us: e.total_time_us,
        self_time_us: spec_sat_sub_u64(e.self_time_us, dur),
        num: e.num,
    }
}

/// One attribution step: account interval `iv` given that `prev` is the
/// stack's top, the interval processed just before `iv`.
pub open spec fn source_attr_step(
    m: Map<Seq<char>, FrontendFileProcessSummary>,
    prev: Option<(Seq<char>, u64)>,
    iv: SourceInterval,
) -> Map<Seq<char>, FrontendFileProcessSummary> {
    let end = source_iv_end(iv);
    let m1 = m.insert(iv.key@, ffps_add(ffps_or_zero(m, iv.key@), iv.duration_us));
    match prev {
        Some((pk, pend)) => if pend > end {
            m1.insert(pk, ffps_sub_self(ffps_or_zero(m1, pk), iv.duration_us))
        } else {
            m1
        },
        None => m1,
    }
}

/// One attribution step of the frontend-operation family.
pub open spec fn op_attr_step(
    m: Map<(Seq<char>, FrontendOperation), FrontendOperationSummary>,
    prev: Option<((Seq<char>, FrontendOperation), u64)>,
    iv: OperationInterval,
) -> Map<(Seq<char>, FrontendOperation), FrontendOperationSummary> {
    let end = op_iv_end(iv);
    let m1 = m.insert(iv.key@, fops_add(fops_or_zero(m, iv.key@), iv.duration_us));
    match prev {
        Some((pk, pend)) => if pend > end {
            m1.insert(pk, fops_sub_self(fops_or_zero(m1, pk), iv.duration_us))
        } else {
            m1
        },
        None => m1,
    }
}

/// The stack's top while processing interval `i` of the sorted sequence: the
/// interval processed just before it.
pub open spec fn source_prev(ivs: Seq<SourceInterval>, i: int) -> Option<(Seq<char>, u64)> {
    if i >= 1 {
        Some((ivs[i - 1].key@, source_iv_end(ivs[i - 1])))
    } else {
        None
    }
}

/// The stack's top while processing interval `i` of the sorted sequence.
pub open spec fn op_prev(ivs: Seq<OperationInterval>, i: int) -> Option<
    ((Seq<char>, FrontendOperation), u64),
> {
    if i >= 1 {
        Some((ivs[i - 1].key@, op_iv_end(ivs[i - 1])))
    } else {
        None
    }
}

/// The attribution of a whole sorted interval sequence, folded left to
/// right into `m`.
pub open spec fn source_attr_fold(
    m: Map<Seq<char>, FrontendFileProcessSummary>,
    ivs: Seq<SourceInterval>,
) -> Map<Seq<char>, FrontendFileProcessSummary>
    decreases ivs.len(),
{
    if ivs.len() == 0 {
        m
    } else {
        source_attr_step(
            source_attr_fold(m, ivs.drop_last()),
            source_prev(ivs, ivs.len() - 1),
            ivs.last(),
        )
    }
}

/// The attribution of a whole sorted interval sequence.
pub open spec fn op_attr_fold(
    m: Map<(Seq<char>, FrontendOperation), FrontendOperationSummary>,
    ivs: Seq<OperationInterval>,
) -> Map<(Seq<char>, FrontendOperation), FrontendOperationSummary>
    decreases ivs.len(),
{
    if ivs.len() == 0 {
        m
    } else {
        op_attr_step(op_attr_fold(m, ivs.drop_last()), op_prev(ivs, ivs.len() - 1), ivs.last())
    }
}

/// The `Source` events of a profile that carry a detail, in order, as
/// intervals keyed by the included path.
pub open spec fn source_intervals(events: Seq<Event>) -> Seq<SourceInterval>
    decreases events.len(),
{
    if events.len() == 0 {
        Seq::empty()
    } else {
        let rest = source_intervals(events.drop_last());
        let e = events.last();
        if e.category == EventCategory::Source && e.detail is Some {
            rest.push(
                SourceInterval {
                    key: e.detail.unwrap(),
                    start_us: e.start_us,
                    duration_us: e.duration_us,
                },
            )
        } else {
            rest
        }
    }
}

/// The frontend operation a category denotes, if any.
pub open spec fn spec_operation_of(c: EventCategory) -> Option<FrontendOperation> {
    match c {
        EventCategory::InstantiateFunction => Some(FrontendOperation::InstantiateFunction),
        EventCategory::InstantiateClass => Some(FrontendOperation::InstantiateClass),
        EventCategory::ParseClass => Some(FrontendOperation::ParseClass),
        EventCategory::DebugType => Some(FrontendOperation::DebugType),
        EventCategory::CodeGenFunction => Some(FrontendOperation::CodeGenFunction),
        _ => None,
    }
}

/// The frontend operation a category denotes, if any.
pub fn operation_of(c: EventCategory) -> (r: Option<FrontendOperation>)
    ensures
        r == spec_operation_of(c),
{
    match c {
        EventCategory::InstantiateFunction => Some(FrontendOperation::InstantiateFunction),
        EventCategory::InstantiateClass => Some(FrontendOperation::InstantiateClass),
        EventCategory::ParseClass => Some(FrontendOperation::ParseClass),
        EventCategory::DebugType => Some(FrontendOperation::DebugType),
        EventCategory::CodeGenFunction => Some(FrontendOperation::CodeGenFunction),
        _ => None,
    }
}

/// The frontend-operation events of a profile that carry a detail, in order,
/// as intervals keyed by name and operation kind.
pub open spec fn operation_intervals(events: Seq<Event>) -> Seq<OperationInterval>
    decreases events.len(),
{
    if events.len() == 0 {
        Seq::empty()
    } else {
        let rest = operation_intervals(events.drop_last());
        let e = events.last();
        if spec_operation_of(e.category) is Some && e.detail is Some {
            rest.push(
                OperationInterval {
                    key: FrontendOperationKey {
                        name: e.detail.unwrap(),
                        op: spec_operation_of(e.category).unwrap(),
                    },
                    start_us: e.start_us,
                    duration_us: e.duration_us,
                },
            )
        } else {
            rest
        }
    }
}

/// Every entry keeps its self time at or below its total time.
pub open spec fn ffps_self_le_total(m: Map<Seq<char>, FrontendFileProcessSummary>) -> bool {
    forall|k: Seq<char>| #[trigger]
        m.contains_key(k) ==> m[k].self_time_us <= m[k].total_time_us
}

/// Every entry keeps its self time at or below its total time.
pub open spec fn fops_self_le_total(
    m: Map<(Seq<char>, FrontendOperation), FrontendOperationSummary>,
) -> bool {
    forall|k: (Seq<char>, FrontendOperation)| #[trigger]
        m.contains_key(k) ==> m[k].self_time_us <= m[k].total_time_us
}

/// An attribution step cannot push self time past total time.
pub proof fn lemma_source_attr_step_le(
    m: Map<Seq<char>, FrontendFileProcessSummary>,
    prev: Option<(Seq<char>, u64)>,
    iv: SourceInterval,
)
    requires
        ffps_self_le_total(m),
    ensures
        ffps_self_le_total(source_attr_step(m, prev, iv)),
{
}

/// An attribution step cannot push self time past total time.
pub proof fn lemma_op_attr_step_le(
    m: Map<(Seq<char>, FrontendOperation), FrontendOperationSummary>,
    prev: Option<((Seq<char>, FrontendOperation), u64)>,
    iv: OperationInterval,
)
    requires
        fops_self_le_total(m),
    ensures
        fops_self_le_total(op_attr_step(m, prev, iv)),
{
}

/// Self time never exceeds total time after attribution, for any interval
/// sequence, nested properly or not.
pub proof fn lemma_source_attr_fold_le(
    m: Map<Seq<char>, FrontendFileProcessSummary>,
    ivs: Seq<SourceInterval>,
)
    requires
        ffps_self_le_total(m),
    ensures
        ffps_self_le_total(source_attr_fold(m, ivs)),
    decreases ivs.len(),
{
    if ivs.len() > 0 {
        lemma_source_attr_fold_le(m, ivs.drop_last());
        lemma_source_attr_step_le(
            source_attr_fold(m, ivs.drop_last()),
            source_prev(ivs, ivs.len() - 1),
            ivs.last(),
        );
    }
}

/// Self time never exceeds total time after attribution.
pub proof fn lemma_op_attr_fold_le(
    m: Map<(Seq<char>, FrontendOperation), FrontendOperationSummary>,
    ivs: Seq<OperationInterval>,
)
    requires
        fops_self_le_total(m),
    ensures
        fops_self_le_total(op_attr_fold(m, ivs)),
    decreases ivs.len(),
{
    if ivs.len() > 0 {
        lemma_op_attr_fold_le(m, ivs.drop_last());
        lemma_op_attr_step_le(
            op_attr_fold(m, ivs.drop_last()),
            op_prev(ivs, ivs.len() - 1),
            ivs.last(),
        );
    }
}

/// Collect the `Source` intervals of an event list.
fn collect_source_intervals(events: &Vec<Event>) -> (r: Vec<SourceInterval>)
    ensures
        r@ == source_intervals(events@),
{
    let mut r: Vec<SourceInterval> = Vec::new();
    let mut i: usize = 0;
    while i < events.len()
        invariant
            i <= events@.len(),
            r@ == source_intervals(events@.take(i as int)),
        decreases events@.len() - i,
    {
        let e = &events[i];
        if e.category == EventCategory::Source {
            match &e.detail {
                Some(d) => {
                    r.push(
                        SourceInterval {
                            key: d.clone(),
                            start_us: e.start_us,
                            duration_us: e.duration_us,
                        },
                    );
                },
                None => {},
            }
        }
        proof {
            assert(events@.take(i + 1).drop_last() =~= events@.take(i as int));
            assert(events@.take(i + 1).last() == events@[i as int]);
        }
        i = i + 1;
    }
    proof {
        assert(events@.take(events@.len() as int) =~= events@);
    }
    r
}

/// Collect the frontend-operation intervals of an event list.
fn collect_operation_intervals(events: &Vec<Event>) -> (r: Vec<OperationInterval>)
    ensures
        r@ == operation_intervals(events@),
{
    let mut r: Vec<OperationInterval> = Vec::new();
    let mut i: usize = 0;
    while i < events.len()
        invariant
            i <= events@.len(),
            r@ == operation_intervals(events@.take(i as int)),
        decreases events@.len() - i,
    {
        let e = &events[i];
        match operation_of(e.category) {
            Some(op) => {
                match &e.detail {
                    Some(d) => {
                        r.push(
                            OperationInterval {
                                key: FrontendOperationKey { name: d.clone(), op },
                                start_us: e.start_us,
                                duration_us: e.duration_us,
                            },
                        );
                    },
                    None => {},
                }
            },
            None => {},
        }
        proof {
            assert(events@.take(i + 1).drop_last() =~= events@.take(i as int));
            assert(events@.take(i + 1).last() == events@[i as int]);
        }
        i = i + 1;
    }
    proof {
        assert(events@.take(events@.len() as int) =~= events@);
    }
    r
}

/// Attribute the `Source` (include-file) events of one profile into the
/// per-include table: sort by start time, then run the ordered-stack pass.
pub fn attribute_sources(
    table: &mut LinMap<String, FrontendFileProcessSummary>,
    events: &Vec<Event>,
)
    requires
        old(table).wf(),
    ensures
        final(table).wf(),
        final(table)@ == source_attr_fold(
            old(table)@,
            stable_sorted(source_intervals(events@)),
        ),
{
    let ivs = collect_source_intervals(events);
    let sorted_ivs = insertion_sort(ivs);
    let ghost sivs = sorted_ivs@;
    let mut stack: Vec<(String, u64)> = Vec::new();
    let mut i: usize = 0;
    while i < sorted_ivs.len()
        invariant
            i <= sivs.len(),
            sorted_ivs@ == sivs,
            table.wf(),
            table@ == source_attr_fold(old(table)@, sivs.take(i as int)),
            i == 0 ==> stack@.len() == 0,
            i > 0 ==> stack@.len() > 0 && stack@.last().0@ == sivs[i - 1].key@
                && stack@.last().1 == source_iv_end(sivs[i - 1]),
        decreases sivs.len() - i,
    {
        let iv = &sorted_ivs[i];
        let dur = iv.duration_us;
        let end = saturating_add_u64(iv.start_us, dur);
        let cur = match table.get(&iv.key) {
            Some(v) => *v,
            None => FrontendFileProcessSummary { total_time_us: 0, self_time_us: 0, num: 0 },
        };
        let added = FrontendFileProcessSummary {
            total_time_us: saturating_add_u64(cur.total_time_us, dur),
            self_time_us: saturating_add_u64(cur.self_time_us, dur),
            num: saturating_add_usize(cur.num, 1),
        };
        table.set(iv.key.clone(), added);
        if stack.len() > 0 {
            let top_end = stack[stack.len() - 1].1;
            if top_end > end {
                let pk = stack[stack.len() - 1].0.clone();
                let pv = match table.get(&pk) {
                    Some(v) => *v,
                    None => FrontendFileProcessSummary {
                        total_time_us: 0,
                        self_time_us: 0,
                        num: 0,
                    },
                };
                let shed = FrontendFileProcessSummary {
                    total_time_us: pv.total_time_us,
                    self_time_us: saturating_sub_u64(pv.self_time_us, dur),
                    num: pv.num,
                };
                table.set(pk, shed);
            }
        }
        while stack.len() > 0 && stack[stack.len() - 1].1 <= end
            decreases stack@.len(),
        {
            stack.pop();
        }
        stack.push((iv.key.clone(), end));
        proof {
            assert(sivs.take(i + 1).drop_last() =~= sivs.take(i as int));
            assert(sivs.take(i + 1).last() == sivs[i as int]);
            assert(source_prev(sivs.take(i + 1), i as int) == source_prev(sivs, i as int));
            assert(table@ == source_attr_fold(old(table)@, sivs.take(i + 1)));
        }
        i = i + 1;
    }
    proof {
        assert(sivs.take(sivs.len() as int) =~= sivs);
    }
}

/// Attribute the frontend-operation events of one profile into the
/// per-operation table.
pub fn attribute_operations(
    table: &mut LinMap<FrontendOperationKey, FrontendOperationSummary>,
    events: &Vec<Event>,
)
    requires
        old(table).wf(),
    ensures
        final(table).wf(),
        final(table)@ == op_attr_fold(old(table)@, stable_sorted(operation_intervals(events@))),
{
    let ivs = collect_operation_intervals(events);
    let sorted_ivs = insertion_sort(ivs);
    let ghost sivs = sorted_ivs@;
    let mut stack: Vec<(FrontendOperationKey, u64)> = Vec::new();
    let mut i: usize = 0;
    while i < sorted_ivs.len()
        invariant
            i <= sivs.len(),
            sorted_ivs@ == sivs,
            table.wf(),
            table@ == op_attr_fold(old(table)@, sivs.take(i as int)),
            i == 0 ==> stack@.len() == 0,
            i > 0 ==> stack@.len() > 0 && stack@.last().0@ == sivs[i - 1].key@
                && stack@.last().1 == op_iv_end(sivs[i - 1]),
        decreases sivs.len() - i,
    {
        let iv = &sorted_ivs[i];
        let dur = iv.duration_us;
        let end = saturating_add_u64(iv.start_us, dur);
        let key = FrontendOperationKey { name: iv.key.name.clone(), op: iv.key.op };
        let cur = match table.get(&key) {
            Some(v) => *v,
            None => FrontendOperationSummary { total_time_us: 0, self_time_us: 0, num: 0 },
        };
        let added = FrontendOperationSummary {
            total_time_us: saturating_add_u64(cur.total_time_us, dur),
            self_time_us: saturating_add_u64(cur.self_time_us, dur),
            num: saturating_add_usize(cur.num, 1),
        };
        table.set(key, added);
        if stack.len() > 0 {
            let top_end = stack[stack.len() - 1].1;
            if top_end > end {
                let pk = FrontendOperationKey {
                    name: stack[stack.len() - 1].0.name.clone(),
                    op: stack[stack.len() - 1].0.op,
                };
                let pv = match table.get(&pk) {
                    Some(v) => *v,
                    None => FrontendOperationSummary {
                        total_time_us: 0,
                        self_time_us: 0,
                        num: 0,
                    },
                };
                let shed = FrontendOperationSummary {
                    total_time_us: pv.total_time_us,
                    self_time_us: saturating_sub_u64(pv.self_time_us, dur),
                    num: pv.num,
                };
                table.set(pk, shed);
            }
        }
        while stack.len() > 0 && stack[stack.len() - 1].1 <= end
            decreases stack@.len(),
        {
            stack.pop();
        }
        stack.push((FrontendOperationKey { name: iv.key.name.clone(), op: iv.key.op }, end));
        proof {
            assert(sivs.take(i + 1).drop_last() =~= sivs.take(i as int));
            assert(sivs.take(i + 1).last() == sivs[i as int]);
            assert(op_prev(sivs.take(i + 1), i as int) == op_prev(sivs, i as int));
            assert(table@ == op_attr_fold(old(table)@, sivs.take(i + 1)));
        }
        i = i + 1;
    }
    proof {
        assert(sivs.take(sivs.len() as int) =~= sivs);
    }
}

} // verus!
