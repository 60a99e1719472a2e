//! Aggregation of backend (machine-code-generation) events.
//!
//! Backend operations do not nest: each event's duration is summed flatly
//! under its demangled symbol name, and into the run's single-event backend
//! total. The raw detail arrives wrapped in parentheses around the mangled
//! name; the wrapper is stripped, the name demangled through the per-run
//! cache, and the decoded name is the accounting key.

use vstd::prelude::*;
use crate::arith::{saturating_add_u64, saturating_add_usize, spec_sat_add_u64, spec_sat_add_usize};
use crate::demangle::{demangled_of, strip_parens, strip_parens_spec, DemangleCache};
use crate::linmap::LinMap;
use crate::summary::BackendOperationSummaries;
use crate::trace::{Event, EventCategory};

verus! {

/// Whether a category is a backend operation.
pub open spec fn spec_is_backend_op(c: EventCategory) -> bool {
    c == EventCategory::DevirtPass || c == EventCategory::OptFunction
}

/// Whether a category is a backend operation.
pub fn is_backend_op(c: EventCategory) -> (r: bool)
    ensures
        r == spec_is_backend_op(c),
{
    c == EventCategory::DevirtPass || c == EventCategory::OptFunction
}

/// The accounting key of a backend event detail: parentheses stripped, then
/// demangled.
pub open spec fn backend_key(detail: Seq<char>) -> Seq<char> {
    demangled_of(strip_parens_spec(detail))
}

/// The entry of `k`, or the all-zero entry if `k` has none yet.
pub open spec fn bops_or_zero(
    m: Map<Seq<char>, BackendOperationSummaries>,
    k: Seq<char>,
) -> BackendOperationSummaries {
    if m.contains_key(k) {
        m[k]
    } else {
        BackendOperationSummaries { total_time_us: 0, num: 0 }
    }
}

/// The per-symbol table after folding in the backend events of `events`.
pub open spec fn backend_fold_map(
    m: Map<Seq<char>, BackendOperationSummaries>,
    events: Seq<Event>,
) -> Map<Seq<char>, BackendOperationSummaries>
    decreases events.len(),
{
    if events.len() == 0 {
        m
    } else {
        let pm = backend_fold_map(m, events.drop_last());
        let e = events.last();
        if spec_is_backend_op(e.category) && e.detail is Some {
            let k = backend_key(e.detail.unwrap()@);
            let z = bops_or_zero(pm, k);
            pm.insert(
                k,
                BackendOperationSummaries {
                    total_time_us: spec_sat_add_u64(z.total_time_us, e.duration_us),
                    num: spec_sat_add_usize(z.num, 1),
                },
            )
        } else {
            pm
        }
    }
}

/// The single-event backend total after folding in the backend events.
pub open spec fn backend_fold_singles(s: u64, events: Seq<Event>) -> u64
    decreases events.len(),
{
    if events.len() == 0 {
        s
    } else {
        let ps = backend_fold_singles(s, events.drop_last());
        let e = events.last();
        if spec_is_backend_op(e.category) && e.detail is Some {
            spec_sat_add_u64(ps, e.duration_us)
        } else {
            ps
        }
    }
}

/// The mangled names the cache has seen after folding in the backend events.
pub open spec fn backend_fold_cache_dom(d: Set<Seq<char>>, events: Seq<Event>) -> Set<Seq<char>>
    decreases events.len(),
{
    if events.len() == 0 {
        d
    } else {
        let pd = backend_fold_cache_dom(d, events.drop_last());
        let e = events.last();
        if spec_is_backend_op(e.category) && e.detail is Some {
            pd.insert(strip_parens_spec(e.detail.unwrap()@))
        } else {
            pd
        }
    }
}

/// Fold one profile's backend events into the per-symbol table and the
/// single-event total, demangling through `cache`.
pub fn fold_backend_operations(
    table: &mut LinMap<String, BackendOperationSummaries>,
    singles: &mut u64,
    cache: &mut DemangleCache,
    events: &Vec<Event>,
)
    requires
        old(table).wf(),
        old(cache).wf(),
    ensures
        final(table).wf(),
        final(cache).wf(),
        final(table)@ == backend_fold_map(old(table)@, events@),
        *final(singles) == backend_fold_singles(*old(singles), events@),
        final(cache).entries@.dom() == backend_fold_cache_dom(old(cache).entries@.dom(), events@),
{
    let mut i: usize = 0;
    while i < events.len()
        invariant
            i <= events@.len(),
            table.wf(),
            cache.wf(),
            table@ == backend_fold_map(old(table)@, events@.take(i as int)),
            *singles == backend_fold_singles(*old(singles), events@.take(i as int)),
            cache.entries@.dom() == backend_fold_cache_dom(
                old(cache).entries@.dom(),
                events@.take(i as int),
            ),
        decreases events@.len() - i,
    {
        let e = &events[i];
        if is_backend_op(e.category) {
            match &e.detail {
                Some(d) => {
                    let stripped = strip_parens(d.as_str());
                    let demangled = cache.demangle(stripped.as_str());
                    let dur = e.duration_us;
                    let cur = match table.get(&demangled) {
                        Some(v) => *v,
                        None => BackendOperationSummaries { total_time_us: 0, num: 0 },
                    };
                    let merged = BackendOperationSummaries {
                        total_time_us: saturating_add_u64(cur.total_time_us, dur),
                        num: saturating_add_usize(cur.num, 1),
                    };
                    table.set(demangled, merged);
                    *singles = saturating_add_u64(*singles, dur);
                },
                None => {},
            }
        }
        proof {
            assert(events@.take(i + 1).drop_last() =~= events@.take(i as int));
            assert(events@.take(i + 1).last() == events@[i as int]);
        }
        i = i + 1;
    }
    proof {
        assert(events@.take(events@.len() as int) =~= events@);
    }
}

} // verus!
