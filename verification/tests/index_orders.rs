//! Tests of the derived index lists: each one is a permutation of its
//! table's key set, in the order its criterion demands.

use trace_stats::demangle::DemangleCache;
use trace_stats::processing::{
    process_backend_indices, process_include_indices, process_single_file,
    process_summary_indices, process_source_indices,
};
use trace_stats::summary::Summary;
use trace_stats::trace::{classify_event_name, Event, Profile};

fn ev(name: &str, ts: u64, dur: u64, detail: Option<&str>) -> Event {
    Event {
        category: classify_event_name(name),
        start_us: ts,
        duration_us: dur,
        detail: detail.map(|s| s.to_string()),
    }
}

fn folded_summary() -> Summary {
    let mut summary = Summary::new();
    let mut cache = DemangleCache::new();
    let alpha = Profile {
        origin_time: 300,
        events: vec![
            ev("Frontend", 0, 100, None),
            ev("Backend", 100, 50, None),
            ev("Source", 0, 80, Some("big.h")),
            ev("Source", 10, 20, Some("small.h")),
            ev("OptFunction", 100, 30, Some("(_Z3fooi)")),
        ],
    };
    let beta = Profile {
        origin_time: 100,
        events: vec![
            ev("Frontend", 0, 400, None),
            ev("Source", 0, 10, Some("small.h")),
            ev("OptFunction", 400, 60, Some("(_Z3barv)")),
        ],
    };
    process_single_file(&mut summary, &mut cache, "zeta", "z/a.cpp", &alpha);
    process_single_file(&mut summary, &mut cache, "alpha", "a/b.cpp", &beta);
    summary
}

fn target_keys(summary: &Summary) -> Vec<String> {
    let mut keys = Vec::new();
    let mut i = 0;
    while i < summary.target_summaries.len() {
        keys.push(summary.target_summaries.key_at(i).clone());
        i += 1;
    }
    keys
}

#[test]
fn alpha_order_is_sorted_key_permutation() {
    let mut summary = folded_summary();
    process_summary_indices(&mut summary);
    let mut keys = target_keys(&summary);
    keys.sort();
    let mut listed = summary.target_summaries_alpha_order.clone();
    listed.sort();
    assert_eq!(keys, listed);
    assert_eq!(summary.target_summaries_alpha_order, vec!["alpha", "zeta"]);
}

#[test]
fn target_time_orders() {
    let mut summary = folded_summary();
    process_summary_indices(&mut summary);
    // alpha starts at 100, zeta at 300; alpha also ends last (100 + 400)
    assert_eq!(summary.target_summaries_first_event_indices, vec!["alpha", "zeta"]);
    assert_eq!(summary.target_summaries_last_event_indices, vec!["zeta", "alpha"]);
    // alpha carries 400 us, zeta 150 us
    assert_eq!(
        summary.target_summaries_largest_duration_indices,
        vec!["alpha", "zeta"]
    );
}

#[test]
fn include_orders_follow_self_and_total_time() {
    let mut summary = folded_summary();
    process_include_indices(&mut summary);
    // big.h: total 80, self 60; small.h: total 30, self 30
    assert_eq!(
        summary.frontend_file_largest_self_time_indices,
        vec!["big.h", "small.h"]
    );
    assert_eq!(summary.frontend_file_largest_time_indices, vec!["big.h", "small.h"]);
    let big = summary
        .frontend_file_process_summaries
        .get(&"big.h".to_string())
        .unwrap();
    assert_eq!(big.total_time_us, 80);
    assert_eq!(big.self_time_us, 60);
    let small = summary
        .frontend_file_process_summaries
        .get(&"small.h".to_string())
        .unwrap();
    assert_eq!(small.total_time_us, 30);
    assert_eq!(small.num, 2);
}

#[test]
fn source_orders_follow_each_criterion() {
    let mut summary = folded_summary();
    process_source_indices(&mut summary);
    // a/b.cpp: total 400 (frontend 400, backend 0); z/a.cpp: total 150
    assert_eq!(
        summary.source_file_largest_total_time_indices,
        vec!["a/b.cpp", "z/a.cpp"]
    );
    assert_eq!(
        summary.source_file_largest_frontend_time_indices,
        vec!["a/b.cpp", "z/a.cpp"]
    );
    assert_eq!(
        summary.source_file_largest_backend_time_indices,
        vec!["z/a.cpp", "a/b.cpp"]
    );
}

#[test]
fn backend_order_is_largest_total_first() {
    let mut summary = folded_summary();
    process_backend_indices(&mut summary);
    // bar() carries 60 us, foo(int) 30 us
    assert_eq!(
        summary.backend_operation_largest_total_time_indices,
        vec!["bar()", "foo(int)"]
    );
}

#[test]
fn ties_keep_alphabetical_order() {
    let mut summary = Summary::new();
    let mut cache = DemangleCache::new();
    let profile = Profile {
        origin_time: 0,
        events: vec![
            ev("Source", 0, 10, Some("zzz.h")),
            ev("Source", 20, 10, Some("aaa.h")),
        ],
    };
    process_single_file(&mut summary, &mut cache, "t", "x.cpp", &profile);
    process_include_indices(&mut summary);
    // equal self and total time: the natural key order decides
    assert_eq!(
        summary.frontend_file_largest_self_time_indices,
        vec!["aaa.h", "zzz.h"]
    );
}
