//! End-to-end tests of the aggregation engine: attribution, demangling,
//! per-file folding and whole-run analysis.

use trace_stats::demangle::DemangleCache;
use trace_stats::processing::{
    analyze_path, process_backend_operations, process_single_file, process_sources,
    record_invalid_file, TraceFileRecord,
};
use trace_stats::model::BuildVariant;
use trace_stats::summary::{FrontendOperation, FrontendOperationKey, Summary};
use trace_stats::trace::{classify_event_name, Event, Profile};

fn ev(name: &str, ts: u64, dur: u64, detail: Option<&str>) -> Event {
    Event {
        category: classify_event_name(name),
        start_us: ts,
        duration_us: dur,
        detail: detail.map(|s| s.to_string()),
    }
}

/// Decode one trace document the way the application shell does, through
/// `serde_json`: `None` for anything that does not match the schema.
fn parse_profile(text: &str) -> Option<Profile> {
    let value: serde_json::Value = serde_json::from_str(text).ok()?;
    let origin_time = value.get("beginningOfTime")?.as_u64()? as u128;
    let raw_events = value.get("traceEvents")?.as_array()?;
    let mut events = Vec::new();
    for raw in raw_events {
        let name = raw.get("name")?.as_str()?;
        let ts = raw.get("ts")?.as_u64()?;
        let dur = match raw.get("dur") {
            Some(d) => d.as_u64()?,
            None => 0,
        };
        let detail = raw
            .get("args")
            .and_then(|a| a.get("detail"))
            .and_then(|d| d.as_str())
            .map(|s| s.to_string());
        events.push(Event {
            category: classify_event_name(name),
            start_us: ts,
            duration_us: dur,
            detail,
        });
    }
    Some(Profile { origin_time, events })
}

#[test]
fn empty_run_yields_empty_summary() {
    let records: Vec<TraceFileRecord> = Vec::new();
    let result = analyze_path("p", "p/CMakeFiles", BuildVariant::Debug, &records);
    assert_eq!(result.summary.total_files(), 0);
    assert_eq!(result.summary.first_event_time, 0);
    assert_eq!(result.summary.last_event_time, 0);
    assert!(result.summary.target_summaries_alpha_order.is_empty());
    assert!(result.summary.backend_operation_largest_total_time_indices.is_empty());
    assert_eq!(result.selected_path, "p");
    assert!(matches!(result.build_variant, BuildVariant::Debug));
}

#[test]
fn huge_durations_saturate_instead_of_wrapping() {
    let mut summary = Summary::new();
    let events = vec![
        ev("Source", 0, u64::MAX, Some("a.h")),
        ev("Source", 1, u64::MAX, Some("a.h")),
    ];
    process_sources(&mut summary, &events);
    let a = summary.frontend_file_process_summaries.get(&"a.h".to_string()).unwrap();
    assert_eq!(a.total_time_us, u64::MAX);
    assert!(a.self_time_us <= a.total_time_us);
    assert_eq!(a.num, 2);
}

#[test]
fn nested_includes_split_self_time() {
    // one outer include wholly containing a nested one: the child keeps its
    // own time, the parent keeps only what the child did not use
    let mut summary = Summary::new();
    let events = vec![
        ev("Source", 0, 100, Some("a.h")),
        ev("Source", 10, 50, Some("b.h")),
    ];
    process_sources(&mut summary, &events);
    let a = summary
        .frontend_file_process_summaries
        .get(&"a.h".to_string())
        .unwrap();
    assert_eq!(a.total_time_us, 100);
    assert_eq!(a.self_time_us, 50);
    assert_eq!(a.num, 1);
    let b = summary
        .frontend_file_process_summaries
        .get(&"b.h".to_string())
        .unwrap();
    assert_eq!(b.total_time_us, 50);
    assert_eq!(b.self_time_us, 50);
    assert_eq!(b.num, 1);
}

#[test]
fn one_file_at_time_origin_zero() {
    let mut summary = Summary::new();
    let mut cache = DemangleCache::new();
    let profile = Profile {
        origin_time: 0,
        events: vec![
            ev("Source", 0, 100, Some("a.h")),
            ev("Source", 10, 50, Some("b.h")),
        ],
    };
    process_single_file(&mut summary, &mut cache, "t", "main.cpp", &profile);
    assert!(summary.frontend_file_process_summaries.contains(&"a.h".to_string()));
    let a = summary.frontend_file_process_summaries.get(&"a.h".to_string()).unwrap();
    assert_eq!((a.self_time_us, a.total_time_us), (50, 100));
    let b = summary.frontend_file_process_summaries.get(&"b.h".to_string()).unwrap();
    assert_eq!((b.self_time_us, b.total_time_us), (50, 50));
    assert_eq!(summary.total_valid_files, 1);
}

#[test]
fn source_event_without_detail_is_skipped() {
    let mut summary = Summary::new();
    let events = vec![ev("Source", 0, 100, None), ev("Source", 10, 50, Some("b.h"))];
    process_sources(&mut summary, &events);
    assert!(summary.frontend_file_process_summaries.get(&"b.h".to_string()).is_some());
    assert_eq!(summary.frontend_file_process_summaries.len(), 1);
}

#[test]
fn self_time_never_exceeds_total_time() {
    // overlapping, improperly nested intervals: attribution still keeps
    // every entry's self time at or below its total time
    let mut summary = Summary::new();
    let events = vec![
        ev("Source", 0, 100, Some("a.h")),
        ev("Source", 10, 30, Some("b.h")),
        ev("Source", 20, 95, Some("c.h")),
        ev("Source", 30, 10, Some("a.h")),
    ];
    process_sources(&mut summary, &events);
    let table = &summary.frontend_file_process_summaries;
    for name in ["a.h", "b.h", "c.h"] {
        let e = table.get(&name.to_string()).unwrap();
        assert!(e.self_time_us <= e.total_time_us);
    }
}

#[test]
fn backend_event_key_is_demangled_without_wrapper() {
    let mut summary = Summary::new();
    let mut cache = DemangleCache::new();
    let events = vec![ev("OptFunction", 0, 70, Some("(_Z3fooi)"))];
    process_backend_operations(&mut summary, &mut cache, &events);
    let entry = summary
        .backend_operation_summaries
        .get(&"foo(int)".to_string())
        .expect("demangled key");
    assert_eq!(entry.num, 1);
    assert_eq!(entry.total_time_us, 70);
    assert_eq!(summary.backend_duration_single_events_us, 70);
}

#[test]
fn undecodable_backend_name_is_kept_verbatim() {
    let mut summary = Summary::new();
    let mut cache = DemangleCache::new();
    let events = vec![ev("DevirtSCCRepeatedPass", 0, 5, Some("(not a symbol)"))];
    process_backend_operations(&mut summary, &mut cache, &events);
    let entry = summary
        .backend_operation_summaries
        .get(&"not a symbol".to_string())
        .expect("verbatim key");
    assert_eq!(entry.num, 1);
}

#[test]
fn demangle_cache_decodes_each_name_once() {
    let mut cache = DemangleCache::new();
    let first = cache.demangle("_Z3fooi");
    assert_eq!(cache.decode_count, 1);
    let second = cache.demangle("_Z3fooi");
    assert_eq!(cache.decode_count, 1);
    assert_eq!(first, second);
    assert_eq!(first, "foo(int)");
    let other = cache.demangle("_Z3barv");
    assert_eq!(cache.decode_count, 2);
    assert_eq!(other, "bar()");
}

#[test]
fn single_file_totals_and_split() {
    let mut summary = Summary::new();
    let mut cache = DemangleCache::new();
    let profile = Profile {
        origin_time: 1000,
        events: vec![
            ev("Frontend", 0, 300, None),
            ev("Backend", 300, 200, None),
            ev("Source", 0, 100, Some("a.h")),
            ev("InstantiateFunction", 10, 40, Some("f<int>")),
            ev("OptFunction", 310, 25, Some("(_Z3fooi)")),
        ],
    };
    process_single_file(&mut summary, &mut cache, "core", "src/main.cpp", &profile);
    assert_eq!(summary.total_valid_files, 1);
    assert_eq!(summary.total_invalid_files, 0);
    assert_eq!(summary.frontend_duration_total_us, 300);
    assert_eq!(summary.backend_duration_total_us, 200);
    assert_eq!(summary.backend_duration_single_events_us, 25);
    assert_eq!(summary.first_event_time, 1000);
    assert_eq!(summary.last_event_time, 1500);
    let target = summary.target_summaries.get(&"core".to_string()).unwrap();
    assert_eq!(target.total_files, 1);
    assert_eq!(target.total_frontend_duration_us, 300);
    assert_eq!(target.total_backend_duration_us, 200);
    assert_eq!(target.first_event_time, 1000);
    assert_eq!(target.last_event_time, 1500);
    let sf = summary
        .source_file_process_summaries
        .get(&"src/main.cpp".to_string())
        .unwrap();
    assert_eq!(sf.total_time_us, 500);
    assert_eq!(sf.total_frontend_time_us, 300);
    assert_eq!(sf.total_backend_time_us, 200);
}

#[test]
fn invalid_file_counts_and_makes_target_known() {
    let mut summary = Summary::new();
    record_invalid_file(&mut summary, "broken");
    assert_eq!(summary.total_invalid_files, 1);
    assert_eq!(summary.total_valid_files, 0);
    let target = summary.target_summaries.get(&"broken".to_string()).unwrap();
    assert_eq!(target.total_files, 0);
    assert_eq!(summary.total_files(), 1);
}

#[test]
fn malformed_file_among_well_formed_ones() {
    let good_a = "{\"beginningOfTime\": 10, \"traceEvents\": [\
        {\"pid\": 1, \"tid\": 1, \"name\": \"Frontend\", \"ts\": 0, \"dur\": 50}]}";
    let good_b = "{\"beginningOfTime\": 20, \"traceEvents\": [\
        {\"pid\": 1, \"tid\": 1, \"name\": \"Backend\", \"ts\": 50, \"dur\": 30}]}";
    let bad = "{\"beginningOfTime\": 30, \"traceEvents\": [ oops";
    let records: Vec<TraceFileRecord> = vec![
        ("app", "a.cpp", good_a),
        ("app", "b.cpp", good_b),
        ("app", "c.cpp", bad),
    ]
    .into_iter()
    .map(|(target, key, text)| TraceFileRecord {
        target_name: target.to_string(),
        display_key: key.to_string(),
        profile: parse_profile(text),
    })
    .collect();
    let result = analyze_path("proj", "proj/CMakeFiles", BuildVariant::SingleConfig, &records);
    assert_eq!(result.summary.total_valid_files, 2);
    assert_eq!(result.summary.total_invalid_files, 1);
    assert_eq!(result.summary.total_files(), 3);
    assert_eq!(result.summary.frontend_duration_total_us, 50);
    assert_eq!(result.summary.backend_duration_total_us, 30);
}

#[test]
fn analyze_twice_gives_equal_numbers() {
    let profile_text = "{\"beginningOfTime\": 5, \"traceEvents\": [\
        {\"pid\": 1, \"tid\": 2, \"name\": \"Frontend\", \"ts\": 0, \"dur\": 40},\
        {\"pid\": 1, \"tid\": 2, \"name\": \"Source\", \"ts\": 0, \"dur\": 30, \
         \"args\": {\"detail\": \"x.h\"}},\
        {\"pid\": 1, \"tid\": 2, \"name\": \"OptFunction\", \"ts\": 40, \"dur\": 9, \
         \"args\": {\"detail\": \"(_Z3fooi)\"}}]}";
    let records: Vec<TraceFileRecord> = vec![
        TraceFileRecord {
            target_name: "lib".to_string(),
            display_key: "x.cpp".to_string(),
            profile: parse_profile(profile_text),
        },
        TraceFileRecord {
            target_name: "lib".to_string(),
            display_key: "broken.cpp".to_string(),
            profile: None,
        },
    ];
    let one = analyze_path("p", "p/CMakeFiles", BuildVariant::Release, &records);
    let two = analyze_path("p", "p/CMakeFiles", BuildVariant::Release, &records);
    assert_eq!(one.summary.total_valid_files, two.summary.total_valid_files);
    assert_eq!(one.summary.total_invalid_files, two.summary.total_invalid_files);
    assert_eq!(
        one.summary.frontend_duration_total_us,
        two.summary.frontend_duration_total_us
    );
    assert_eq!(
        one.summary.backend_duration_total_us,
        two.summary.backend_duration_total_us
    );
    assert_eq!(
        one.summary.backend_duration_single_events_us,
        two.summary.backend_duration_single_events_us
    );
    assert_eq!(one.summary.first_event_time, two.summary.first_event_time);
    assert_eq!(one.summary.last_event_time, two.summary.last_event_time);
    assert_eq!(
        one.summary.target_summaries_alpha_order,
        two.summary.target_summaries_alpha_order
    );
    assert_eq!(
        one.summary.frontend_file_largest_self_time_indices,
        two.summary.frontend_file_largest_self_time_indices
    );
    assert_eq!(
        one.summary.backend_operation_largest_total_time_indices,
        two.summary.backend_operation_largest_total_time_indices
    );
    let key = "x.h".to_string();
    let a = one.summary.frontend_file_process_summaries.get(&key).unwrap();
    let b = two.summary.frontend_file_process_summaries.get(&key).unwrap();
    assert_eq!(a.total_time_us, b.total_time_us);
    assert_eq!(a.self_time_us, b.self_time_us);
    assert_eq!(a.num, b.num);
}

#[test]
fn chain_of_three_includes_conserves_time() {
    // a strictly nested chain: the self times over all entries sum to the
    // root's total
    let mut summary = Summary::new();
    let events = vec![
        ev("Source", 0, 100, Some("a.h")),
        ev("Source", 10, 60, Some("b.h")),
        ev("Source", 20, 30, Some("c.h")),
    ];
    process_sources(&mut summary, &events);
    let table = &summary.frontend_file_process_summaries;
    let a = table.get(&"a.h".to_string()).unwrap();
    let b = table.get(&"b.h".to_string()).unwrap();
    let c = table.get(&"c.h".to_string()).unwrap();
    assert_eq!(a.self_time_us + b.self_time_us + c.self_time_us, a.total_time_us);
    assert_eq!(a.total_time_us, 100);
    assert_eq!(a.self_time_us, 40);
    assert_eq!(b.self_time_us, 30);
    assert_eq!(c.self_time_us, 30);
}

#[test]
fn frontend_operations_keep_name_and_kind_apart() {
    let mut summary = Summary::new();
    let mut cache = DemangleCache::new();
    let profile = Profile {
        origin_time: 0,
        events: vec![
            ev("ParseClass", 0, 50, Some("Widget")),
            ev("InstantiateClass", 60, 20, Some("Widget")),
        ],
    };
    process_single_file(&mut summary, &mut cache, "t", "w.cpp", &profile);
    let parsed = summary
        .frontend_operation_summaries
        .get(&FrontendOperationKey { name: "Widget".to_string(), op: FrontendOperation::ParseClass })
        .unwrap();
    assert_eq!(parsed.total_time_us, 50);
    let instantiated = summary
        .frontend_operation_summaries
        .get(&FrontendOperationKey {
            name: "Widget".to_string(),
            op: FrontendOperation::InstantiateClass,
        })
        .unwrap();
    assert_eq!(instantiated.total_time_us, 20);
}
