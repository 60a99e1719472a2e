//! The trace schema: one profile per translation unit, a time origin and a
//! flat list of named, timestamped, possibly-nested timed events.

use vstd::prelude::*;
use crate::strkit::str_eqs;

verus! {

/// The closed classification of event names. Every name a trace file can
/// carry maps to exactly one category; unknown names map to `Other`.
#[derive(Clone, Copy, PartialEq, Eq, Structural, Debug)]
pub enum EventCategory {
    Frontend,
    Backend,
    Source,
    InstantiateFunction,
    InstantiateClass,
    ParseClass,
    DebugType,
    CodeGenFunction,
    DevirtPass,
    OptFunction,
    Other,
}

/// One timed event of a profile. `detail` carries the accounting key (a
/// source path for `Source` events, a symbol or type name for frontend and
/// backend events); an event without a detail is skipped wherever a key is
/// required.
pub struct Event {
    pub category: EventCategory,
    pub start_us: u64,
    pub duration_us: u64,
    pub detail: Option<String>,
}

/// One decoded trace file: its time origin (an arbitrary unit, consistent
/// across all files of one run) and its events.
pub struct Profile {
    pub origin_time: u128,
    pub events: Vec<Event>,
}

/// The category an event name denotes.
pub open spec fn spec_classify(name: Seq<char>) -> EventCategory {
    if name == "Frontend"@ {
        EventCategory::Frontend
    } else if name == "Backend"@ {
        EventCategory::Backend
    } else if name == "Source"@ {
        EventCategory::Source
    } else if name == "InstantiateFunction"@ {
        EventCategory::InstantiateFunction
    } else if name == "InstantiateClass"@ {
        EventCategory::InstantiateClass
    } else if name == "ParseClass"@ {
        EventCategory::ParseClass
    } else if name == "DebugType"@ {
        EventCategory::DebugType
    } else if name == "CodeGenFunction"@ {
        EventCategory::CodeGenFunction
    } else if name == "DevirtSCCRepeatedPass"@ {
        EventCategory::DevirtPass
    } else if name == "OptFunction"@ {
        EventCategory::OptFunction
    } else {
        EventCategory::Other
    }
}

/// Classify an event name into its category.
pub fn classify_event_name(name: &str) -> (c: EventCategory)
    ensures
        c == spec_classify(name@),
{
    if str_eqs(name, "Frontend") {
        EventCategory::Frontend
    } else if str_eqs(name, "Backend") {
        EventCategory::Backend
    } else if str_eqs(name, "Source") {
        EventCategory::Source
    } else if str_eqs(name, "InstantiateFunction") {
        EventCategory::InstantiateFunction
    } else if str_eqs(name, "InstantiateClass") {
        EventCategory::InstantiateClass
    } else if str_eqs(name, "ParseClass") {
        EventCategory::ParseClass
    } else if str_eqs(name, "DebugType") {
        EventCategory::DebugType
    } else if str_eqs(name, "CodeGenFunction") {
        EventCategory::CodeGenFunction
    } else if str_eqs(name, "DevirtSCCRepeatedPass") {
        EventCategory::DevirtPass
    } else if str_eqs(name, "OptFunction") {
        EventCategory::OptFunction
    } else {
        EventCategory::Other
    }
}

} // verus!
