//! The aggregate produced by one analysis run: run totals, one table per
//! accounting key family, and the derived index lists (one ordering of each
//! table's keys per sort criterion).

use vstd::prelude::*;
use crate::linmap::{LinMap, MapKey};

verus! {

/// Per-target totals: file count, frontend/backend time, first and last
/// event time.
#[derive(Clone, Copy, PartialEq, Eq, Structural, Debug)]
pub struct TopLevelTargetSummary {
    pub total_files: usize,
    pub total_frontend_duration_us: u64,
    pub total_backend_duration_us: u64,
    pub first_event_time: u128,
    pub last_event_time: u128,
}

impl TopLevelTargetSummary {
    /// The all-zero starting entry of a target.
    pub fn zero() -> (r: Self)
        ensures
            r == (TopLevelTargetSummary {
                total_files: 0usize,
                total_frontend_duration_us: 0u64,
                total_backend_duration_us: 0u64,
                first_event_time: 0u128,
                last_event_time: 0u128,
            }),
    {
        TopLevelTargetSummary {
            total_files: 0,
            total_frontend_duration_us: 0,
            total_backend_duration_us: 0,
            first_event_time: 0,
            last_event_time: 0,
        }
    }
}

/// Self/total time and occurrence count of one included source path.
#[derive(Clone, Copy, PartialEq, Eq, Structural, Debug)]
pub struct FrontendFileProcessSummary {
    pub total_time_us: u64,
    pub self_time_us: u64,
    pub num: usize,
}

/// Total/frontend/backend time of one translation unit.
#[derive(Clone, Copy, PartialEq, Eq, Structural, Debug)]
pub struct SourceFileProcessSummary {
    pub total_time_us: u64,
    pub total_frontend_time_us: u64,
    pub total_backend_time_us: u64,
}

/// The frontend operations that are specific to a named class or function.
#[derive(Clone, Copy, PartialEq, Eq, Structural, Debug)]
pub enum FrontendOperation {
    CodeGenFunction,
    DebugType,
    InstantiateClass,
    InstantiateFunction,
    ParseClass,
}

impl FrontendOperation {
    /// Position of the variant in the declaration order, the natural order
    /// frontend-operation keys are compared by.
    pub open spec fn spec_rank(&self) -> u64 {
        match self {
            FrontendOperation::CodeGenFunction => 0u64,
            FrontendOperation::DebugType => 1u64,
            FrontendOperation::InstantiateClass => 2u64,
            FrontendOperation::InstantiateFunction => 3u64,
            FrontendOperation::ParseClass => 4u64,
        }
    }

    pub fn rank(&self) -> (r: u64)
        ensures
            r == self.spec_rank(),
    {
        match self {
            FrontendOperation::CodeGenFunction => 0,
            FrontendOperation::DebugType => 1,
            FrontendOperation::InstantiateClass => 2,
            FrontendOperation::InstantiateFunction => 3,
            FrontendOperation::ParseClass => 4,
        }
    }
}

/// The compound key of a frontend operation: the symbol or type name and the
/// kind of work done on it, so that a class parsed is kept apart from the
/// same class instantiated.
pub struct FrontendOperationKey {
    pub name: String,
    pub op: FrontendOperation,
}

impl View for FrontendOperationKey {
    type V = (Seq<char>, FrontendOperation);

    open spec fn view(&self) -> (Seq<char>, FrontendOperation) {
        (self.name@, self.op)
    }
}

impl MapKey for FrontendOperationKey {
    fn key_eq(&self, other: &Self) -> (r: bool)
        ensures
            r == (self@ == other@),
    {
        self.name.eq(&other.name) && self.op == other.op
    }
}

/// Self/total time and occurrence count of one frontend operation key.
#[derive(Clone, Copy, PartialEq, Eq, Structural, Debug)]
pub struct FrontendOperationSummary {
    pub total_time_us: u64,
    pub self_time_us: u64,
    pub num: usize,
}

/// Total time and occurrence count of one demangled backend symbol.
#[derive(Clone, Copy, PartialEq, Eq, Structural, Debug)]
pub struct BackendOperationSummaries {
    pub total_time_us: u64,
    pub num: usize,
}

/// The whole aggregate of one analysis run. Built once per run and read-only
/// afterwards; every `*_indices` list is a permutation of the key set of the
/// table it indexes.
pub struct Summary {
    pub total_valid_files: usize,
    pub total_invalid_files: usize,
    pub frontend_duration_total_us: u64,
    pub backend_duration_total_us: u64,
    pub backend_duration_single_events_us: u64,
    pub first_event_time: u128,
    pub last_event_time: u128,
    pub target_summaries: LinMap<String, TopLevelTargetSummary>,
    pub target_summaries_alpha_order: Vec<String>,
    pub target_summaries_first_event_indices: Vec<String>,
    pub target_summaries_last_event_indices: Vec<String>,
    pub target_summaries_largest_duration_indices: Vec<String>,
    pub frontend_file_process_summaries: LinMap<String, FrontendFileProcessSummary>,
    pub frontend_file_largest_self_time_indices: Vec<String>,
    pub frontend_file_largest_time_indices: Vec<String>,
    pub source_file_process_summaries: LinMap<String, SourceFileProcessSummary>,
    pub source_file_largest_total_time_indices: Vec<String>,
    pub source_file_largest_frontend_time_indices: Vec<String>,
    pub source_file_largest_backend_time_indices: Vec<String>,
    pub frontend_operation_summaries: LinMap<FrontendOperationKey, FrontendOperationSummary>,
    pub frontend_operation_largest_total_time_indices: Vec<FrontendOperationKey>,
    pub frontend_operation_largest_self_time_indices: Vec<FrontendOperationKey>,
    pub backend_operation_summaries: LinMap<String, BackendOperationSummaries>,
    pub backend_operation_largest_total_time_indices: Vec<String>,
}

impl Summary {
    /// The aggregate tables are well-formed maps.
    pub open spec fn wf(&self) -> bool {
        &&& self.target_summaries.wf()
        &&& self.frontend_file_process_summaries.wf()
        &&& self.source_file_process_summaries.wf()
        &&& self.frontend_operation_summaries.wf()
        &&& self.backend_operation_summaries.wf()
    }

    /// The empty summary every run starts from.
    pub fn new() -> (r: Self)
        ensures
            r.wf(),
            r.total_valid_files == 0,
            r.total_invalid_files == 0,
            r.frontend_duration_total_us == 0,
            r.backend_duration_total_us == 0,
            r.backend_duration_single_events_us == 0,
            r.first_event_time == 0,
            r.last_event_time == 0,
            r.target_summaries@ == Map::<Seq<char>, TopLevelTargetSummary>::empty(),
            r.target_summaries.key_seq() == Seq::<Seq<char>>::empty(),
            r.frontend_file_process_summaries@ == Map::<
                Seq<char>,
                FrontendFileProcessSummary,
            >::empty(),
            r.frontend_file_process_summaries.key_seq() == Seq::<Seq<char>>::empty(),
            r.source_file_process_summaries@ == Map::<Seq<char>, SourceFileProcessSummary>::empty(),
            r.source_file_process_summaries.key_seq() == Seq::<Seq<char>>::empty(),
            r.frontend_operation_summaries@ == Map::<
                (Seq<char>, FrontendOperation),
                FrontendOperationSummary,
            >::empty(),
            r.frontend_operation_summaries.key_seq() == Seq::<
                (Seq<char>, FrontendOperation),
            >::empty(),
            r.backend_operation_summaries@ == Map::<Seq<char>, BackendOperationSummaries>::empty(),
            r.backend_operation_summaries.key_seq() == Seq::<Seq<char>>::empty(),
            r.target_summaries_alpha_order@ == Seq::<String>::empty(),
            r.target_summaries_first_event_indices@ == Seq::<String>::empty(),
            r.target_summaries_last_event_indices@ == Seq::<String>::empty(),
            r.target_summaries_largest_duration_indices@ == Seq::<String>::empty(),
            r.frontend_file_largest_self_time_indices@ == Seq::<String>::empty(),
            r.frontend_file_largest_time_indices@ == Seq::<String>::empty(),
            r.source_file_largest_total_time_indices@ == Seq::<String>::empty(),
            r.source_file_largest_frontend_time_indices@ == Seq::<String>::empty(),
            r.source_file_largest_backend_time_indices@ == Seq::<String>::empty(),
            r.frontend_operation_largest_total_time_indices@ == Seq::<FrontendOperationKey>::empty(),
            r.frontend_operation_largest_self_time_indices@ == Seq::<FrontendOperationKey>::empty(),
            r.backend_operation_largest_total_time_indices@ == Seq::<String>::empty(),
    {
        Summary {
            total_valid_files: 0,
            total_invalid_files: 0,
            frontend_duration_total_us: 0,
            backend_duration_total_us: 0,
            backend_duration_single_events_us: 0,
            first_event_time: 0,
            last_event_time: 0,
            target_summaries: LinMap::new(),
            target_summaries_alpha_order: Vec::new(),
            target_summaries_first_event_indices: Vec::new(),
            target_summaries_last_event_indices: Vec::new(),
            target_summaries_largest_duration_indices: Vec::new(),
            frontend_file_process_summaries: LinMap::new(),
            frontend_file_largest_self_time_indices: Vec::new(),
            frontend_file_largest_time_indices: Vec::new(),
            source_file_process_summaries: LinMap::new(),
            source_file_largest_total_time_indices: Vec::new(),
            source_file_largest_frontend_time_indices: Vec::new(),
            source_file_largest_backend_time_indices: Vec::new(),
            frontend_operation_summaries: LinMap::new(),
            frontend_operation_largest_total_time_indices: Vec::new(),
            frontend_operation_largest_self_time_indices: Vec::new(),
            backend_operation_summaries: LinMap::new(),
            backend_operation_largest_total_time_indices: Vec::new(),
        }
    }

    /// How many files the run looked at, valid and invalid together.
    pub fn total_files(&self) -> (r: usize)
        requires
            self.total_valid_files + self.total_invalid_files <= usize::MAX,
        ensures
            r == self.total_valid_files + self.total_invalid_files,
    {
        self.total_valid_files + self.total_invalid_files
    }
}

} // verus!
