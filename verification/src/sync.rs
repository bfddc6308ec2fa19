//! The engine: one configuration, from which both directions are planned.
use vstd::prelude::*;
use vstd::string::*;
use crate::config::FileSyncConfig;
use crate::inbound::{select_inbound, selected, unit_views, InboundUnit, RemoteObjectDescriptor};
use crate::outbound::{name_view, plan_child, plan_of, plan_view, ChildKind, TransferUnit};
use crate::report::SkipReason;

verus! {

/// The synchronisation engine. It holds the configuration for its lifetime.
#[derive(Clone, Debug, PartialEq, Eq)]
pub struct FileSync {
    pub file_sync_config: FileSyncConfig,
}

impl FileSync {
    /// An engine for the given configuration.
    pub fn new(file_sync_config: FileSyncConfig) -> (engine: FileSync)
        ensures
            engine.file_sync_config == file_sync_config,
    {
        FileSync { file_sync_config }
    }

    /// Plans the upload of one child of the source directory under the
    /// configured upload prefix. `name` is absent for a child whose name is
    /// not valid text.
    pub fn plan_upload(&self, name: Option<&str>, kind: ChildKind) -> (plan: Result<
        TransferUnit,
        SkipReason,
    >)
        ensures
            plan_view(plan) == plan_of(self.file_sync_config.s3_prefix@, name_view(name), kind),
    {
        plan_child(self.file_sync_config.s3_prefix.as_str(), name, kind)
    }

    /// Picks from a listing of the bucket the objects to download: those whose
    /// keys begin with the configured download prefix, in the order listed.
    pub fn plan_download(&self, listing: &Vec<RemoteObjectDescriptor>) -> (units: Vec<InboundUnit>)
        ensures
            unit_views(units@) == selected(self.file_sync_config.destination_prefix@, listing@),
    {
        select_inbound(self.file_sync_config.destination_prefix.as_str(), listing)
    }
}

/// Where one of the two loops stands.
#[derive(Clone, Copy, Debug, PartialEq, Eq, Structural)]
pub enum LoopPhase {
    /// Make sure the loop's directory exists; `first` at the start of the loop.
    Prepare { first: bool },
    /// Find the items of this cycle and handle each of them.
    Scan,
    /// Wait for the poll interval.
    Sleep,
    /// The loop has ended.
    Stopped,
}

/// The phase that follows `phase`, given whether its work succeeded.
///
/// A loop ends only when its directory cannot be made at the start. A cycle
/// whose directory cannot be made later is passed over, and a scan that fails
/// is followed by the wait like one that succeeds.
pub open spec fn loop_next(phase: LoopPhase, succeeded: bool) -> LoopPhase {
    match phase {
        LoopPhase::Prepare { first } => if succeeded {
            LoopPhase::Scan
        } else if first {
            LoopPhase::Stopped
        } else {
            LoopPhase::Sleep
        },
        LoopPhase::Scan => LoopPhase::Sleep,
        LoopPhase::Sleep => LoopPhase::Prepare { first: false },
        LoopPhase::Stopped => LoopPhase::Stopped,
    }
}

impl LoopPhase {
    /// The phase in which a loop starts.
    pub fn start() -> (phase: LoopPhase)
        ensures
            phase == (LoopPhase::Prepare { first: true }),
    {
        LoopPhase::Prepare { first: true }
    }

    /// Moves on from this phase, given whether its work succeeded.
    pub fn advance(self, succeeded: bool) -> (next: LoopPhase)
        ensures
            next == loop_next(self, succeeded),
            next == LoopPhase::Stopped <==> self == LoopPhase::Stopped || (self == (LoopPhase::Prepare {
                first: true,
            }) && !succeeded),
    {
        match self {
            LoopPhase::Prepare { first } => {
                if succeeded {
                    LoopPhase::Scan
                } else if first {
                    LoopPhase::Stopped
                } else {
                    LoopPhase::Sleep
                }
            },
            LoopPhase::Scan => LoopPhase::Sleep,
            LoopPhase::Sleep => LoopPhase::Prepare { first: false },
            LoopPhase::Stopped => LoopPhase::Stopped,
        }
    }
}

} // verus!
