//! The upload side: from a child of the source directory to an object in the bucket.
//!
//! A regular file is read, put under its key and then removed. A directory is
//! first packed into an archive beside it and removed; from there on the
//! archive is handled like any regular file. Each step is carried out by the
//! caller, who reports how it went and is told what comes next.
use vstd::prelude::*;
use vstd::string::*;
use crate::naming::{archive_name, archive_name_of, remote_key, remote_key_of};
use crate::report::{ItemOutcome, SkipReason, StepError};

verus! {

/// What kind of thing a child of the source directory is.
#[derive(Clone, Copy, Debug, PartialEq, Eq, Structural)]
pub enum ChildKind {
    /// A regular file.
    File,
    /// A directory.
    Directory,
    /// Anything else.
    Other,
}

/// One item on its way to the bucket.
#[derive(Clone, Debug, PartialEq, Eq)]
pub struct TransferUnit {
    /// Name of the child as found in the source directory.
    pub source_name: String,
    /// Name of the file whose bytes are uploaded, in the source directory.
    pub payload_name: String,
    /// Key under which the bytes are stored.
    pub remote_key: String,
    /// Whether the payload is an archive made from a directory.
    pub directory_origin: bool,
}

/// A transfer unit as a mathematical value.
pub struct TransferUnitView {
    pub source_name: Seq<char>,
    pub payload_name: Seq<char>,
    pub remote_key: Seq<char>,
    pub directory_origin: bool,
}

impl View for TransferUnit {
    type V = TransferUnitView;

    open spec fn view(&self) -> TransferUnitView {
        TransferUnitView {
            source_name: self.source_name@,
            payload_name: self.payload_name@,
            remote_key: self.remote_key@,
            directory_origin: self.directory_origin,
        }
    }
}

/// The name of the file that is uploaded for a child.
pub open spec fn payload_name_of(name: Seq<char>, directory: bool) -> Seq<char> {
    if directory {
        archive_name_of(name)
    } else {
        name
    }
}

/// The transfer unit for a regular file or a directory named `name`.
pub open spec fn unit_of(prefix: Seq<char>, name: Seq<char>, directory: bool) -> TransferUnitView {
    TransferUnitView {
        source_name: name,
        payload_name: payload_name_of(name, directory),
        remote_key: remote_key_of(prefix, payload_name_of(name, directory)),
        directory_origin: directory,
    }
}

/// What planning a child leads to: a unit, or the reason the child is skipped.
pub open spec fn plan_of(prefix: Seq<char>, name: Option<Seq<char>>, kind: ChildKind) -> Result<
    TransferUnitView,
    SkipReason,
> {
    match name {
        None => Err(SkipReason::InvalidName),
        Some(n) => match kind {
            ChildKind::Other => Err(SkipReason::NotFileOrDirectory),
            ChildKind::File => Ok(unit_of(prefix, n, false)),
            ChildKind::Directory => Ok(unit_of(prefix, n, true)),
        },
    }
}

/// The name of a child as a sequence of characters, where it has one.
pub open spec fn name_view(name: Option<&str>) -> Option<Seq<char>> {
    match name {
        None => None,
        Some(n) => Some(n@),
    }
}

/// The unit of a planning result, as a mathematical value.
pub open spec fn plan_view(plan: Result<TransferUnit, SkipReason>) -> Result<
    TransferUnitView,
    SkipReason,
> {
    match plan {
        Ok(unit) => Ok(unit@),
        Err(reason) => Err(reason),
    }
}

/// Plans the transfer of one child of the source directory. `name` is absent
/// for a child whose name is not valid text.
pub fn plan_child(prefix: &str, name: Option<&str>, kind: ChildKind) -> (plan: Result<
    TransferUnit,
    SkipReason,
>)
    ensures
        plan_view(plan) == plan_of(prefix@, name_view(name), kind),
{
    let n = match name {
        None => {
            return Err(SkipReason::InvalidName);
        },
        Some(n) => n,
    };
    let directory = match kind {
        ChildKind::Other => {
            return Err(SkipReason::NotFileOrDirectory);
        },
        ChildKind::File => false,
        ChildKind::Directory => true,
    };
    let payload_name = if directory {
        archive_name(n)
    } else {
        String::from_str(n)
    };
    let key = remote_key(prefix, payload_name.as_str());
    Ok(
        TransferUnit {
            source_name: String::from_str(n),
            payload_name,
            remote_key: key,
            directory_origin: directory,
        },
    )
}

/// Where an upload stands: the step that is due, or how the upload ended.
#[derive(Clone, Copy, Debug, PartialEq, Eq, Structural)]
pub enum OutboundStage {
    /// Pack the directory `source_name` into the archive `payload_name`.
    Pack,
    /// Remove the directory `source_name`, now that its archive exists.
    RemoveDirectory,
    /// Read the file `payload_name` fully into memory.
    Read,
    /// Put the bytes read under `remote_key`.
    Put,
    /// Remove the file `payload_name`.
    RemovePayload,
    /// Nothing is left to do.
    Finished(ItemOutcome),
}

/// The first step of an upload.
pub open spec fn outbound_start(directory_origin: bool) -> OutboundStage {
    if directory_origin {
        OutboundStage::Pack
    } else {
        OutboundStage::Read
    }
}

/// The step that follows `stage` once its outcome is known. A failed step ends
/// the upload with that failure; a finished upload stays finished.
pub open spec fn outbound_next(stage: OutboundStage, result: Result<(), StepError>) -> OutboundStage {
    match stage {
        OutboundStage::Finished(outcome) => OutboundStage::Finished(outcome),
        _ => match result {
            Err(error) => OutboundStage::Finished(ItemOutcome::Failed(error)),
            Ok(_) => match stage {
                OutboundStage::Pack => OutboundStage::RemoveDirectory,
                OutboundStage::RemoveDirectory => OutboundStage::Read,
                OutboundStage::Read => OutboundStage::Put,
                OutboundStage::Put => OutboundStage::RemovePayload,
                _ => OutboundStage::Finished(ItemOutcome::Success),
            },
        },
    }
}

/// Where an upload stands after the steps whose outcomes are `results`, in order.
pub open spec fn outbound_run(stage: OutboundStage, results: Seq<Result<(), StepError>>) -> OutboundStage
    decreases results.len(),
{
    if results.len() == 0 {
        stage
    } else {
        outbound_run(outbound_next(stage, results[0]), results.skip(1))
    }
}

/// The uploads of one cycle: where each unit stands after the steps whose
/// outcomes are listed for it. Each unit is run on its own outcomes alone.
pub open spec fn outbound_cycle(
    units: Seq<TransferUnitView>,
    results: Seq<Seq<Result<(), StepError>>>,
) -> Seq<OutboundStage> {
    Seq::new(
        units.len(),
        |i: int| outbound_run(outbound_start(units[i].directory_origin), results[i]),
    )
}

impl TransferUnit {
    /// The first step that is due for this unit.
    pub fn first_stage(&self) -> (stage: OutboundStage)
        ensures
            stage == outbound_start(self.directory_origin),
    {
        if self.directory_origin {
            OutboundStage::Pack
        } else {
            OutboundStage::Read
        }
    }
}

impl OutboundStage {
    /// Moves on from this stage, given how its step went.
    pub fn advance(self, result: Result<(), StepError>) -> (next: OutboundStage)
        ensures
            next == outbound_next(self, result),
    {
        match self {
            OutboundStage::Finished(outcome) => OutboundStage::Finished(outcome),
            _ => match result {
                Err(error) => OutboundStage::Finished(ItemOutcome::Failed(error)),
                Ok(_) => match self {
                    OutboundStage::Pack => OutboundStage::RemoveDirectory,
                    OutboundStage::RemoveDirectory => OutboundStage::Read,
                    OutboundStage::Read => OutboundStage::Put,
                    OutboundStage::Put => OutboundStage::RemovePayload,
                    _ => OutboundStage::Finished(ItemOutcome::Success),
                },
            },
        }
    }

    /// Moves on from this stage through the steps whose outcomes are listed,
    /// in order.
    pub fn advance_all(self, results: &Vec<Result<(), StepError>>) -> (last: OutboundStage)
        ensures
            last == outbound_run(self, results@),
    {
        let mut stage = self;
        let mut i: usize = 0;
        assert(results@.skip(0) =~= results@);
        while i < results.len()
            invariant
                i <= results.len(),
                outbound_run(self, results@) == outbound_run(stage, results@.skip(i as int)),
            decreases results.len() - i,
        {
            proof {
                let rest = results@.skip(i as int);
                assert(rest[0] == results@[i as int]);
                assert(rest.skip(1) =~= results@.skip(i + 1));
            }
            stage = stage.advance(results[i]);
            i += 1;
        }
        stage
    }

    /// The outcome of the upload, once it has ended.
    pub fn outcome(self) -> (outcome: Option<ItemOutcome>)
        ensures
            outcome == match self {
                OutboundStage::Finished(o) => Some(o),
                _ => None::<ItemOutcome>,
            },
    {
        match self {
            OutboundStage::Finished(o) => Some(o),
            _ => None,
        }
    }
}

} // verus!
