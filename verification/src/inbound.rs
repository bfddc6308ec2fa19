//! The download side: from an object in the bucket to a file or directory on disk.
//!
//! Of a listing only the keys that begin with the download prefix are acted on.
//! Such an object is fetched, written under its local name and then deleted
//! from the bucket; an archive is afterwards expanded beside itself and
//! removed. Each step is carried out by the caller, who reports how it went
//! and is told what comes next.
use vstd::prelude::*;
use vstd::string::*;
use crate::naming::{
    expanded_name,
    expanded_name_of,
    is_archive_name,
    is_inbound,
    local_name,
    local_name_of,
};
use crate::report::{ItemOutcome, SkipReason, StepError};

verus! {

/// One entry of a bucket listing.
#[derive(Clone, Debug, PartialEq, Eq)]
pub struct RemoteObjectDescriptor {
    /// Key of the object.
    pub key: String,
    /// Length of the object in bytes.
    pub size: u64,
}

/// The length that a listing reports, as a count of bytes: nothing where it
/// reports none or a negative one.
pub open spec fn reported_size(size: Option<i64>) -> u64 {
    match size {
        Some(length) if length >= 0 => length as u64,
        _ => 0,
    }
}

impl RemoteObjectDescriptor {
    /// The descriptor for a key and the length that the listing reports for it.
    pub fn new(key: &str, size: Option<i64>) -> (descriptor: RemoteObjectDescriptor)
        ensures
            descriptor.key@ == key@,
            descriptor.size == reported_size(size),
    {
        let length: u64 = match size {
            Some(length) if length >= 0 => length as u64,
            _ => 0,
        };
        RemoteObjectDescriptor { key: String::from_str(key), size: length }
    }
}

/// Decides whether a listing goes on after the page at hand, and with which
/// token: it does when the page says that it was cut short and names a token.
pub fn next_page(truncated: Option<bool>, token: Option<&str>) -> (next: Option<String>)
    ensures
        next is Some <==> truncated == Some(true) && token is Some,
        next matches Some(t) ==> token matches Some(given) && t@ == given@,
{
    match (truncated, token) {
        (Some(true), Some(given)) => Some(String::from_str(given)),
        _ => None,
    }
}

/// One object on its way to the destination directory.
#[derive(Clone, Debug, PartialEq, Eq)]
pub struct InboundUnit {
    /// Key of the object in the bucket.
    pub key: String,
    /// Name of the file it is written to, in the destination directory.
    pub local_name: String,
    /// Name of the directory it is expanded into, where it is an archive.
    pub expanded_name: Option<String>,
}

/// An inbound unit as a mathematical value.
pub struct InboundUnitView {
    pub key: Seq<char>,
    pub local_name: Seq<char>,
    pub expanded_name: Option<Seq<char>>,
}

impl View for InboundUnit {
    type V = InboundUnitView;

    open spec fn view(&self) -> InboundUnitView {
        InboundUnitView {
            key: self.key@,
            local_name: self.local_name@,
            expanded_name: match self.expanded_name {
                Some(name) => Some(name@),
                None => None,
            },
        }
    }
}

/// The unit for a key that begins with the download prefix.
pub open spec fn inbound_unit_of(destination_prefix: Seq<char>, key: Seq<char>) -> InboundUnitView {
    let name = local_name_of(destination_prefix, key);
    InboundUnitView {
        key,
        local_name: name,
        expanded_name: if is_archive_name(name) {
            Some(expanded_name_of(name))
        } else {
            None
        },
    }
}

/// The units of a listing: one for each key that begins with the download
/// prefix, in the order of the listing.
pub open spec fn selected(destination_prefix: Seq<char>, listing: Seq<RemoteObjectDescriptor>) -> Seq<
    InboundUnitView,
> {
    listing.filter(|d: RemoteObjectDescriptor| is_inbound(destination_prefix, d.key@)).map_values(
        |d: RemoteObjectDescriptor| inbound_unit_of(destination_prefix, d.key@),
    )
}

/// The units of a vector as mathematical values.
pub open spec fn unit_views(units: Seq<InboundUnit>) -> Seq<InboundUnitView> {
    units.map_values(|u: InboundUnit| u@)
}

/// Plans the download of one listed object. Nothing is planned for a key that
/// does not begin with the download prefix.
pub fn plan_object(destination_prefix: &str, key: &str) -> (unit: Option<InboundUnit>)
    ensures
        unit is Some <==> is_inbound(destination_prefix@, key@),
        unit matches Some(u) ==> u@ == inbound_unit_of(destination_prefix@, key@),
{
    match local_name(destination_prefix, key) {
        None => None,
        Some(name) => {
            let expanded = expanded_name(name.as_str());
            Some(InboundUnit { key: String::from_str(key), local_name: name, expanded_name: expanded })
        },
    }
}

/// Picks from a listing the objects to download, in the order of the listing.
pub fn select_inbound(destination_prefix: &str, listing: &Vec<RemoteObjectDescriptor>) -> (units: Vec<
    InboundUnit,
>)
    ensures
        unit_views(units@) == selected(destination_prefix@, listing@),
{
    let ghost wanted = |d: RemoteObjectDescriptor| is_inbound(destination_prefix@, d.key@);
    let ghost planned = |d: RemoteObjectDescriptor| inbound_unit_of(destination_prefix@, d.key@);
    let ghost viewed = |u: InboundUnit| u@;
    let mut units: Vec<InboundUnit> = Vec::new();
    let mut i: usize = 0;
    assert(listing@.take(0).filter(wanted) =~= Seq::<RemoteObjectDescriptor>::empty());
    while i < listing.len()
        invariant
            i <= listing.len(),
            wanted == |d: RemoteObjectDescriptor| is_inbound(destination_prefix@, d.key@),
            planned == |d: RemoteObjectDescriptor| inbound_unit_of(destination_prefix@, d.key@),
            viewed == |u: InboundUnit| u@,
            units@.map_values(viewed) =~= listing@.take(i as int).filter(wanted).map_values(planned),
        decreases listing.len() - i,
    {
        proof {
            let head = listing@.take(i as int);
            assert(listing@.take(i + 1) =~= head.push(listing@[i as int]));
            head.lemma_filter_push(listing@[i as int], wanted);
        }
        let ghost before = units@;
        match plan_object(destination_prefix, listing[i].key.as_str()) {
            Some(unit) => {
                units.push(unit);
                proof {
                    let kept = listing@.take(i as int).filter(wanted);
                    assert(units@.map_values(viewed) =~= before.map_values(viewed).push(unit@));
                    assert(kept.push(listing@[i as int]).map_values(planned) =~= kept.map_values(
                        planned,
                    ).push(planned(listing@[i as int])));
                }
            },
            None => {},
        }
        i += 1;
    }
    assert(listing@.take(i as int) =~= listing@);
    units
}

/// Where a download stands: the step that is due, or how the download ended.
#[derive(Clone, Copy, Debug, PartialEq, Eq, Structural)]
pub enum InboundStage {
    /// Get the body of the object `key`.
    Get,
    /// Write the body to the file `local_name`, creating parent directories.
    Write,
    /// Delete the object `key` from the bucket.
    DeleteRemote,
    /// Unpack the file `local_name` into the directory `expanded_name`.
    Unpack,
    /// Remove the file `local_name`, now that it has been expanded.
    RemoveArchive,
    /// Nothing is left to do.
    Finished(ItemOutcome),
}

/// The step that follows `stage` once its outcome is known, for an object that
/// is an archive or not.
///
/// An object that is gone when it is to be fetched is skipped. An object that
/// is gone when it is to be deleted counts as deleted. Any other failure ends
/// the download with that failure; a finished download stays finished.
pub open spec fn inbound_next(
    stage: InboundStage,
    archive: bool,
    result: Result<(), StepError>,
) -> InboundStage {
    match stage {
        InboundStage::Finished(outcome) => InboundStage::Finished(outcome),
        InboundStage::Get => match result {
            Ok(_) => InboundStage::Write,
            Err(StepError::NotFound) => InboundStage::Finished(
                ItemOutcome::Skipped(SkipReason::ObjectGone),
            ),
            Err(error) => InboundStage::Finished(ItemOutcome::Failed(error)),
        },
        InboundStage::Write => match result {
            Ok(_) => InboundStage::DeleteRemote,
            Err(error) => InboundStage::Finished(ItemOutcome::Failed(error)),
        },
        InboundStage::DeleteRemote => match result {
            Ok(_) | Err(StepError::NotFound) => if archive {
                InboundStage::Unpack
            } else {
                InboundStage::Finished(ItemOutcome::Success)
            },
            Err(error) => InboundStage::Finished(ItemOutcome::Failed(error)),
        },
        InboundStage::Unpack => match result {
            Ok(_) => InboundStage::RemoveArchive,
            Err(error) => InboundStage::Finished(ItemOutcome::Failed(error)),
        },
        InboundStage::RemoveArchive => match result {
            Ok(_) => InboundStage::Finished(ItemOutcome::Success),
            Err(error) => InboundStage::Finished(ItemOutcome::Failed(error)),
        },
    }
}

/// Where a download stands after the steps whose outcomes are `results`, in order.
pub open spec fn inbound_run(
    stage: InboundStage,
    archive: bool,
    results: Seq<Result<(), StepError>>,
) -> InboundStage
    decreases results.len(),
{
    if results.len() == 0 {
        stage
    } else {
        inbound_run(inbound_next(stage, archive, results[0]), archive, results.skip(1))
    }
}

/// The downloads of one cycle: where each unit stands after the steps whose
/// outcomes are listed for it. Each unit is run on its own outcomes alone.
pub open spec fn inbound_cycle(
    units: Seq<InboundUnitView>,
    results: Seq<Seq<Result<(), StepError>>>,
) -> Seq<InboundStage> {
    Seq::new(
        units.len(),
        |i: int| inbound_run(InboundStage::Get, units[i].expanded_name is Some, results[i]),
    )
}

/// The bucket and the destination directory, each as a map from names to
/// contents.
pub struct Stores {
    pub bucket: Map<Seq<char>, Seq<u8>>,
    pub local: Map<Seq<char>, Seq<u8>>,
}

/// What a step of the delivery of an object (fetching, writing, deleting) does
/// to the stores when it went as `result` says, where `body` is what was
/// fetched: a write that succeeded has put the body under the local name, a
/// deletion that succeeded has removed the key, and a step that failed, like
/// the fetching, has changed nothing. The steps that expand an archive are not
/// described: for them the stores are given back as they are.
pub open spec fn delivery_effect(
    unit: InboundUnitView,
    stage: InboundStage,
    result: Result<(), StepError>,
    body: Seq<u8>,
    stores: Stores,
) -> Stores {
    match (stage, result) {
        (InboundStage::Write, Ok(_)) => Stores {
            bucket: stores.bucket,
            local: stores.local.insert(unit.local_name, body),
        },
        (InboundStage::DeleteRemote, Ok(_)) => Stores {
            bucket: stores.bucket.remove(unit.key),
            local: stores.local,
        },
        _ => stores,
    }
}

impl InboundUnit {
    /// The first step that is due for this unit.
    pub fn first_stage(&self) -> (stage: InboundStage)
        ensures
            stage == InboundStage::Get,
    {
        InboundStage::Get
    }

    /// Whether the object is an archive that is expanded after it has arrived.
    pub fn is_archive(&self) -> (archive: bool)
        ensures
            archive == self.expanded_name is Some,
    {
        self.expanded_name.is_some()
    }

    /// Moves on from `stage` through the steps whose outcomes are listed, in
    /// order.
    pub fn advance_all(&self, stage: InboundStage, results: &Vec<Result<(), StepError>>) -> (last:
        InboundStage)
        ensures
            last == inbound_run(stage, self.expanded_name is Some, results@),
    {
        let ghost archive = self.expanded_name is Some;
        let mut current = stage;
        let mut i: usize = 0;
        assert(results@.skip(0) =~= results@);
        while i < results.len()
            invariant
                i <= results.len(),
                archive == self.expanded_name is Some,
                inbound_run(stage, archive, results@) == inbound_run(
                    current,
                    archive,
                    results@.skip(i as int),
                ),
            decreases results.len() - i,
        {
            proof {
                let rest = results@.skip(i as int);
                assert(rest[0] == results@[i as int]);
                assert(rest.skip(1) =~= results@.skip(i + 1));
            }
            current = self.advance(current, results[i]);
            i += 1;
        }
        current
    }

    /// Moves on from `stage`, given how its step went.
    pub fn advance(&self, stage: InboundStage, result: Result<(), StepError>) -> (next: InboundStage)
        ensures
            next == inbound_next(stage, self.expanded_name is Some, result),
    {
        let failed = match result {
            Ok(_) => None,
            Err(error) => Some(error),
        };
        match (stage, failed) {
            (InboundStage::Finished(outcome), _) => InboundStage::Finished(outcome),
            (InboundStage::Get, Some(StepError::NotFound)) => InboundStage::Finished(
                ItemOutcome::Skipped(SkipReason::ObjectGone),
            ),
            (InboundStage::DeleteRemote, None)
            | (InboundStage::DeleteRemote, Some(StepError::NotFound)) => {
                if self.is_archive() {
                    InboundStage::Unpack
                } else {
                    InboundStage::Finished(ItemOutcome::Success)
                }
            },
            (_, Some(error)) => InboundStage::Finished(ItemOutcome::Failed(error)),
            (InboundStage::Get, None) => InboundStage::Write,
            (InboundStage::Write, None) => InboundStage::DeleteRemote,
            (InboundStage::Unpack, None) => InboundStage::RemoveArchive,
            (InboundStage::RemoveArchive, None) => InboundStage::Finished(ItemOutcome::Success),
        }
    }
}

impl InboundStage {
    /// The outcome of the download, once it has ended.
    pub fn outcome(self) -> (outcome: Option<ItemOutcome>)
        ensures
            outcome == match self {
                InboundStage::Finished(o) => Some(o),
                _ => None::<ItemOutcome>,
            },
    {
        match self {
            InboundStage::Finished(o) => Some(o),
            _ => None,
        }
    }
}

} // verus!
