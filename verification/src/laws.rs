//! Properties that hold of the library as a whole, each proved from the
//! definitions that the contracts of its functions are stated in.
use vstd::prelude::*;
use vstd::bytes::*;
use vstd::utf8::*;
use crate::archive::{
    archive_bytes,
    entries_bytes,
    entry_bytes,
    entry_fits,
    entry_tag,
    header,
    length_bytes,
    parse_archive,
    parse_entries,
    parse_entry,
    EntryView,
};
use crate::config::prefixes_overlap;
use crate::inbound::{
    inbound_cycle,
    delivery_effect,
    inbound_next,
    inbound_run,
    selected,
    InboundStage,
    InboundUnitView,
    RemoteObjectDescriptor,
    Stores,
};
use crate::naming::{is_inbound, remote_key_of};
use crate::outbound::{
    outbound_cycle,
    outbound_next,
    outbound_run,
    outbound_start,
    unit_of,
    OutboundStage,
    TransferUnitView,
};
use crate::report::{ItemOutcome, StepError};

verus! {

/// The bytes of a non-empty list of entries are the bytes of its first entry
/// followed by the bytes of the others.
pub proof fn lemma_entries_bytes_front(entries: Seq<EntryView>)
    requires
        entries.len() > 0,
    ensures
        entries_bytes(entries) == entry_bytes(entries[0]) + entries_bytes(entries.skip(1)),
    decreases entries.len(),
{
    if entries.len() == 1 {
        assert(entries.drop_last() =~= Seq::<EntryView>::empty());
        assert(entries.skip(1) =~= Seq::<EntryView>::empty());
        assert(entries_bytes(entries.drop_last()) =~= Seq::<u8>::empty());
        assert(entries_bytes(entries) =~= entry_bytes(entries[0]) + entries_bytes(entries.skip(1)));
    } else {
        let shorter = entries.drop_last();
        lemma_entries_bytes_front(shorter);
        assert(shorter.skip(1) =~= entries.skip(1).drop_last());
        assert(entries.skip(1).last() == entries.last());
        assert(entries_bytes(entries) =~= entry_bytes(entries[0]) + entries_bytes(entries.skip(1)));
    }
}

/// Bytes that begin with the bytes of an entry parse to that entry, whatever
/// follows it.
pub proof fn lemma_parse_entry_bytes(entry: EntryView, rest: Seq<u8>)
    requires
        entry_fits(entry),
    ensures
        parse_entry(entry_bytes(entry) + rest) == Some((entry, entry_bytes(entry).len() as int)),
        entry_bytes(entry).len() >= 9,
{
    lemma_auto_spec_u64_to_from_le_bytes();
    encode_utf8_valid_utf8(entry.path);
    encode_utf8_decode_utf8(entry.path);
    let path = encode_utf8(entry.path);
    let all = entry_bytes(entry) + rest;
    let path_len = path.len() as int;
    assert(length_bytes(path.len()).len() == 8);
    assert(all.subrange(1, 9) =~= length_bytes(path.len()));
    assert(spec_u64_from_le_bytes(all.subrange(1, 9)) as int == path_len);
    assert(all.subrange(9, 9 + path_len) =~= path);
    assert(all[0] == entry_tag(entry));
    match entry.content {
        None => {},
        Some(content) => {
            let content_len = content.len() as int;
            assert(length_bytes(content.len()).len() == 8);
            assert(all.subrange(9 + path_len, 17 + path_len) =~= length_bytes(content.len()));
            assert(spec_u64_from_le_bytes(all.subrange(9 + path_len, 17 + path_len)) as int
                == content_len);
            assert(all.subrange(17 + path_len, 17 + path_len + content_len) =~= content);
        },
    }
}

/// The bytes of a list of entries parse back to that list.
pub proof fn lemma_parse_entries_bytes(entries: Seq<EntryView>)
    requires
        forall|i: int| 0 <= i < entries.len() ==> entry_fits(#[trigger] entries[i]),
    ensures
        parse_entries(entries_bytes(entries)) == Some(entries),
    decreases entries.len(),
{
    if entries.len() == 0 {
        assert(entries =~= Seq::<EntryView>::empty());
    } else {
        let first = entries[0];
        let others = entries.skip(1);
        let rest = entries_bytes(others);
        lemma_entries_bytes_front(entries);
        lemma_parse_entry_bytes(first, rest);
        assert forall|i: int| 0 <= i < others.len() implies entry_fits(#[trigger] others[i]) by {
            assert(others[i] == entries[i + 1]);
        }
        lemma_parse_entries_bytes(others);
        let used = entry_bytes(first).len() as int;
        assert((entry_bytes(first) + rest).skip(used) =~= rest);
        assert(seq![first] + others =~= entries);
    }
}

/// Packing then unpacking gives back what was packed: the same paths with the
/// same contents and the same directories, empty ones included, in the same
/// order.
pub proof fn lemma_unpack_of_pack(entries: Seq<EntryView>)
    requires
        forall|i: int| 0 <= i < entries.len() ==> entry_fits(#[trigger] entries[i]),
    ensures
        parse_archive(archive_bytes(entries)) == Ok::<Seq<EntryView>, crate::archive::ArchiveReadError>(
            entries,
        ),
{
    let bytes = archive_bytes(entries);
    assert(bytes.subrange(0, 4) =~= header());
    assert(bytes.skip(4) =~= entries_bytes(entries));
    lemma_parse_entries_bytes(entries);
}

/// The key of an upload depends on the upload prefix and on the name of the
/// child alone: planning the same child again gives the same key, so a retry
/// overwrites the object of the earlier attempt.
pub proof fn lemma_key_is_stable(
    prefix: Seq<char>,
    name: Seq<char>,
    directory: bool,
    first: TransferUnitView,
    second: TransferUnitView,
)
    requires
        first == unit_of(prefix, name, directory),
        second == unit_of(prefix, name, directory),
    ensures
        first.remote_key == second.remote_key,
        first.remote_key == prefix + first.payload_name,
{
}

/// Two prefixes that some key begins with overlap: the shorter of them is
/// what the longer one begins with.
pub proof fn lemma_shared_key_means_overlap(a: Seq<char>, b: Seq<char>, key: Seq<char>)
    requires
        a.is_prefix_of(key),
        b.is_prefix_of(key),
    ensures
        prefixes_overlap(a, b),
{
    let (short, long) = if a.len() <= b.len() {
        (a, b)
    } else {
        (b, a)
    };
    assert forall|k: int| 0 <= k < short.len() implies short[k] == long[k] by {
        assert(key.subrange(0, short.len() as int)[k] == key[k]);
        assert(key.subrange(0, long.len() as int)[k] == key[k]);
    }
    assert(short =~= long.subrange(0, short.len() as int));
    assert(short.is_prefix_of(long));
}

/// Of two prefixes that overlap, the longer is a key that begins with both.
pub proof fn lemma_overlap_means_shared_key(a: Seq<char>, b: Seq<char>)
    requires
        prefixes_overlap(a, b),
    ensures
        ({
            let key = if a.len() <= b.len() {
                b
            } else {
                a
            };
            a.is_prefix_of(key) && b.is_prefix_of(key)
        }),
{
    assert(a =~= a.subrange(0, a.len() as int));
    assert(b =~= b.subrange(0, b.len() as int));
    if a.len() == b.len() {
        assert(a =~= b);
    }
}

/// With upload and download prefixes that do not overlap, no key that the
/// upload side produces is one that the download side acts on.
pub proof fn lemma_uploaded_key_is_not_inbound(
    source_prefix: Seq<char>,
    destination_prefix: Seq<char>,
    file_name: Seq<char>,
)
    requires
        !prefixes_overlap(source_prefix, destination_prefix),
    ensures
        !is_inbound(destination_prefix, remote_key_of(source_prefix, file_name)),
{
    let key = source_prefix + file_name;
    assert(source_prefix =~= key.subrange(0, source_prefix.len() as int));
    if destination_prefix.is_prefix_of(key) {
        lemma_shared_key_means_overlap(source_prefix, destination_prefix, key);
    }
}

/// With upload and download prefixes that do not overlap, a listing that holds
/// only keys produced by the upload side gives the download side nothing to do.
pub proof fn lemma_own_uploads_are_not_selected(
    source_prefix: Seq<char>,
    destination_prefix: Seq<char>,
    listing: Seq<RemoteObjectDescriptor>,
)
    requires
        !prefixes_overlap(source_prefix, destination_prefix),
        forall|i: int|
            0 <= i < listing.len() ==> exists|name: Seq<char>|
                (#[trigger] listing[i]).key@ == remote_key_of(source_prefix, name),
    ensures
        selected(destination_prefix, listing).len() == 0,
{
    let wanted = |d: RemoteObjectDescriptor| is_inbound(destination_prefix, d.key@);
    let kept = listing.filter(wanted);
    if kept.len() > 0 {
        let d = kept[0];
        listing.lemma_filter_pred(wanted, 0);
        assert(kept.contains(d));
        listing.lemma_filter_contains_rev(wanted, d);
        let i = choose|i: int| 0 <= i < listing.len() && listing[i] == d;
        let name = choose|name: Seq<char>| listing[i].key@ == remote_key_of(source_prefix, name);
        lemma_uploaded_key_is_not_inbound(source_prefix, destination_prefix, name);
    }
}

/// Once an object has been fetched and written, its deletion is the step that
/// is due. Once that deletion has succeeded, or has found the object gone
/// already, the object is absent from the bucket, its body stands under its
/// local name, and the download has not failed.
pub proof fn lemma_delivered_object_leaves_bucket(
    unit: InboundUnitView,
    archive: bool,
    body: Seq<u8>,
    deleted: Result<(), StepError>,
    before: Stores,
)
    requires
        deleted is Ok || deleted == Err::<(), StepError>(StepError::NotFound),
        deleted is Err ==> !before.bucket.contains_key(unit.key),
    ensures
        ({
            let writing = inbound_next(InboundStage::Get, archive, Ok(()));
            let fetched = delivery_effect(unit, InboundStage::Get, Ok(()), body, before);
            let deleting = inbound_next(writing, archive, Ok(()));
            let written = delivery_effect(unit, writing, Ok(()), body, fetched);
            let after = delivery_effect(unit, deleting, deleted, body, written);
            &&& writing == InboundStage::Write
            &&& deleting == InboundStage::DeleteRemote
            &&& !after.bucket.contains_key(unit.key)
            &&& after.local.contains_key(unit.local_name)
            &&& after.local[unit.local_name] == body
            &&& !(inbound_next(deleting, archive, deleted) matches InboundStage::Finished(
                ItemOutcome::Failed(_),
            ))
        }),
{
}

/// Whether every step of a list went well.
pub open spec fn all_ok(results: Seq<Result<(), StepError>>) -> bool {
    forall|k: int| 0 <= k < results.len() ==> (#[trigger] results[k]) is Ok
}

/// The number of steps an upload at `stage` still has to take.
pub open spec fn outbound_steps_left(stage: OutboundStage) -> nat {
    match stage {
        OutboundStage::Pack => 5,
        OutboundStage::RemoveDirectory => 4,
        OutboundStage::Read => 3,
        OutboundStage::Put => 2,
        OutboundStage::RemovePayload => 1,
        OutboundStage::Finished(_) => 0,
    }
}

/// The number of steps a download at `stage` still has to take.
pub open spec fn inbound_steps_left(stage: InboundStage, archive: bool) -> nat {
    match stage {
        InboundStage::Get => if archive { 5 } else { 3 },
        InboundStage::Write => if archive { 4 } else { 2 },
        InboundStage::DeleteRemote => if archive { 3 } else { 1 },
        InboundStage::Unpack => 2,
        InboundStage::RemoveArchive => 1,
        InboundStage::Finished(_) => 0,
    }
}

/// An upload whose remaining steps all go well ends in success.
pub proof fn lemma_outbound_completes(stage: OutboundStage, results: Seq<Result<(), StepError>>)
    requires
        all_ok(results),
        results.len() >= outbound_steps_left(stage),
        stage is Finished ==> stage == OutboundStage::Finished(ItemOutcome::Success),
    ensures
        outbound_run(stage, results) == OutboundStage::Finished(ItemOutcome::Success),
    decreases results.len(),
{
    if results.len() > 0 {
        assert(results[0] is Ok);
        let rest = results.skip(1);
        assert forall|k: int| 0 <= k < rest.len() implies (#[trigger] rest[k]) is Ok by {
            assert(rest[k] == results[k + 1]);
        }
        lemma_outbound_completes(outbound_next(stage, results[0]), rest);
    }
}

/// A download whose remaining steps all go well ends in success.
pub proof fn lemma_inbound_completes(
    stage: InboundStage,
    archive: bool,
    results: Seq<Result<(), StepError>>,
)
    requires
        all_ok(results),
        results.len() >= inbound_steps_left(stage, archive),
        stage is Finished ==> stage == InboundStage::Finished(ItemOutcome::Success),
        !archive ==> stage != InboundStage::Unpack && stage != InboundStage::RemoveArchive,
    ensures
        inbound_run(stage, archive, results) == InboundStage::Finished(ItemOutcome::Success),
    decreases results.len(),
{
    if results.len() > 0 {
        assert(results[0] is Ok);
        let rest = results.skip(1);
        assert forall|k: int| 0 <= k < rest.len() implies (#[trigger] rest[k]) is Ok by {
            assert(rest[k] == results[k + 1]);
        }
        lemma_inbound_completes(inbound_next(stage, archive, results[0]), archive, rest);
    }
}

/// In an upload cycle an item whose own steps all go well ends in success,
/// whatever becomes of the other items; and how an item ends depends on its
/// own steps alone.
pub proof fn lemma_outbound_failure_isolation(
    units: Seq<TransferUnitView>,
    results: Seq<Seq<Result<(), StepError>>>,
    others: Seq<Seq<Result<(), StepError>>>,
    item: int,
)
    requires
        0 <= item < units.len(),
        units.len() == results.len(),
        units.len() == others.len(),
        results[item] == others[item],
    ensures
        outbound_cycle(units, results)[item] == outbound_cycle(units, others)[item],
        all_ok(results[item]) && results[item].len() >= outbound_steps_left(
            outbound_start(units[item].directory_origin),
        ) ==> outbound_cycle(units, results)[item] == OutboundStage::Finished(ItemOutcome::Success),
{
    if all_ok(results[item]) && results[item].len() >= outbound_steps_left(
        outbound_start(units[item].directory_origin),
    ) {
        lemma_outbound_completes(outbound_start(units[item].directory_origin), results[item]);
    }
}

/// In a download cycle an item whose own steps all go well ends in success,
/// whatever becomes of the other items; and how an item ends depends on its
/// own steps alone.
pub proof fn lemma_inbound_failure_isolation(
    units: Seq<InboundUnitView>,
    results: Seq<Seq<Result<(), StepError>>>,
    others: Seq<Seq<Result<(), StepError>>>,
    item: int,
)
    requires
        0 <= item < units.len(),
        units.len() == results.len(),
        units.len() == others.len(),
        results[item] == others[item],
    ensures
        inbound_cycle(units, results)[item] == inbound_cycle(units, others)[item],
        all_ok(results[item]) && results[item].len() >= inbound_steps_left(
            InboundStage::Get,
            units[item].expanded_name is Some,
        ) ==> inbound_cycle(units, results)[item] == InboundStage::Finished(ItemOutcome::Success),
{
    if all_ok(results[item]) && results[item].len() >= inbound_steps_left(
        InboundStage::Get,
        units[item].expanded_name is Some,
    ) {
        lemma_inbound_completes(
            InboundStage::Get,
            units[item].expanded_name is Some,
            results[item],
        );
    }
}

} // verus!
