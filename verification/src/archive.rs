//! The archive in which a directory tree travels as a single object.
//!
//! An archive is a list of entries, each a path relative to the packed
//! directory, and for a file its content. In bytes it is a four-byte header
//! followed by the entries one after another: a tag (0 for a directory, 1 for
//! a file, and 2 more where the entry is read-only), the length of the path in
//! bytes as eight little-endian bytes, the path in UTF-8, and for a file the
//! length of the content in the same form and the content itself. Nothing is
//! compressed.
use vstd::prelude::*;
use vstd::bytes::*;
use vstd::slice::*;
use vstd::string::*;
use vstd::utf8::*;

verus! {

/// One entry of an archive.
#[derive(Clone, Debug, PartialEq, Eq)]
pub struct ArchiveEntry {
    /// Path of the file or directory, relative to the packed directory.
    pub path: String,
    /// Whether the file or directory is protected against writing.
    pub read_only: bool,
    /// Content of a file; absent for a directory.
    pub content: Option<Vec<u8>>,
}

/// An archive entry as a mathematical value.
pub struct EntryView {
    pub path: Seq<char>,
    pub read_only: bool,
    pub content: Option<Seq<u8>>,
}

impl View for ArchiveEntry {
    type V = EntryView;

    open spec fn view(&self) -> EntryView {
        EntryView {
            path: self.path@,
            read_only: self.read_only,
            content: match self.content {
                Some(bytes) => Some(bytes@),
                None => None,
            },
        }
    }
}

/// The path of a child named `name` of the directory at `parent`, both relative
/// to the packed directory, whose own path is empty.
pub open spec fn child_path_of(parent: Seq<char>, name: Seq<char>) -> Seq<char> {
    if parent.len() == 0 {
        name
    } else {
        parent + seq!['/'] + name
    }
}

/// Builds the path of a child of a directory within the packed directory. The
/// packed directory itself has the empty path, and is no entry.
pub fn child_path(parent: &str, name: &str) -> (path: String)
    ensures
        path@ == child_path_of(parent@, name@),
{
    if parent.unicode_len() == 0 {
        String::from_str(name)
    } else {
        proof {
            reveal_strlit("/");
        }
        assert("/"@ =~= seq!['/']);
        String::from_str(parent).concat("/").concat(name)
    }
}

/// Why a sequence of bytes is not an archive.
#[derive(Clone, Copy, Debug, PartialEq, Eq, Structural)]
pub enum ArchiveReadError {
    /// The bytes do not begin with the archive header.
    BadHeader,
    /// An entry is cut short, has an unknown tag or a path that is not UTF-8.
    Malformed,
}

/// The entries of a vector as mathematical values.
pub open spec fn entry_views(entries: Seq<ArchiveEntry>) -> Seq<EntryView> {
    entries.map_values(|e: ArchiveEntry| e@)
}

/// The bytes every archive begins with.
pub open spec fn header() -> Seq<u8> {
    seq![0x50u8, 0x49u8, 0x4bu8, 0x41u8]
}

/// A length as eight little-endian bytes.
pub open spec fn length_bytes(length: nat) -> Seq<u8> {
    spec_u64_to_le_bytes(length as u64)
}

/// Whether the lengths of an entry can be written in eight bytes each.
pub open spec fn entry_fits(entry: EntryView) -> bool {
    &&& encode_utf8(entry.path).len() <= u64::MAX
    &&& entry.content matches Some(content) ==> content.len() <= u64::MAX
}

/// The tag of an entry: 0 for a directory, 1 for a file, and 2 more where the
/// entry is read-only.
pub open spec fn entry_tag(entry: EntryView) -> u8 {
    match (entry.content, entry.read_only) {
        (None, false) => 0u8,
        (Some(_), false) => 1u8,
        (None, true) => 2u8,
        (Some(_), true) => 3u8,
    }
}

/// The bytes of one entry.
pub open spec fn entry_bytes(entry: EntryView) -> Seq<u8> {
    let path = encode_utf8(entry.path);
    let lead = seq![entry_tag(entry)] + length_bytes(path.len()) + path;
    match entry.content {
        None => lead,
        Some(content) => lead + length_bytes(content.len()) + content,
    }
}

/// The bytes of a list of entries: those of each entry, in order.
pub open spec fn entries_bytes(entries: Seq<EntryView>) -> Seq<u8>
    decreases entries.len(),
{
    if entries.len() == 0 {
        Seq::<u8>::empty()
    } else {
        entries_bytes(entries.drop_last()) + entry_bytes(entries.last())
    }
}

/// The bytes of an archive: the header, then the entries.
pub open spec fn archive_bytes(entries: Seq<EntryView>) -> Seq<u8> {
    header() + entries_bytes(entries)
}

/// The entry that `bytes` begin with and the number of bytes it takes up, if
/// they begin with an entry at all.
pub open spec fn parse_entry(bytes: Seq<u8>) -> Option<(EntryView, int)> {
    if bytes.len() < 9 || bytes[0] > 3 {
        None
    } else {
        let read_only = bytes[0] >= 2;
        let path_len = spec_u64_from_le_bytes(bytes.subrange(1, 9)) as int;
        if 9 + path_len > bytes.len() {
            None
        } else {
            let path = bytes.subrange(9, 9 + path_len);
            if !valid_utf8(path) {
                None
            } else if bytes[0] == 0 || bytes[0] == 2 {
                Some((EntryView { path: decode_utf8(path), read_only, content: None }, 9 + path_len))
            } else if 17 + path_len > bytes.len() {
                None
            } else {
                let content_len = spec_u64_from_le_bytes(
                    bytes.subrange(9 + path_len, 17 + path_len),
                ) as int;
                if 17 + path_len + content_len > bytes.len() {
                    None
                } else {
                    let content = bytes.subrange(17 + path_len, 17 + path_len + content_len);
                    Some(
                        (
                            EntryView { path: decode_utf8(path), read_only, content: Some(content) },
                            17 + path_len + content_len,
                        ),
                    )
                }
            }
        }
    }
}

/// The entries that `bytes` consist of, if they are entries from end to end.
pub open spec fn parse_entries(bytes: Seq<u8>) -> Option<Seq<EntryView>>
    decreases bytes.len(),
{
    if bytes.len() == 0 {
        Some(Seq::<EntryView>::empty())
    } else {
        match parse_entry(bytes) {
            None => None,
            Some((entry, used)) => if used <= 0 || used > bytes.len() {
                None
            } else {
                match parse_entries(bytes.skip(used)) {
                    None => None,
                    Some(rest) => Some(seq![entry] + rest),
                }
            },
        }
    }
}

/// What unpacking `bytes` gives: the entries of the archive, or the reason
/// the bytes are no archive.
pub open spec fn parse_archive(bytes: Seq<u8>) -> Result<Seq<EntryView>, ArchiveReadError> {
    if !header().is_prefix_of(bytes) {
        Err(ArchiveReadError::BadHeader)
    } else {
        match parse_entries(bytes.skip(4)) {
            None => Err(ArchiveReadError::Malformed),
            Some(entries) => Ok(entries),
        }
    }
}

/// The result of unpacking, as a mathematical value.
pub open spec fn unpacked_view(unpacked: Result<Vec<ArchiveEntry>, ArchiveReadError>) -> Result<
    Seq<EntryView>,
    ArchiveReadError,
> {
    match unpacked {
        Ok(entries) => Ok(entry_views(entries@)),
        Err(error) => Err(error),
    }
}

/// Decodes UTF-8 with `String::from_utf8` of the standard library: the text
/// that the bytes encode, and nothing where they are not valid UTF-8.
#[verifier::external_body]
fn text_from_utf8(bytes: Vec<u8>) -> (text: Option<String>)
    ensures
        text is Some <==> valid_utf8(bytes@),
        text matches Some(t) ==> t@ == decode_utf8(bytes@),
{
    match String::from_utf8(bytes) {
        Ok(text) => Some(text),
        Err(_) => None,
    }
}

/// Appends `source` to `target`.
fn append_bytes(target: &mut Vec<u8>, source: &[u8])
    ensures
        final(target)@ == old(target)@ + source@,
{
    let mut i: usize = 0;
    while i < source.len()
        invariant
            i <= source.len(),
            target@ == old(target)@ + source@.take(i as int),
        decreases source.len() - i,
    {
        target.push(source[i]);
        assert(source@.take(i + 1) =~= source@.take(i as int).push(source@[i as int]));
        assert(target@ =~= old(target)@ + source@.take(i + 1));
        i += 1;
    }
    assert(source@.take(i as int) =~= source@);
}

/// Appends the bytes of one entry to `target`.
fn append_entry(target: &mut Vec<u8>, entry: &ArchiveEntry)
    ensures
        final(target)@ == old(target)@ + entry_bytes(entry@),
{
    let path = entry.path.as_str().as_bytes_vec();
    let path_len = u64_to_le_bytes(path.len() as u64);
    match &entry.content {
        None => {
            target.push(if entry.read_only { 2u8 } else { 0u8 });
            append_bytes(target, path_len.as_slice());
            append_bytes(target, path.as_slice());
            assert(target@ =~= old(target)@ + entry_bytes(entry@));
        },
        Some(content) => {
            let content_len = u64_to_le_bytes(content.len() as u64);
            target.push(if entry.read_only { 3u8 } else { 1u8 });
            append_bytes(target, path_len.as_slice());
            append_bytes(target, path.as_slice());
            append_bytes(target, content_len.as_slice());
            append_bytes(target, content.as_slice());
            assert(target@ =~= old(target)@ + entry_bytes(entry@));
        },
    }
}

/// Packs the entries into the bytes of one archive.
pub fn pack(entries: &Vec<ArchiveEntry>) -> (bytes: Vec<u8>)
    ensures
        bytes@ == archive_bytes(entry_views(entries@)),
{
    let mut bytes: Vec<u8> = Vec::new();
    bytes.push(0x50u8);
    bytes.push(0x49u8);
    bytes.push(0x4bu8);
    bytes.push(0x41u8);
    assert(bytes@ =~= header());
    let ghost views = entry_views(entries@);
    let mut i: usize = 0;
    while i < entries.len()
        invariant
            i <= entries.len(),
            views == entry_views(entries@),
            bytes@ == header() + entries_bytes(views.take(i as int)),
        decreases entries.len() - i,
    {
        append_entry(&mut bytes, &entries[i]);
        proof {
            let next = views.take(i + 1);
            assert(next.drop_last() =~= views.take(i as int));
            assert(next.last() == entries@[i as int]@);
            assert(bytes@ =~= header() + entries_bytes(next));
        }
        i += 1;
    }
    assert(views.take(i as int) =~= views);
    bytes
}

/// Reads the entry that begins at `position`.
fn read_entry(bytes: &[u8], position: usize) -> (entry: Option<(ArchiveEntry, usize)>)
    requires
        position <= bytes@.len(),
    ensures
        entry is Some <==> parse_entry(bytes@.skip(position as int)) is Some,
        entry matches Some((e, used)) ==> {
            &&& parse_entry(bytes@.skip(position as int)) == Some((e@, used as int))
            &&& position + used <= bytes@.len()
        },
{
    let ghost tail = bytes@.skip(position as int);
    let available: usize = bytes.len() - position;
    if available < 9 {
        return None;
    }
    let tag: u8 = bytes[position];
    assert(tail[0] == tag);
    if tag > 3 {
        return None;
    }
    let read_only: bool = tag >= 2;
    let path_len_wide: u64 = u64_from_le_bytes(slice_subrange(bytes, position + 1, position + 9));
    assert(bytes@.subrange(position + 1, position + 9) =~= tail.subrange(1, 9));
    if path_len_wide > (available - 9) as u64 {
        return None;
    }
    let path_len: usize = path_len_wide as usize;
    let path_start: usize = position + 9;
    let path_bytes = slice_to_vec(slice_subrange(bytes, path_start, path_start + path_len));
    assert(path_bytes@ =~= tail.subrange(9, 9 + path_len));
    let path = match text_from_utf8(path_bytes) {
        None => {
            return None;
        },
        Some(path) => path,
    };
    if tag == 0 || tag == 2 {
        return Some((ArchiveEntry { path, read_only, content: None }, 9 + path_len));
    }
    if available - 9 - path_len < 8 {
        return None;
    }
    let length_start: usize = path_start + path_len;
    let content_len_wide: u64 = u64_from_le_bytes(
        slice_subrange(bytes, length_start, length_start + 8),
    );
    assert(bytes@.subrange(length_start as int, length_start + 8) =~= tail.subrange(
        9 + path_len,
        17 + path_len,
    ));
    if content_len_wide > (available - 17 - path_len) as u64 {
        return None;
    }
    let content_len: usize = content_len_wide as usize;
    let content_start: usize = length_start + 8;
    let content = slice_to_vec(slice_subrange(bytes, content_start, content_start + content_len));
    assert(content@ =~= tail.subrange(17 + path_len, 17 + path_len + content_len));
    Some((ArchiveEntry { path, read_only, content: Some(content) }, 17 + path_len + content_len))
}

/// Unpacks the bytes of an archive into its entries, in the order in which
/// they were packed. Bytes that are no archive are rejected.
pub fn unpack(bytes: &[u8]) -> (unpacked: Result<Vec<ArchiveEntry>, ArchiveReadError>)
    ensures
        unpacked_view(unpacked) == parse_archive(bytes@),
{
    if bytes.len() < 4 || bytes[0] != 0x50u8 || bytes[1] != 0x49u8 || bytes[2] != 0x4bu8 || bytes[3]
        != 0x41u8 {
        assert(!header().is_prefix_of(bytes@)) by {
            if header().is_prefix_of(bytes@) {
                assert(forall|k: int| 0 <= k < 4 ==> bytes@.subrange(0, 4)[k] == header()[k]);
            }
        }
        return Err(ArchiveReadError::BadHeader);
    }
    assert(header() =~= bytes@.subrange(0, 4));
    assert(header().is_prefix_of(bytes@));
    let mut entries: Vec<ArchiveEntry> = Vec::new();
    let mut position: usize = 4;
    while position < bytes.len()
        invariant
            4 <= position <= bytes.len(),
            header().is_prefix_of(bytes@),
            parse_entries(bytes@.skip(4)) == match parse_entries(bytes@.skip(position as int)) {
                None => None::<Seq<EntryView>>,
                Some(rest) => Some(entry_views(entries@) + rest),
            },
        decreases bytes.len() - position,
    {
        let ghost tail = bytes@.skip(position as int);
        let ghost before = entry_views(entries@);
        match read_entry(bytes, position) {
            None => {
                assert(tail.len() > 0);
                assert(parse_entries(tail) is None);
                return Err(ArchiveReadError::Malformed);
            },
            Some((entry, used)) => {
                proof {
                    assert(tail.skip(used as int) =~= bytes@.skip(position + used));
                }
                let ghost view = entry@;
                entries.push(entry);
                proof {
                    assert(entry_views(entries@) =~= before.push(view));
                    match parse_entries(bytes@.skip(position + used)) {
                        None => {},
                        Some(rest) => {
                            assert(before + (seq![view] + rest) =~= before.push(view) + rest);
                        },
                    }
                }
                position += used;
            },
        }
    }
    proof {
        assert(entry_views(entries@) + Seq::<EntryView>::empty() =~= entry_views(entries@));
    }
    Ok(entries)
}

} // verus!
