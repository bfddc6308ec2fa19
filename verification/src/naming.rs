//! How local names and remote keys are derived from one another.
//!
//! A key that this instance uploads is the upload prefix followed by the name
//! of the uploaded file. A key is downloaded when it begins with the download
//! prefix, and lands locally under the name that follows that prefix. A
//! directory travels as an archive whose name is the directory's name followed
//! by the archive suffix.
use vstd::prelude::*;
use vstd::string::*;
use crate::text::{ends_with, is_suffix_of, join, skip_chars, starts_with, take_chars};

verus! {

/// The text that ends the name of every archive.
pub open spec fn archive_suffix() -> Seq<char> {
    seq!['.', 'z', 'i', 'p']
}

/// The key under which a file named `file_name` is uploaded.
pub open spec fn remote_key_of(prefix: Seq<char>, file_name: Seq<char>) -> Seq<char> {
    prefix + file_name
}

/// Whether a key belongs to the traffic that is downloaded.
pub open spec fn is_inbound(destination_prefix: Seq<char>, key: Seq<char>) -> bool {
    destination_prefix.is_prefix_of(key)
}

/// The local name of a downloaded key: the key without the download prefix.
pub open spec fn local_name_of(destination_prefix: Seq<char>, key: Seq<char>) -> Seq<char> {
    key.skip(destination_prefix.len() as int)
}

/// The name of the archive that a directory is packed into.
pub open spec fn archive_name_of(directory: Seq<char>) -> Seq<char> {
    directory + archive_suffix()
}

/// A name denotes an archive when it ends with the archive suffix and its last
/// path component has something in front of that suffix.
pub open spec fn is_archive_name(name: Seq<char>) -> bool {
    &&& is_suffix_of(archive_suffix(), name)
    &&& name.len() > archive_suffix().len()
    &&& name[name.len() - archive_suffix().len() - 1] != '/'
}

/// The directory that an archive is expanded into: its name without the suffix.
pub open spec fn expanded_name_of(archive: Seq<char>) -> Seq<char> {
    archive.take(archive.len() - archive_suffix().len())
}

/// The archive suffix as program text.
pub fn archive_extension() -> (suffix: &'static str)
    ensures
        suffix@ == archive_suffix(),
{
    proof {
        reveal_strlit(".zip");
    }
    assert(".zip"@ =~= archive_suffix());
    ".zip"
}

/// Builds the key under which `file_name` is uploaded.
pub fn remote_key(prefix: &str, file_name: &str) -> (key: String)
    ensures
        key@ == remote_key_of(prefix@, file_name@),
{
    join(prefix, file_name)
}

/// Decides whether `key` is one that the download side acts on.
pub fn is_inbound_key(destination_prefix: &str, key: &str) -> (inbound: bool)
    ensures
        inbound == is_inbound(destination_prefix@, key@),
{
    starts_with(key, destination_prefix)
}

/// The local name for a key, or nothing for a key that is not downloaded.
pub fn local_name(destination_prefix: &str, key: &str) -> (name: Option<String>)
    ensures
        name is Some <==> is_inbound(destination_prefix@, key@),
        name matches Some(n) ==> n@ == local_name_of(destination_prefix@, key@),
{
    if starts_with(key, destination_prefix) {
        let count: usize = destination_prefix.unicode_len();
        Some(skip_chars(key, count))
    } else {
        None
    }
}

/// Builds the name of the archive for a directory.
pub fn archive_name(directory: &str) -> (name: String)
    ensures
        name@ == archive_name_of(directory@),
{
    join(directory, archive_extension())
}

/// The name of the directory an archive expands into, or nothing for a name
/// that does not denote an archive.
pub fn expanded_name(name: &str) -> (directory: Option<String>)
    ensures
        directory is Some <==> is_archive_name(name@),
        directory matches Some(d) ==> d@ == expanded_name_of(name@),
{
    let suffix = archive_extension();
    if !ends_with(name, suffix) {
        return None;
    }
    let n: usize = name.unicode_len();
    let m: usize = suffix.unicode_len();
    if n <= m {
        return None;
    }
    if name.get_char(n - m - 1) == '/' {
        return None;
    }
    Some(take_chars(name, n - m))
}

} // verus!
