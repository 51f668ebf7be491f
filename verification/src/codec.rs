//! The archive codec.
//!
//! The `zip` crate reads and writes the container format. This module is the
//! only place that calls it. Archives live in memory: a reader is opened over
//! the bytes of an archive, and a writer hands its bytes back when it is
//! finished.
//!
//! Verus does not look inside the codec. What the rest of the library knows
//! of it is stated here, in the contracts of the functions below, and was
//! read off the codec's source; none of it is proved.

use vstd::prelude::*;
use vstd::string::StringSliceAdditionalSpecFns;
use crate::paths::portable;
use std::io::Cursor;
use std::io::Read;
use std::io::Write;
use zip::result::ZipError;
use zip::write::SimpleFileOptions;
use zip::ZipArchive;
use zip::ZipWriter;

verus! {

/// `std::io::Cursor`, which lets the codec read and write a buffer in memory.
#[verifier::external_type_specification]
#[verifier::external_body]
#[verifier::reject_recursive_types(T)]
pub struct ExCursor<T>(Cursor<T>);

/// `zip::ZipArchive`, the codec's reader.
#[verifier::external_type_specification]
#[verifier::external_body]
#[verifier::reject_recursive_types(R)]
pub struct ExZipArchive<R>(ZipArchive<R>);

/// `zip::result::ZipError`, the codec's error.
#[verifier::external_type_specification]
#[verifier::external_body]
pub struct ExZipError(ZipError);

/// `std::io::Error`.
#[verifier::external_type_specification]
#[verifier::external_body]
pub struct ExIoError(std::io::Error);

/// A `zip::ZipWriter` over a buffer in memory.
///
/// The codec bounds the writer's type parameter by `std::io` traits, which
/// Verus cannot name, so the writer is held here out of Verus's sight.
#[verifier::external_body]
pub struct ArchiveWriter {
    inner: ZipWriter<Cursor<Vec<u8>>>,
}

/// The codec's per-entry write options, `zip::write::SimpleFileOptions`.
///
/// Held out of Verus's sight for the same reason as [`ArchiveWriter`].
#[verifier::external_body]
pub struct EntryOptions {
    inner: SimpleFileOptions,
}

/// The compression methods of the codec that this library selects among.
#[derive(Debug, Clone, Copy, PartialEq, Eq, Structural)]
pub enum ZipMethod {
    Stored,
    Deflated,
    Bzip2,
    Zstd,
}

/// What an archive holds under one name.
pub struct StoredEntry {
    /// The name the entry is stored under.
    pub name: Seq<char>,
    /// Whether the codec can open the entry for reading.
    pub opens: bool,
    /// The Unix mode the entry carries, if any.
    pub unix_mode: Option<u32>,
    /// The entry's bytes after decompression, where the codec can open the
    /// entry and read it to its end.
    pub data: Option<Seq<u8>>,
    /// The length in bytes of the entry's comment as text, where the codec
    /// can find the entry's stored bytes.
    pub comment_len: Option<nat>,
}

/// One entry that was added through a writer: the name it is stored under,
/// the bytes written into it, and the options it was started with.
pub struct Addition {
    pub name: Seq<char>,
    pub is_dir: bool,
    pub data: Seq<u8>,
    pub level: Option<i64>,
    pub method: ZipMethod,
    pub permissions: Option<u32>,
}

/// What metadata the codec reports of one entry.
pub struct EntryInfo {
    /// The name the entry is stored under.
    pub name: String,
    /// The name again, where the codec finds it safe to use as a relative
    /// path on this platform.
    pub enclosed_name: Option<String>,
    /// Whether the entry stands for a directory.
    pub is_dir: bool,
    /// The Unix mode the entry carries, if any.
    pub unix_mode: Option<u32>,
}

/// The entries that the codec finds in `bytes`, in the order of the
/// archive's index; `None` where it does not accept `bytes` as an archive.
pub uninterp spec fn stored_entries(bytes: Seq<u8>) -> Option<Seq<StoredEntry>>;

/// The entries of an open archive, in index order.
pub uninterp spec fn archive_entries(archive: ZipArchive<Cursor<Vec<u8>>>) -> Seq<StoredEntry>;

/// The bytes of the archive that a writer appends to; `None` for a writer
/// that began empty.
pub uninterp spec fn writer_base(writer: ArchiveWriter) -> Option<Seq<u8>>;

/// The entries that were added through a writer, in order.
pub uninterp spec fn writer_added(writer: ArchiveWriter) -> Seq<Addition>;

/// Whether the codec starts the file entry `entry` on a writer that began
/// with `base` and to which `added` was added.
pub uninterp spec fn starts_file(
    base: Option<Seq<u8>>,
    added: Seq<Addition>,
    entry: Addition,
) -> bool;

/// Whether the codec adds the directory entry `entry` on a writer that
/// began with `base` and to which `added` was added.
pub uninterp spec fn adds_directory(
    base: Option<Seq<u8>>,
    added: Seq<Addition>,
    entry: Addition,
) -> bool;

/// Whether the codec takes `data` into the last entry of `added`, on a
/// writer that began with `base`.
pub uninterp spec fn takes_data(
    base: Option<Seq<u8>>,
    added: Seq<Addition>,
    data: Seq<u8>,
) -> bool;

/// The bytes of the archive that the codec makes of a writer that began
/// with `base` and to which `added` was added; `None` where finishing
/// fails.
pub uninterp spec fn finished(base: Option<Seq<u8>>, added: Seq<Addition>) -> Option<Seq<u8>>;

/// The compression level that `options` carry.
pub uninterp spec fn options_level(options: EntryOptions) -> Option<i64>;

/// The compression method that `options` carry.
pub uninterp spec fn options_method(options: EntryOptions) -> ZipMethod;

/// The permission bits that `options` carry.
pub uninterp spec fn options_permissions(options: EntryOptions) -> Option<u32>;

/// Whether the codec takes an entry of this name for a directory: the name
/// ends in a slash or a backslash.
pub open spec fn is_dir_name(name: Seq<char>) -> bool {
    name.len() > 0 && (name.last() == '/' || name.last() == '\\')
}

/// The name under which the codec stores a directory added as `name`: one
/// that ends in a separator.
pub open spec fn directory_name(name: Seq<char>) -> Seq<char> {
    if is_dir_name(name) {
        name
    } else {
        name.push('/')
    }
}

/// The names of `entries`, in order.
pub open spec fn entry_names(entries: Seq<StoredEntry>) -> Seq<Seq<char>> {
    entries.map_values(|e: StoredEntry| e.name)
}

/// The names that a writer holds when it begins with `base`.
pub open spec fn base_names(base: Option<Seq<u8>>) -> Seq<Seq<char>> {
    match base {
        Some(bytes) => match stored_entries(bytes) {
            Some(entries) => entry_names(entries),
            None => Seq::empty(),
        },
        None => Seq::empty(),
    }
}

/// The names that a writer holds, in the order of the archive's index:
/// those it began with, then those that were added.
pub open spec fn held_names(base: Option<Seq<u8>>, added: Seq<Addition>) -> Seq<Seq<char>> {
    base_names(base) + added.map_values(|a: Addition| a.name)
}

/// The longest name and the longest comment, in bytes, that the archive's
/// index has room for.
pub const FIELD_MAX: usize = 0xFFFF;

/// Whether the index has room for the comment of each of `entries`.
pub open spec fn comments_fit(entries: Seq<StoredEntry>) -> bool {
    forall|i: int|
        0 <= i < entries.len() ==> (#[trigger] entries[i]).comment_len is Some
            && entries[i].comment_len->0 <= FIELD_MAX
}

/// Whether a writer that began with `base` can be finished: the index has
/// room for the comments of the entries it began with.
pub open spec fn finishable(base: Option<Seq<u8>>) -> bool {
    match base {
        Some(bytes) => match stored_entries(bytes) {
            Some(entries) => comments_fit(entries),
            None => true,
        },
        None => true,
    }
}

/// The entry that `start_file` starts under `name` with `options`.
pub open spec fn file_start(name: Seq<char>, options: EntryOptions) -> Addition {
    Addition {
        name,
        is_dir: false,
        data: Seq::empty(),
        level: options_level(options),
        method: options_method(options),
        permissions: options_permissions(options),
    }
}

/// The entry that `add_directory` adds under `name` with `options`.
pub open spec fn directory_start(name: Seq<char>, options: EntryOptions) -> Addition {
    Addition { name: directory_name(name), is_dir: true, ..file_start(name, options) }
}

/// `added` with `data` written after the bytes of its last entry.
pub open spec fn with_data(added: Seq<Addition>, data: Seq<u8>) -> Seq<Addition> {
    added.update(added.len() - 1, Addition { data: added.last().data + data, ..added.last() })
}

/// Calls `zip::ZipArchive::new` on a cursor over a copy of `bytes`.
///
/// Claims that whether the codec accepts the bytes, and which entries it
/// then finds, depends on the bytes alone.
#[verifier::external_body]
pub(crate) fn open_archive(bytes: &Vec<u8>) -> (r: Result<ZipArchive<Cursor<Vec<u8>>>, ZipError>)
    ensures
        r is Ok == stored_entries(bytes@) is Some,
        r matches Ok(archive) ==> archive_entries(archive) == stored_entries(bytes@)->0,
{
    ZipArchive::new(Cursor::new(bytes.clone()))
}

/// Calls `zip::ZipArchive::len`: the number of entries.
#[verifier::external_body]
pub(crate) fn archive_len(archive: &ZipArchive<Cursor<Vec<u8>>>) -> (n: usize)
    ensures
        n == archive_entries(*archive).len(),
{
    archive.len()
}

/// Calls `zip::ZipArchive::index_for_name`.
///
/// Claims that the result is the index of the entry stored under `name`, and
/// `None` where there is no such entry. The codec keeps its entries in a map
/// keyed by name, so no later entry has the same name.
#[verifier::external_body]
pub(crate) fn index_of_name(archive: &ZipArchive<Cursor<Vec<u8>>>, name: &str) -> (r: Option<usize>)
    ensures
        r matches Some(i) ==> i < archive_entries(*archive).len() && archive_entries(
            *archive,
        )[i as int].name == name@,
        r matches Some(i) ==> forall|j: int|
            0 <= j < i ==> (#[trigger] archive_entries(*archive)[j]).name != name@,
        r is None ==> forall|j: int|
            0 <= j < archive_entries(*archive).len() ==> (#[trigger] archive_entries(
                *archive,
            )[j]).name != name@,
{
    archive.index_for_name(name)
}

/// Calls `zip::ZipArchive::by_index` and copies the metadata of the entry
/// it returns: `name`, `enclosed_name`, `is_dir` and `unix_mode`.
///
/// Claims that the call leaves the archive's entries as they were; that it
/// fails past the last index; that `is_dir` goes by the last character of the
/// name; and that `enclosed_name`, where it is not `None`, is the name
/// itself, which is text, so that writing the path out as text loses
/// nothing. The codec decides with the platform's path rules when
/// `enclosed_name` is `None`; claimed is only that it is not `None` for a
/// portable name: the codec refuses a name that holds a NUL, is absolute or
/// climbs above its start, and a portable name does none of these on any
/// platform.
#[verifier::external_body]
pub(crate) fn entry_info(archive: &mut ZipArchive<Cursor<Vec<u8>>>, index: usize) -> (r: Result<
    EntryInfo,
    ZipError,
>)
    ensures
        archive_entries(*final(archive)) == archive_entries(*old(archive)),
        index >= archive_entries(*old(archive)).len() ==> r is Err,
        index < archive_entries(*old(archive)).len() ==> (r is Ok) == archive_entries(
            *old(archive),
        )[index as int].opens,
        r matches Ok(info) ==> {
            let entry = archive_entries(*old(archive))[index as int];
            &&& info.name@ == entry.name
            &&& info.unix_mode == entry.unix_mode
            &&& info.is_dir == is_dir_name(entry.name)
            &&& info.enclosed_name matches Some(path) ==> path@ == entry.name
            &&& portable(entry.name) ==> info.enclosed_name is Some
        },
{
    let file = archive.by_index(index)?;
    Ok(
        EntryInfo {
            name: file.name().to_string(),
            enclosed_name: match file.enclosed_name() {
                Some(path) => Some(path.to_string_lossy().into_owned()),
                None => None,
            },
            is_dir: file.is_dir(),
            unix_mode: file.unix_mode(),
        },
    )
}

/// Calls `zip::ZipArchive::by_index` and reads the entry it returns to its
/// end. The outer error is the codec's, from opening the entry; the inner one
/// comes from reading it.
///
/// Claims that the call leaves the archive's entries as they were, and that
/// whether both steps succeed, and with which bytes, depends on the entry
/// alone.
#[verifier::external_body]
pub(crate) fn entry_bytes(archive: &mut ZipArchive<Cursor<Vec<u8>>>, index: usize) -> (r: Result<
    Result<Vec<u8>, std::io::Error>,
    ZipError,
>)
    ensures
        archive_entries(*final(archive)) == archive_entries(*old(archive)),
        index >= archive_entries(*old(archive)).len() ==> r is Err,
        index < archive_entries(*old(archive)).len() ==> (r is Ok) == archive_entries(
            *old(archive),
        )[index as int].opens,
        index < archive_entries(*old(archive)).len() ==> (r matches Ok(Ok(_))) == archive_entries(
            *old(archive),
        )[index as int].data is Some,
        r matches Ok(Ok(data)) ==> archive_entries(*old(archive))[index as int].data == Some(
            data@,
        ),
{
    let mut file = archive.by_index(index)?;
    let mut data = Vec::new();
    match file.read_to_end(&mut data) {
        Ok(_) => Ok(Ok(data)),
        Err(e) => Ok(Err(e)),
    }
}

/// Calls `zip::ZipArchive::by_index_raw` and takes the length of the
/// comment of the entry it returns.
///
/// Claims that the call leaves the archive's entries as they were, and that
/// whether it succeeds, and with which length, depends on the entry alone.
#[verifier::external_body]
pub(crate) fn entry_comment_len(archive: &mut ZipArchive<Cursor<Vec<u8>>>, index: usize) -> (r:
    Result<usize, ZipError>)
    ensures
        archive_entries(*final(archive)) == archive_entries(*old(archive)),
        index >= archive_entries(*old(archive)).len() ==> r is Err,
        index < archive_entries(*old(archive)).len() ==> match r {
            Ok(n) => archive_entries(*old(archive))[index as int].comment_len == Some(n as nat),
            Err(_) => archive_entries(*old(archive))[index as int].comment_len is None,
        },
{
    Ok(archive.by_index_raw(index)?.comment().len())
}

/// Calls `zip::ZipWriter::new` on an empty buffer: a writer that begins
/// empty.
#[verifier::external_body]
pub(crate) fn new_writer() -> (writer: ArchiveWriter)
    ensures
        writer_base(writer) is None,
        writer_added(writer) == Seq::<Addition>::empty(),
{
    ArchiveWriter { inner: ZipWriter::new(Cursor::new(Vec::new())) }
}

/// Calls `zip::ZipWriter::new_append` on a cursor over a copy of `bytes`.
///
/// Claims that the call succeeds on the bytes on which a reader opens: both
/// read the archive's index in the same way.
#[verifier::external_body]
pub(crate) fn append_writer(bytes: &Vec<u8>) -> (r: Result<ArchiveWriter, ZipError>)
    ensures
        r is Ok == stored_entries(bytes@) is Some,
        r matches Ok(writer) ==> writer_base(writer) == Some(bytes@) && writer_added(writer)
            == Seq::<Addition>::empty(),
{
    Ok(ArchiveWriter { inner: ZipWriter::new_append(Cursor::new(bytes.clone()))? })
}

/// Calls `zip::ZipWriter::add_directory`.
///
/// The codec stores the directory under `name`, with a slash added unless
/// the name ends in a separator. It panics on a stored name of more than
/// `FIELD_MAX` bytes, which `requires` leaves out.
///
/// Claims that whether the call succeeds depends on what the writer holds,
/// the name and the options; that on success the writer holds one more
/// entry, at the end; and that the call fails where the writer holds the
/// stored name already.
#[verifier::external_body]
pub(crate) fn add_directory(writer: &mut ArchiveWriter, name: &str, options: &EntryOptions) -> (r:
    Result<(), ZipError>)
    requires
        name.spec_bytes().len() + (if is_dir_name(name@) {
            0nat
        } else {
            1nat
        }) <= FIELD_MAX,
    ensures
        writer_base(*final(writer)) == writer_base(*old(writer)),
        r is Ok == adds_directory(
            writer_base(*old(writer)),
            writer_added(*old(writer)),
            directory_start(name@, *options),
        ),
        r is Ok ==> writer_added(*final(writer)) == writer_added(*old(writer)).push(
            directory_start(name@, *options),
        ),
        held_names(writer_base(*old(writer)), writer_added(*old(writer))).contains(
            directory_name(name@),
        ) ==> r is Err,
{
    writer.inner.add_directory(name, options.inner)
}

/// Calls `zip::ZipWriter::start_file`.
///
/// The codec panics on a name of more than `FIELD_MAX` bytes, which
/// `requires` leaves out.
///
/// Claims that whether the call succeeds depends on what the writer holds,
/// the name and the options; that on success the writer holds one more
/// entry, at the end; and that the call fails where the writer holds the
/// name already.
#[verifier::external_body]
pub(crate) fn start_file(writer: &mut ArchiveWriter, name: &str, options: &EntryOptions) -> (r:
    Result<(), ZipError>)
    requires
        name.spec_bytes().len() <= FIELD_MAX,
    ensures
        writer_base(*final(writer)) == writer_base(*old(writer)),
        r is Ok == starts_file(
            writer_base(*old(writer)),
            writer_added(*old(writer)),
            file_start(name@, *options),
        ),
        r is Ok ==> writer_added(*final(writer)) == writer_added(*old(writer)).push(
            file_start(name@, *options),
        ),
        held_names(writer_base(*old(writer)), writer_added(*old(writer))).contains(name@) ==> r
            is Err,
{
    writer.inner.start_file(name, options.inner)
}

/// Calls `write_all` of `std::io::Write` on the writer: bytes for the entry
/// that was started last.
///
/// Claims that whether the call succeeds depends on what the writer holds
/// and the bytes; and that on success the bytes stand after those of the
/// last entry.
#[verifier::external_body]
pub(crate) fn write_data(writer: &mut ArchiveWriter, data: &[u8]) -> (r: Result<
    (),
    std::io::Error,
>)
    ensures
        writer_base(*final(writer)) == writer_base(*old(writer)),
        r is Ok == takes_data(writer_base(*old(writer)), writer_added(*old(writer)), data@),
        r is Ok && writer_added(*old(writer)).len() > 0 ==> writer_added(*final(writer))
            == with_data(writer_added(*old(writer)), data@),
{
    writer.inner.write_all(data)
}

/// Calls `zip::ZipWriter::finish` and takes the buffer out of the cursor it
/// returns: the bytes of the archive.
///
/// The codec panics where an entry that the writer began with has a comment
/// of more than `FIELD_MAX` bytes, which `requires` leaves out.
///
/// Claims that the outcome depends on what the writer began with and what
/// was added to it. Nothing is claimed of what the bytes hold.
#[verifier::external_body]
pub(crate) fn finish_writer(writer: ArchiveWriter) -> (r: Result<Vec<u8>, ZipError>)
    requires
        finishable(writer_base(writer)),
    ensures
        match r {
            Ok(bytes) => finished(writer_base(writer), writer_added(writer)) == Some(bytes@),
            Err(_) => finished(writer_base(writer), writer_added(writer)) is None,
        },
{
    match writer.inner.finish() {
        Ok(cursor) => Ok(cursor.into_inner()),
        Err(e) => Err(e),
    }
}

/// Calls `default` of `zip::write::SimpleFileOptions`.
///
/// Claims that the options carry no level and no permission bits, and the
/// method `Deflated`, which is the codec's default where it is built with
/// deflate support.
#[verifier::external_body]
pub(crate) fn default_options() -> (options: EntryOptions)
    ensures
        options_level(options) is None,
        options_method(options) == ZipMethod::Deflated,
        options_permissions(options) is None,
{
    EntryOptions { inner: SimpleFileOptions::default() }
}

/// Calls `compression_level` of `zip::write::FileOptions`: sets the level
/// and nothing else.
#[verifier::external_body]
pub(crate) fn with_level(options: EntryOptions, level: Option<i64>) -> (r: EntryOptions)
    ensures
        options_level(r) == level,
        options_method(r) == options_method(options),
        options_permissions(r) == options_permissions(options),
{
    EntryOptions { inner: options.inner.compression_level(level) }
}

/// Calls `compression_method` of `zip::write::FileOptions`: sets the method
/// and nothing else.
#[verifier::external_body]
pub(crate) fn with_method(options: EntryOptions, method: ZipMethod) -> (r: EntryOptions)
    ensures
        options_level(r) == options_level(options),
        options_method(r) == method,
        options_permissions(r) == options_permissions(options),
{
    EntryOptions {
        inner: options.inner.compression_method(
            match method {
                ZipMethod::Stored => zip::CompressionMethod::Stored,
                ZipMethod::Deflated => zip::CompressionMethod::Deflated,
                ZipMethod::Bzip2 => zip::CompressionMethod::Bzip2,
                ZipMethod::Zstd => zip::CompressionMethod::Zstd,
            },
        ),
    }
}

/// Calls `unix_permissions` of `zip::write::FileOptions`: sets the
/// permission bits to the low nine bits of `mode`, and nothing else.
#[verifier::external_body]
pub(crate) fn with_permissions(options: EntryOptions, mode: u32) -> (r: EntryOptions)
    ensures
        options_level(r) == options_level(options),
        options_method(r) == options_method(options),
        options_permissions(r) == Some(mode & 0o777),
{
    EntryOptions { inner: options.inner.unix_permissions(mode) }
}

} // verus!
