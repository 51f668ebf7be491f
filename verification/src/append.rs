//! Writing entries into an archive.
//!
//! What the codec does with an entry is its own affair; this module fixes
//! what is handed to it. Each entry is started under the name and with the
//! options that its descriptor and the settings give, and a file's bytes are
//! written into it whole. Whether the codec takes a step is named, not
//! promised: a contract here says that writing succeeds exactly where the
//! codec takes every step, and which archive then comes out.

use vstd::prelude::*;
use vstd::string::StringExecFns;
use vstd::utf8::encode_utf8;
use std::io::Cursor;
use zip::ZipArchive;
use crate::codec::{
    add_directory, adds_directory, append_writer, archive_entries, archive_len, comments_fit,
    directory_name, entry_comment_len, finish_writer, finishable, finished, held_names,
    is_dir_name, open_archive, options_level, options_method, options_permissions, start_file,
    starts_file, stored_entries, takes_data, write_data, writer_added, writer_base, Addition,
    ArchiveWriter, EntryOptions, ZipMethod, FIELD_MAX,
};
use crate::error::{Failure, RzError};
use crate::gather::{OsFileEntry, OsFileEntryView};
use crate::settings::{chosen_method, chosen_permissions, settings_to_file_options, RzSettings};
use crate::text::chars_of;

verus! {

/// An entry to write, with the bytes of its file. For a directory the bytes
/// are not looked at.
#[derive(Clone, Debug)]
pub struct LoadedEntry {
    pub entry: OsFileEntry,
    pub data: Vec<u8>,
}

/// The name under which the codec stores `entry`.
pub open spec fn stored_name(entry: OsFileEntryView) -> Seq<char> {
    if entry.is_dir {
        directory_name(entry.zip_path)
    } else {
        entry.zip_path
    }
}

/// The names under which the codec stores `files`, in order.
pub open spec fn stored_names(files: Seq<LoadedEntry>) -> Seq<Seq<char>> {
    files.map_values(|f: LoadedEntry| stored_name(f.entry@))
}

/// Whether no name of `names` is in `held`, and none occurs twice.
pub open spec fn all_new(held: Seq<Seq<char>>, names: Seq<Seq<char>>) -> bool {
    forall|j: int|
        0 <= j < names.len() ==> !(held + names.take(j)).contains(#[trigger] names[j])
}

/// Whether the archive's index has room for the name that `entry` is stored
/// under.
pub open spec fn name_fits(entry: OsFileEntryView) -> bool {
    encode_utf8(entry.zip_path).len() + (if entry.is_dir && !is_dir_name(entry.zip_path) {
        1nat
    } else {
        0nat
    }) <= FIELD_MAX
}

/// The options that entries are written with.
pub struct Written {
    pub level: Option<i64>,
    pub method: ZipMethod,
    pub permissions: Option<u32>,
}

/// The options that entries are written with under `settings`: the level as
/// it is, the method and the permission bits as the settings choose them.
pub open spec fn written_with(settings: RzSettings) -> Written {
    Written {
        level: settings.compression_level,
        method: chosen_method(settings),
        permissions: chosen_permissions(settings),
    }
}

/// The entry that is started for `file`: under its stored name, with no
/// bytes yet, with the options `with`.
pub open spec fn started(file: LoadedEntry, with: Written) -> Addition {
    Addition {
        name: stored_name(file.entry@),
        is_dir: file.entry.is_dir,
        data: Seq::empty(),
        level: with.level,
        method: with.method,
        permissions: with.permissions,
    }
}

/// What a writer that began with `base` holds after `file` is written to
/// it, when `added` was added before. A directory is added as a directory
/// entry; a file is started and its bytes are written into it. `None` where
/// the index has no room for the name or the codec does not take a step.
pub open spec fn write_step(
    base: Option<Seq<u8>>,
    added: Seq<Addition>,
    file: LoadedEntry,
    with: Written,
) -> Option<Seq<Addition>> {
    let start = started(file, with);
    if !name_fits(file.entry@) {
        None
    } else if file.entry.is_dir {
        if adds_directory(base, added, start) {
            Some(added.push(start))
        } else {
            None
        }
    } else if starts_file(base, added, start) && takes_data(base, added.push(start), file.data@) {
        Some(added.push(Addition { data: file.data@, ..start }))
    } else {
        None
    }
}

/// What a writer that began with `base` holds after `files` are written to
/// it in order, when `added` was added before; `None` where a step fails.
pub open spec fn written(
    base: Option<Seq<u8>>,
    added: Seq<Addition>,
    files: Seq<LoadedEntry>,
    with: Written,
) -> Option<Seq<Addition>>
    decreases files.len(),
{
    if files.len() == 0 {
        Some(added)
    } else {
        match written(base, added, files.drop_last(), with) {
            None => None,
            Some(before) => write_step(base, before, files.last(), with),
        }
    }
}

/// Writing fails where one step fails and all before it succeed.
proof fn lemma_write_fails_on(
    base: Option<Seq<u8>>,
    added: Seq<Addition>,
    files: Seq<LoadedEntry>,
    with: Written,
    i: int,
)
    requires
        0 <= i < files.len(),
        written(base, added, files.take(i), with) is Some,
        write_step(base, written(base, added, files.take(i), with)->0, files[i], with) is None,
    ensures
        written(base, added, files, with) is None,
    decreases files.len(),
{
    if i == files.len() - 1 {
        assert(files.drop_last() == files.take(i));
    } else {
        assert(files.drop_last().take(i) == files.take(i));
        lemma_write_fails_on(base, added, files.drop_last(), with, i);
    }
}

/// What was written holds what was added before, and after it one entry for
/// each file, in order: under the file's stored name, with the file's bytes
/// unless it is a directory, and with the options given.
pub proof fn lemma_written_entries(
    base: Option<Seq<u8>>,
    added: Seq<Addition>,
    files: Seq<LoadedEntry>,
    with: Written,
)
    requires
        written(base, added, files, with) is Some,
    ensures
        ({
            let after = written(base, added, files, with)->0;
            &&& after.len() == added.len() + files.len()
            &&& after.take(added.len() as int) == added
            &&& forall|i: int|
                0 <= i < files.len() ==> (#[trigger] after[added.len() + i]) == (Addition {
                    data: if files[i].entry.is_dir {
                        Seq::empty()
                    } else {
                        files[i].data@
                    },
                    ..started(files[i], with)
                })
        }),
    decreases files.len(),
{
    let after = written(base, added, files, with)->0;
    if files.len() == 0 {
        assert(after.take(added.len() as int) == added);
    } else {
        let front = files.drop_last();
        lemma_written_entries(base, added, front, with);
        let before = written(base, added, front, with)->0;
        assert(after.drop_last() == before);
        assert(after.take(added.len() as int) == before.take(added.len() as int));
        assert forall|i: int| 0 <= i < files.len() implies (#[trigger] after[added.len() + i])
            == (Addition {
            data: if files[i].entry.is_dir {
                Seq::empty()
            } else {
                files[i].data@
            },
            ..started(files[i], with)
        }) by {
            if i < front.len() {
                assert(after[added.len() + i] == before[added.len() + i]);
                assert(front[i] == files[i]);
            }
        }
    }
}

/// Tests whether the index has room for the name of `entry`.
fn fits(entry: &OsFileEntry) -> (b: bool)
    ensures
        b == name_fits(entry@),
{
    let len = entry.zip_path.as_str().as_bytes().len();
    if !entry.is_dir {
        return len <= FIELD_MAX;
    }
    let chars = chars_of(entry.zip_path.as_str());
    let n = chars.len();
    if n > 0 && (chars[n - 1] == '/' || chars[n - 1] == '\\') {
        len <= FIELD_MAX
    } else {
        len < FIELD_MAX
    }
}

/// Writes `files` into `writer`, in order: a directory as a directory
/// entry, a file as an entry that holds the file's bytes.
///
/// Succeeds exactly where the index has room for every name and the codec
/// takes every step. A name for which there is no room gives `BadName`.
/// The codec takes no name twice: success means that every name was new.
pub(crate) fn write_entries(
    writer: &mut ArchiveWriter,
    files: &Vec<LoadedEntry>,
    options: &EntryOptions,
) -> (r: Result<(), RzError>)
    ensures
        writer_base(*final(writer)) == writer_base(*old(writer)),
        ({
            let with = Written {
                level: options_level(*options),
                method: options_method(*options),
                permissions: options_permissions(*options),
            };
            let after = written(
                writer_base(*old(writer)),
                writer_added(*old(writer)),
                files@,
                with,
            );
            &&& r is Ok == after is Some
            &&& r is Ok ==> writer_added(*final(writer)) == after->0
        }),
        r is Ok ==> all_new(
            held_names(writer_base(*old(writer)), writer_added(*old(writer))),
            stored_names(files@),
        ),
        r matches Err(e) ==> e is BadName || e is ZipError || e is IoError,
{
    let ghost base = writer_base(*writer);
    let ghost added = writer_added(*writer);
    let ghost held = held_names(base, added);
    let ghost names = stored_names(files@);
    let ghost with = Written {
        level: options_level(*options),
        method: options_method(*options),
        permissions: options_permissions(*options),
    };
    let mut i: usize = 0;
    assert(files@.take(0) == Seq::<LoadedEntry>::empty());
    assert(held + names.take(0) == held);
    while i < files.len()
        invariant
            i <= files.len(),
            base == writer_base(*old(writer)),
            added == writer_added(*old(writer)),
            writer_base(*writer) == base,
            held == held_names(base, added),
            names == stored_names(files@),
            with == (Written {
                level: options_level(*options),
                method: options_method(*options),
                permissions: options_permissions(*options),
            }),
            written(base, added, files@.take(i as int), with) == Some(writer_added(*writer)),
            held_names(base, writer_added(*writer)) == held + names.take(i as int),
            forall|j: int| 0 <= j < i ==> !(held + names.take(j)).contains(#[trigger] names[j]),
        decreases files.len() - i,
    {
        let file = &files[i];
        let ghost before = writer_added(*writer);
        let ghost upto = files@.take(i + 1);
        let ghost start = started(*file, with);
        assert(upto.drop_last() == files@.take(i as int));
        assert(upto.last() == *file);
        assert(names[i as int] == start.name);
        if !fits(&file.entry) {
            proof {
                lemma_write_fails_on(base, added, files@, with, i as int);
            }
            return Err(RzError::BadName(file.entry.zip_path.clone()));
        }
        let started = if file.entry.is_dir {
            add_directory(writer, file.entry.zip_path.as_str(), options)
        } else {
            start_file(writer, file.entry.zip_path.as_str(), options)
        };
        match started {
            Ok(()) => {},
            Err(e) => {
                proof {
                    lemma_write_fails_on(base, added, files@, with, i as int);
                }
                return Err(RzError::ZipError(e));
            },
        }
        if !file.entry.is_dir {
            match write_data(writer, file.data.as_slice()) {
                Ok(()) => {
                    assert(writer_added(*writer) == before.push(
                        Addition { data: file.data@, ..start },
                    )) by {
                        assert(Seq::<u8>::empty() + file.data@ == file.data@);
                    }
                },
                Err(e) => {
                    proof {
                        lemma_write_fails_on(base, added, files@, with, i as int);
                    }
                    return Err(RzError::IoError(e));
                },
            }
        }
        proof {
            let after = writer_added(*writer);
            assert(after.map_values(|a: Addition| a.name) == before.map_values(
                |a: Addition| a.name,
            ).push(start.name));
            assert(names.take(i + 1) == names.take(i as int).push(names[i as int]));
            assert(held + names.take(i + 1) == (held + names.take(i as int)).push(
                names[i as int],
            ));
            assert(held_names(base, after) == held_names(base, before).push(start.name));
        }
        i += 1;
    }
    assert(files@.take(files.len() as int) == files@);
    assert(names.take(files.len() as int) == names);
    Ok(())
}

/// The bytes of the archive that the codec makes when `files` are written
/// to a writer that begins with `base`, and the writer is finished; `None`
/// where a step of the writing fails or the codec does not finish.
pub open spec fn made(base: Option<Seq<u8>>, files: Seq<LoadedEntry>, settings: RzSettings) -> Option<
    Seq<u8>,
> {
    match written(base, Seq::empty(), files, written_with(settings)) {
        None => None,
        Some(after) => finished(base, after),
    }
}

/// The bytes of the archive that results when `files` are appended to the
/// archive `bytes`; `None` where the codec does not accept the bytes, where
/// the index of the result would have no room for an entry's comment, or
/// where the writing fails.
pub open spec fn appended(bytes: Seq<u8>, files: Seq<LoadedEntry>, settings: RzSettings) -> Option<
    Seq<u8>,
> {
    match stored_entries(bytes) {
        Some(entries) => if comments_fit(entries) {
            made(Some(bytes), files, settings)
        } else {
            None
        },
        None => None,
    }
}

/// Whether `r` is the outcome of writing `files` to a writer that began
/// with `base`, and finishing it.
///
/// The call succeeds exactly where every step of the writing does and the
/// codec finishes the writer; the bytes are then those that the codec makes
/// of what was written.
pub open spec fn writes(
    r: Result<Vec<u8>, RzError>,
    base: Option<Seq<u8>>,
    files: Seq<LoadedEntry>,
    settings: RzSettings,
) -> bool {
    &&& match made(base, files, settings) {
        None => r is Err,
        Some(bytes) => r matches Ok(out) && out@ == bytes,
    }
    &&& r is Ok ==> all_new(held_names(base, Seq::empty()), stored_names(files))
    &&& r matches Err(e) ==> e is BadName || e is ZipError || e is IoError
}

/// Whether `writer` holds nothing yet and can be finished.
pub open spec fn finishable_writer(writer: ArchiveWriter) -> bool {
    finishable(writer_base(writer)) && writer_added(writer) == Seq::<Addition>::empty()
}

/// Writes `files` into `writer` and finishes it.
pub(crate) fn write_and_finish(
    writer: ArchiveWriter,
    files: &Vec<LoadedEntry>,
    settings: &RzSettings,
) -> (r: Result<Vec<u8>, RzError>)
    requires
        finishable_writer(writer),
    ensures
        writes(r, writer_base(writer), files@, *settings),
{
    let mut writer = writer;
    let options = settings_to_file_options(settings);
    match write_entries(&mut writer, files, &options) {
        Ok(()) => {},
        Err(e) => {
            return Err(e);
        },
    }
    match finish_writer(writer) {
        Ok(bytes) => Ok(bytes),
        Err(e) => Err(RzError::ZipError(e)),
    }
}

/// Tests whether the index has room for the comment of every entry of the
/// archive.
fn comments_have_room(zip: &mut ZipArchive<Cursor<Vec<u8>>>) -> (b: bool)
    ensures
        archive_entries(*final(zip)) == archive_entries(*old(zip)),
        b == comments_fit(archive_entries(*old(zip))),
{
    let ghost entries = archive_entries(*zip);
    let n = archive_len(zip);
    let mut i: usize = 0;
    while i < n
        invariant
            i <= n == entries.len(),
            entries == archive_entries(*old(zip)),
            archive_entries(*zip) == entries,
            forall|k: int|
                0 <= k < i ==> (#[trigger] entries[k]).comment_len is Some
                    && entries[k].comment_len->0 <= FIELD_MAX,
        decreases n - i,
    {
        match entry_comment_len(zip, i) {
            Ok(len) => {
                if len > FIELD_MAX {
                    assert(!(entries[i as int].comment_len->0 <= FIELD_MAX));
                    return false;
                }
            },
            Err(_) => {
                assert(entries[i as int].comment_len is None);
                return false;
            },
        }
        i += 1;
    }
    true
}

/// Whether `r` is the outcome of appending `files` to the archive `bytes`.
///
/// Where the codec does not accept the bytes, `r` is its error. Where the
/// index of the archive that results would have no room for the comment of
/// an entry, or the codec cannot find an entry's stored bytes, `r` is a
/// `GeneralError`. Else `r` is the outcome of writing the files to a writer
/// that begins with the bytes.
pub open spec fn appends(
    r: Result<Vec<u8>, RzError>,
    bytes: Seq<u8>,
    files: Seq<LoadedEntry>,
    settings: RzSettings,
) -> bool {
    match stored_entries(bytes) {
        None => r matches Err(e) && e is ZipError,
        Some(entries) => if comments_fit(entries) {
            writes(r, Some(bytes), files, settings)
        } else {
            r matches Err(e) && e is GeneralError
        },
    }
}

/// Appends `files` to the archive `bytes` and returns the bytes of the
/// archive that results.
pub fn append_to(bytes: &Vec<u8>, files: &Vec<LoadedEntry>, settings: &RzSettings) -> (r: Result<
    Vec<u8>,
    RzError,
>)
    ensures
        appends(r, bytes@, files@, *settings),
{
    let mut zip = match open_archive(bytes) {
        Ok(zip) => zip,
        Err(e) => {
            return Err(RzError::ZipError(e));
        },
    };
    if !comments_have_room(&mut zip) {
        return Err(RzError::GeneralError(String::from_str("an entry's comment is too long")));
    }
    let writer = match append_writer(bytes) {
        Ok(writer) => writer,
        Err(e) => {
            return Err(RzError::ZipError(e));
        },
    };
    write_and_finish(writer, files, settings)
}

/// Appends `files` to an archive and returns the bytes of the archive that
/// results. `contents` is what the file at `dest` holds, or `None` where
/// there is no such file.
///
/// Fails with `FileNotFound` without a file. Else the outcome is that of
/// appending to the bytes: the entries of the archive stay, and the new
/// ones are written after them, in the order given.
pub fn append(
    contents: Option<Vec<u8>>,
    dest: String,
    files: Vec<LoadedEntry>,
    settings: RzSettings,
) -> (r: Result<Vec<u8>, RzError>)
    ensures
        match contents {
            None => r matches Err(e) && e@ == Failure::FileNotFound(dest@),
            Some(bytes) => appends(r, bytes@, files@, settings),
        },
{
    match contents {
        None => Err(RzError::FileNotFound(dest)),
        Some(bytes) => append_to(&bytes, &files, &settings),
    }
}

} // verus!
