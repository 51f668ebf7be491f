//! From source paths to the entries that an archive gets.
//!
//! The caller looks at the file system and reports, for each source path,
//! what it found there. Gathering turns those reports into descriptors: for
//! a regular file one descriptor, named by the file's own name; for a
//! directory one descriptor for each entry that its walk found below it,
//! named by the entry's path from the directory's parent on, so that the
//! directory's own name is the root of its names in the archive. The
//! directory itself, where the walk reports it, gets no descriptor.
//!
//! An entry name is never empty, never begins with a slash, and holds no
//! backslash and no `/./`; a path that would give another name is refused.

use vstd::prelude::*;
use crate::error::{Failure, RzError};
use crate::names::{
    dot_segment_at, is_plain, lemma_normalize_plain, lemma_normalized_is_plain, normalize_chars,
    normalized,
};
use crate::paths::{
    file_name, final_component, is_absolute, lemma_final_component_has_no_separator,
    lemma_parent_prefix_of_absolute, lemma_resolve_idempotent, name_span, parent_prefix,
    resolve_relative, resolved,
};
use crate::text::{chars_between, chars_of, has_prefix, starts_with, string_of};

verus! {

/// One entry to write: where its bytes are on the file system, and what it
/// is called in the archive.
#[derive(Clone, Debug)]
pub struct OsFileEntry {
    pub file_path: String,
    pub zip_path: String,
    pub is_dir: bool,
}

/// An [`OsFileEntry`] as contracts speak of it.
pub struct OsFileEntryView {
    pub file_path: Seq<char>,
    pub zip_path: Seq<char>,
    pub is_dir: bool,
}

impl View for OsFileEntry {
    type V = OsFileEntryView;

    open spec fn view(&self) -> OsFileEntryView {
        OsFileEntryView {
            file_path: self.file_path@,
            zip_path: self.zip_path@,
            is_dir: self.is_dir,
        }
    }
}

/// One entry that the walk of a directory came upon.
#[derive(Clone, Debug)]
pub struct WalkedEntry {
    /// The entry's path. Where `is_utf8` is false, an approximation of it.
    pub path: String,
    /// Whether the entry is a directory.
    pub is_dir: bool,
    /// Whether the entry's path can be written as text.
    pub is_utf8: bool,
}

/// What the file system showed at one source path.
#[derive(Clone, Debug)]
pub struct SourceScan {
    /// The source path, absolute or relative to the working directory.
    pub path: String,
    /// Whether anything exists at the path.
    pub exists: bool,
    /// Whether a regular file exists at the path.
    pub is_file: bool,
    /// Where the path is a directory: the entries of its walk, in the
    /// walk's order. The walk starts at the resolved path, so each entry's
    /// path begins with it; the walk may report the directory itself.
    pub walked: Vec<WalkedEntry>,
}

/// The views of `entries`, in order.
pub open spec fn entry_views(entries: Seq<OsFileEntry>) -> Seq<OsFileEntryView> {
    entries.map_values(|e: OsFileEntry| e@)
}

/// Whether `name` can stand as an entry name: it is not empty, does not
/// begin with a slash, and holds no backslash and no `/./`.
pub open spec fn is_entry_name(name: Seq<char>) -> bool {
    name.len() > 0 && name[0] != '/' && is_plain(name)
}

/// The descriptor for what lies at `path`, named by the raw name `raw`.
/// There is none where the raw name is empty or begins with a separator.
pub open spec fn descriptor(path: Seq<char>, raw: Seq<char>, is_dir: bool) -> Result<
    OsFileEntryView,
    Failure,
> {
    let name = normalized(raw);
    if name.len() == 0 || name[0] == '/' {
        Err(Failure::BadName(path))
    } else {
        Ok(OsFileEntryView { file_path: path, zip_path: name, is_dir })
    }
}

/// The descriptor for a walked entry, under a directory whose names start
/// after `prefix`.
pub open spec fn walked_descriptor(prefix: Seq<char>, entry: WalkedEntry) -> Result<
    OsFileEntryView,
    Failure,
> {
    if !entry.is_utf8 || !has_prefix(entry.path@, prefix) {
        Err(Failure::BadName(entry.path@))
    } else {
        descriptor(entry.path@, entry.path@.skip(prefix.len() as int), entry.is_dir)
    }
}

/// The descriptors for the entries of the walk of the directory `source`,
/// in the walk's order and without the directory itself, or the failure of
/// the first entry that has no descriptor.
pub open spec fn walked_descriptors(
    source: Seq<char>,
    prefix: Seq<char>,
    walked: Seq<WalkedEntry>,
) -> Result<Seq<OsFileEntryView>, Failure>
    decreases walked.len(),
{
    if walked.len() == 0 {
        Ok(Seq::empty())
    } else {
        match walked_descriptors(source, prefix, walked.drop_last()) {
            Err(e) => Err(e),
            Ok(before) => if walked.last().path@ == source {
                Ok(before)
            } else {
                match walked_descriptor(prefix, walked.last()) {
                    Err(e) => Err(e),
                    Ok(entry) => Ok(before.push(entry)),
                }
            },
        }
    }
}

/// The descriptors for one source path.
pub open spec fn gathered_source(scan: SourceScan, cwd: Seq<char>) -> Result<
    Seq<OsFileEntryView>,
    Failure,
> {
    let file = resolved(scan.path@, cwd);
    if !scan.exists {
        Err(Failure::FileNotFound(file))
    } else {
        match file_name(file) {
            None => Err(Failure::BadName(file)),
            Some(name) => if scan.is_file {
                match descriptor(file, name, false) {
                    Err(e) => Err(e),
                    Ok(entry) => Ok(seq![entry]),
                }
            } else {
                walked_descriptors(file, parent_prefix(file), scan.walked@)
            },
        }
    }
}

/// The descriptors for a list of source paths: those of each path, in the
/// order given and with nothing removed, or the failure of the first path
/// that has one.
pub open spec fn gathered(scans: Seq<SourceScan>, cwd: Seq<char>) -> Result<
    Seq<OsFileEntryView>,
    Failure,
>
    decreases scans.len(),
{
    if scans.len() == 0 {
        Ok(Seq::empty())
    } else {
        match gathered(scans.drop_last(), cwd) {
            Err(e) => Err(e),
            Ok(before) => match gathered_source(scans.last(), cwd) {
                Err(e) => Err(e),
                Ok(entries) => Ok(before + entries),
            },
        }
    }
}

/// Makes the descriptor for what lies at `path`, named by the raw name
/// `chars[from..to]`.
fn describe(path: String, chars: &Vec<char>, from: usize, to: usize, is_dir: bool) -> (r: Result<
    OsFileEntry,
    RzError,
>)
    requires
        from <= to <= chars.len(),
    ensures
        match r {
            Ok(entry) => descriptor(path@, chars@.subrange(from as int, to as int), is_dir) == Ok::<
                OsFileEntryView,
                Failure,
            >(entry@),
            Err(e) => descriptor(path@, chars@.subrange(from as int, to as int), is_dir) == Err::<
                OsFileEntryView,
                Failure,
            >(e@),
        },
{
    let raw = chars_between(chars, from, to);
    let name = normalize_chars(&raw);
    if name.len() == 0 || name[0] == '/' {
        return Err(RzError::BadName(path));
    }
    let n = name.len();
    assert(name@.subrange(0, n as int) == name@);
    Ok(OsFileEntry { file_path: path, zip_path: string_of(&name, 0, n), is_dir })
}

/// Adds to `files` the descriptors for the entries of a walk.
fn gather_walked(
    source: &Vec<char>,
    prefix: &Vec<char>,
    walked: &Vec<WalkedEntry>,
    files: &mut Vec<OsFileEntry>,
) -> (r: Result<(), RzError>)
    ensures
        match r {
            Ok(()) => walked_descriptors(source@, prefix@, walked@) is Ok && entry_views(
                final(files)@,
            ) == entry_views(old(files)@) + walked_descriptors(source@, prefix@, walked@)->Ok_0,
            Err(e) => walked_descriptors(source@, prefix@, walked@) == Err::<
                Seq<OsFileEntryView>,
                Failure,
            >(e@),
        },
{
    let mut i: usize = 0;
    assert(walked@.take(0) == Seq::<WalkedEntry>::empty());
    assert(entry_views(files@) + Seq::<OsFileEntryView>::empty() == entry_views(files@));
    while i < walked.len()
        invariant
            i <= walked.len(),
            walked_descriptors(source@, prefix@, walked@.take(i as int)) is Ok,
            entry_views(files@) == entry_views(old(files)@) + walked_descriptors(
                source@,
                prefix@,
                walked@.take(i as int),
            )->Ok_0,
        decreases walked.len() - i,
    {
        let entry = &walked[i];
        let ghost before = walked@.take(i as int);
        let ghost upto = walked@.take(i + 1);
        assert(upto.drop_last() == before);
        assert(upto.last() == *entry);
        let chars = chars_of(entry.path.as_str());
        let is_source = chars.len() == source.len() && starts_with(&chars, source);
        assert(is_source == (entry.path@ == source@)) by {
            if chars.len() == source.len() {
                assert(chars@.take(source.len() as int) == chars@);
            }
        }
        if !is_source {
            if !entry.is_utf8 || !starts_with(&chars, prefix) {
                proof {
                    lemma_walk_fails_on(source@, prefix@, walked@, i as int);
                }
                return Err(RzError::BadName(entry.path.clone()));
            }
            assert(chars@.subrange(prefix.len() as int, chars.len() as int) == chars@.skip(
                prefix.len() as int,
            ));
            let file = match describe(
                entry.path.clone(),
                &chars,
                prefix.len(),
                chars.len(),
                entry.is_dir,
            ) {
                Ok(file) => file,
                Err(e) => {
                    proof {
                        lemma_walk_fails_on(source@, prefix@, walked@, i as int);
                    }
                    return Err(e);
                },
            };
            let ghost views = entry_views(files@);
            files.push(file);
            assert(entry_views(files@) == views.push(file@));
            assert(entry_views(old(files)@) + walked_descriptors(
                source@,
                prefix@,
                before,
            )->Ok_0.push(file@) == (entry_views(old(files)@) + walked_descriptors(
                source@,
                prefix@,
                before,
            )->Ok_0).push(file@));
        }
        i += 1;
    }
    assert(walked@.take(walked.len() as int) == walked@);
    Ok(())
}

/// A walk fails where one of its entries has no descriptor and all before
/// it have one.
proof fn lemma_walk_fails_on(
    source: Seq<char>,
    prefix: Seq<char>,
    walked: Seq<WalkedEntry>,
    i: int,
)
    requires
        0 <= i < walked.len(),
        walked_descriptors(source, prefix, walked.take(i)) is Ok,
        walked[i].path@ != source,
        walked_descriptor(prefix, walked[i]) is Err,
    ensures
        walked_descriptors(source, prefix, walked) == Err::<Seq<OsFileEntryView>, Failure>(
            walked_descriptor(prefix, walked[i])->Err_0,
        ),
    decreases walked.len(),
{
    if i == walked.len() - 1 {
        assert(walked.drop_last() == walked.take(i));
    } else {
        assert(walked.drop_last().take(i) == walked.take(i));
        lemma_walk_fails_on(source, prefix, walked.drop_last(), i);
    }
}

/// Adds to `files` the descriptors for one source path.
fn gather_source(scan: &SourceScan, cwd: &str, files: &mut Vec<OsFileEntry>) -> (r: Result<
    (),
    RzError,
>)
    ensures
        match r {
            Ok(()) => gathered_source(*scan, cwd@) is Ok && entry_views(final(files)@)
                == entry_views(old(files)@) + gathered_source(*scan, cwd@)->Ok_0,
            Err(e) => gathered_source(*scan, cwd@) == Err::<Seq<OsFileEntryView>, Failure>(e@),
        },
{
    let file = resolve_relative(scan.path.clone(), cwd);
    if !scan.exists {
        return Err(RzError::FileNotFound(file));
    }
    let chars = chars_of(file.as_str());
    let span = match name_span(&chars) {
        Some(span) => span,
        None => {
            return Err(RzError::BadName(file));
        },
    };
    if scan.is_file {
        let entry = match describe(file, &chars, span.start, span.end, false) {
            Ok(entry) => entry,
            Err(e) => {
                return Err(e);
            },
        };
        let ghost views = entry_views(files@);
        files.push(entry);
        assert(entry_views(files@) == views.push(entry@));
        assert(views.push(entry@) == views + seq![entry@]);
        Ok(())
    } else {
        let prefix = chars_between(&chars, 0, span.start);
        assert(chars@.subrange(0, span.start as int) == chars@.take(span.start as int));
        gather_walked(&chars, &prefix, &scan.walked, files)
    }
}

/// A list of sources fails where one of them fails and all before it
/// succeed.
proof fn lemma_gather_fails_on(scans: Seq<SourceScan>, cwd: Seq<char>, i: int)
    requires
        0 <= i < scans.len(),
        gathered(scans.take(i), cwd) is Ok,
        gathered_source(scans[i], cwd) is Err,
    ensures
        gathered(scans, cwd) == Err::<Seq<OsFileEntryView>, Failure>(
            gathered_source(scans[i], cwd)->Err_0,
        ),
    decreases scans.len(),
{
    if i == scans.len() - 1 {
        assert(scans.drop_last() == scans.take(i));
    } else {
        assert(scans.drop_last().take(i) == scans.take(i));
        lemma_gather_fails_on(scans.drop_last(), cwd, i);
    }
}

/// Gathers the entries that an archive gets for a list of source paths.
///
/// Each path is resolved against `cwd`. A regular file gives one
/// descriptor; a directory gives one for each entry that its walk found
/// below it. The descriptors come in the order of the paths and, within a
/// directory, of its walk; a path given twice gives its descriptors twice.
///
/// Fails with `FileNotFound` where nothing exists at a path, and with
/// `BadName` where a path ends in no name, where the path of a walked entry
/// cannot be written as text or does not lie under the directory walked,
/// or where the entry name would be empty or begin with a slash.
pub fn gather_files(descriptors: Vec<SourceScan>, cwd: &str) -> (r: Result<
    Vec<OsFileEntry>,
    RzError,
>)
    ensures
        match r {
            Ok(files) => gathered(descriptors@, cwd@) == Ok::<Seq<OsFileEntryView>, Failure>(
                entry_views(files@),
            ),
            Err(e) => gathered(descriptors@, cwd@) == Err::<Seq<OsFileEntryView>, Failure>(e@),
        },
{
    let mut files: Vec<OsFileEntry> = Vec::new();
    let mut i: usize = 0;
    assert(descriptors@.take(0) == Seq::<SourceScan>::empty());
    assert(entry_views(files@) == Seq::<OsFileEntryView>::empty());
    while i < descriptors.len()
        invariant
            i <= descriptors.len(),
            gathered(descriptors@.take(i as int), cwd@) == Ok::<Seq<OsFileEntryView>, Failure>(
                entry_views(files@),
            ),
        decreases descriptors.len() - i,
    {
        let ghost upto = descriptors@.take(i + 1);
        assert(upto.drop_last() == descriptors@.take(i as int));
        assert(upto.last() == descriptors@[i as int]);
        match gather_source(&descriptors[i], cwd, &mut files) {
            Ok(()) => {},
            Err(e) => {
                proof {
                    lemma_gather_fails_on(descriptors@, cwd@, i as int);
                }
                return Err(e);
            },
        }
        i += 1;
    }
    assert(descriptors@.take(descriptors.len() as int) == descriptors@);
    Ok(files)
}

/// Gathering a single regular file gives exactly one descriptor: it is no
/// directory, it points at the resolved path, and its entry name is the
/// file's own name, where that name holds no backslash.
pub proof fn lemma_gather_single_file(scan: SourceScan, cwd: Seq<char>)
    requires
        scan.exists,
        scan.is_file,
        file_name(resolved(scan.path@, cwd)) is Some,
        forall|i: int|
            0 <= i < file_name(resolved(scan.path@, cwd))->0.len() ==> file_name(
                resolved(scan.path@, cwd),
            )->0[i] != '\\',
    ensures
        gathered(seq![scan], cwd) == Ok::<Seq<OsFileEntryView>, Failure>(
            seq![
                OsFileEntryView {
                    file_path: resolved(scan.path@, cwd),
                    zip_path: file_name(resolved(scan.path@, cwd))->0,
                    is_dir: false,
                },
            ],
        ),
{
    let file = resolved(scan.path@, cwd);
    let name = file_name(file)->0;
    let scans = seq![scan];
    assert(scans.drop_last() == Seq::<SourceScan>::empty());
    assert(scans.last() == scan);
    assert(gathered(scans.drop_last(), cwd) == Ok::<Seq<OsFileEntryView>, Failure>(Seq::empty()));
    assert(name == final_component(file));
    lemma_final_component_has_no_separator(file);
    assert forall|i: int| !dot_segment_at(name, i) by {
        if dot_segment_at(name, i) {
            assert(name[i] == '/');
        }
    }
    lemma_normalize_plain(name);
    assert(name[0] != '/');
    assert(Seq::<OsFileEntryView>::empty() + gathered_source(scan, cwd)->Ok_0 == gathered_source(
        scan,
        cwd,
    )->Ok_0);
}

/// Whether each of `entries` has an entry name, and a path that is
/// absolute.
pub open spec fn all_well_formed(entries: Seq<OsFileEntryView>) -> bool {
    forall|k: int|
        0 <= k < entries.len() ==> is_entry_name((#[trigger] entries[k]).zip_path) && is_absolute(
            entries[k].file_path,
        )
}

/// A descriptor has an entry name.
proof fn lemma_descriptor(path: Seq<char>, raw: Seq<char>, is_dir: bool)
    requires
        descriptor(path, raw, is_dir) is Ok,
    ensures
        is_entry_name(descriptor(path, raw, is_dir)->Ok_0.zip_path),
        descriptor(path, raw, is_dir)->Ok_0.file_path == path,
{
    lemma_normalized_is_plain(raw);
}

/// The descriptors of a walk are well formed, where the names start after
/// an absolute prefix.
proof fn lemma_walked_well_formed(source: Seq<char>, prefix: Seq<char>, walked: Seq<WalkedEntry>)
    requires
        is_absolute(prefix),
        walked_descriptors(source, prefix, walked) is Ok,
    ensures
        all_well_formed(walked_descriptors(source, prefix, walked)->Ok_0),
    decreases walked.len(),
{
    if walked.len() > 0 {
        lemma_walked_well_formed(source, prefix, walked.drop_last());
        let before = walked_descriptors(source, prefix, walked.drop_last())->Ok_0;
        let entries = walked_descriptors(source, prefix, walked)->Ok_0;
        let last = walked.last();
        if last.path@ != source {
            lemma_descriptor(last.path@, last.path@.skip(prefix.len() as int), last.is_dir);
            assert(last.path@[0] == last.path@.take(prefix.len() as int)[0]);
        }
        assert forall|k: int| 0 <= k < entries.len() implies is_entry_name(
            (#[trigger] entries[k]).zip_path,
        ) && is_absolute(entries[k].file_path) by {
            if k < before.len() {
                assert(entries[k] == before[k]);
            }
        }
    }
}

/// Every descriptor that gathering gives is well formed: its entry name is
/// not empty, does not begin with a slash and holds no backslash and no
/// `/./`, and its path is absolute.
pub proof fn lemma_gathered_well_formed(scans: Seq<SourceScan>, cwd: Seq<char>)
    requires
        is_absolute(cwd),
        gathered(scans, cwd) is Ok,
    ensures
        all_well_formed(gathered(scans, cwd)->Ok_0),
    decreases scans.len(),
{
    if scans.len() > 0 {
        lemma_gathered_well_formed(scans.drop_last(), cwd);
        let before = gathered(scans.drop_last(), cwd)->Ok_0;
        let scan = scans.last();
        let added = gathered_source(scan, cwd)->Ok_0;
        let entries = gathered(scans, cwd)->Ok_0;
        let file = resolved(scan.path@, cwd);
        lemma_resolve_idempotent(scan.path@, cwd);
        if scan.is_file {
            lemma_descriptor(file, file_name(file)->0, false);
        } else {
            lemma_parent_prefix_of_absolute(file);
            lemma_walked_well_formed(file, parent_prefix(file), scan.walked@);
        }
        assert forall|k: int| 0 <= k < entries.len() implies is_entry_name(
            (#[trigger] entries[k]).zip_path,
        ) && is_absolute(entries[k].file_path) by {
            if k < before.len() {
                assert(entries[k] == before[k]);
            } else {
                assert(entries[k] == added[k - before.len()]);
            }
        }
    }
}

} // verus!
