//! Taking entries out of an archive.
//!
//! Extraction does not touch the file system. It returns, for each entry it
//! takes out, where the entry goes under the destination directory, what
//! goes there and which mode it gets; the caller writes that down. An
//! archive is untrusted input: an entry is taken out only if its name is
//! confined, so that the place it goes to lies under the destination.

use vstd::prelude::*;
use std::io::Cursor;
use zip::ZipArchive;
use crate::codec::{
    archive_entries, archive_len, entry_bytes, entry_info, index_of_name, is_dir_name, open_archive,
    stored_entries, EntryInfo, StoredEntry,
};
use crate::error::{Failure, RzError};
use crate::listing::all_open;
use crate::paths::{
    confined, is_confined, is_within, join, joined, landing, lemma_confined_stays_under,
    parent_dir, parent_of, portable, resolve_relative, resolved,
};
use crate::settings::RzSettings;
use crate::text::chars_of;

verus! {

/// One entry taken out of an archive, to be put on the file system.
#[derive(Clone, Debug)]
pub struct ExtractedEntry {
    /// Where the entry goes: the destination directory joined with the
    /// entry's name.
    pub path: String,
    /// Whether a directory is to be made there, with those above it.
    pub is_dir: bool,
    /// For a file, the directory that holds it, which is to be made if it is
    /// missing.
    pub parent: Option<String>,
    /// For a file, its bytes.
    pub data: Vec<u8>,
    /// The mode to set on what was made, if any.
    pub mode: Option<u32>,
}

/// An [`ExtractedEntry`] as contracts speak of it.
pub struct ExtractedEntryView {
    pub path: Seq<char>,
    pub is_dir: bool,
    pub parent: Option<Seq<char>>,
    pub data: Seq<u8>,
    pub mode: Option<u32>,
}

impl View for ExtractedEntry {
    type V = ExtractedEntryView;

    open spec fn view(&self) -> ExtractedEntryView {
        ExtractedEntryView {
            path: self.path@,
            is_dir: self.is_dir,
            parent: match self.parent {
                Some(dir) => Some(dir@),
                None => None,
            },
            data: self.data@,
            mode: self.mode,
        }
    }
}

/// The views of `items`, in order.
pub open spec fn item_views(items: Seq<ExtractedEntry>) -> Seq<ExtractedEntryView> {
    items.map_values(|e: ExtractedEntry| e@)
}

/// The mode that an extracted entry gets: the one that the settings carry,
/// whatever the entry stored; else the one that the entry stored.
pub open spec fn restored_mode(settings: RzSettings, stored: Option<u32>) -> Option<u32> {
    match settings.unix_permissions {
        Some(mode) => Some(mode),
        None => stored,
    }
}

/// Where an entry named `name` goes under `dest`, and with which mode. The
/// bytes are left empty.
pub open spec fn planned(
    name: Seq<char>,
    is_dir: bool,
    unix_mode: Option<u32>,
    dest: Seq<char>,
    settings: RzSettings,
) -> ExtractedEntryView {
    let path = joined(dest, name);
    ExtractedEntryView {
        path,
        is_dir,
        parent: if is_dir {
            None
        } else {
            parent_dir(path)
        },
        data: Seq::empty(),
        mode: restored_mode(settings, unix_mode),
    }
}

/// What extraction makes of `entry`: a directory, or a file with the
/// entry's bytes.
pub open spec fn placed(
    entry: StoredEntry,
    dest: Seq<char>,
    settings: RzSettings,
) -> ExtractedEntryView {
    let plan = planned(entry.name, is_dir_name(entry.name), entry.unix_mode, dest, settings);
    if plan.is_dir {
        plan
    } else {
        ExtractedEntryView { data: entry.data->0, ..plan }
    }
}

/// Whether all that extraction needs of `entry` can be read: the entry
/// opens and, unless it is a directory, its bytes can be read to the end.
pub open spec fn readable(entry: StoredEntry) -> bool {
    entry.opens && (is_dir_name(entry.name) || entry.data is Some)
}

/// Whether each of `entries` is [`readable`].
pub open spec fn all_readable(entries: Seq<StoredEntry>) -> bool {
    forall|i: int| 0 <= i < entries.len() ==> readable(#[trigger] entries[i])
}

/// What extraction makes of `entries` when it keeps those that `kept`
/// marks and skips the others.
pub open spec fn extracted(
    entries: Seq<StoredEntry>,
    kept: Seq<bool>,
    dest: Seq<char>,
    settings: RzSettings,
) -> Seq<ExtractedEntryView>
    decreases entries.len(),
{
    if entries.len() == 0 {
        Seq::empty()
    } else {
        let before = extracted(entries.drop_last(), kept.drop_last(), dest, settings);
        if kept.last() {
            before.push(placed(entries.last(), dest, settings))
        } else {
            before
        }
    }
}

/// Whether extraction may keep of `entries` those that `kept` marks and
/// skip the others: each that is kept has a confined name and can be read,
/// and each that has a portable name is kept.
pub open spec fn may_keep(entries: Seq<StoredEntry>, kept: Seq<bool>) -> bool {
    &&& kept.len() == entries.len()
    &&& forall|i: int|
        0 <= i < entries.len() && #[trigger] kept[i] ==> confined(entries[i].name) && readable(
            entries[i],
        )
    &&& forall|i: int| 0 <= i < entries.len() && portable(entries[i].name) ==> #[trigger] kept[i]
}

/// Whether `items` is what extraction makes of `entries`: every entry opens,
/// and `items` holds, in the order of `entries`, what is made of those that
/// were kept. An entry whose name is not confined is never kept, and one
/// whose name is portable always is. One whose name is confined but not
/// portable is kept unless the codec finds the name unsafe on this
/// platform.
pub open spec fn is_extraction_of(
    items: Seq<ExtractedEntryView>,
    entries: Seq<StoredEntry>,
    dest: Seq<char>,
    settings: RzSettings,
) -> bool {
    &&& all_open(entries)
    &&& exists|kept: Seq<bool>| #[trigger]
        may_keep(entries, kept) && extracted(entries, kept, dest, settings) == items
}

/// Whether each of `items` goes to the directory `dest` or below it,
/// wherever a walk to it starts.
pub open spec fn all_under(items: Seq<ExtractedEntryView>, dest: Seq<char>) -> bool {
    forall|k: int, start: Seq<Seq<char>>|
        0 <= k < items.len() ==> is_within(
            #[trigger] landing(start, items[k].path),
            landing(start, dest),
        )
}

/// What is made of kept entries goes to the destination or below it.
proof fn lemma_extracted_stays_under(
    entries: Seq<StoredEntry>,
    kept: Seq<bool>,
    dest: Seq<char>,
    settings: RzSettings,
)
    requires
        may_keep(entries, kept),
    ensures
        all_under(extracted(entries, kept, dest, settings), dest),
    decreases entries.len(),
{
    let items = extracted(entries, kept, dest, settings);
    if entries.len() > 0 {
        let before = extracted(entries.drop_last(), kept.drop_last(), dest, settings);
        assert(may_keep(entries.drop_last(), kept.drop_last())) by {
            assert forall|i: int|
                0 <= i < entries.drop_last().len() && #[trigger] kept.drop_last()[i] implies confined(
                entries.drop_last()[i].name,
            ) && readable(entries.drop_last()[i]) by {
                assert(kept[i]);
            }
            assert forall|i: int|
                0 <= i < entries.drop_last().len() && portable(
                    entries.drop_last()[i].name,
                ) implies #[trigger] kept.drop_last()[i] by {
                assert(kept[i]);
            }
        }
        lemma_extracted_stays_under(entries.drop_last(), kept.drop_last(), dest, settings);
        assert forall|k: int, start: Seq<Seq<char>>| 0 <= k < items.len() implies is_within(
            #[trigger] landing(start, items[k].path),
            landing(start, dest),
        ) by {
            if k < before.len() {
                assert(items[k] == before[k]);
            } else {
                let last = entries.len() - 1;
                assert(kept[last]);
                assert(items[k].path == joined(dest, entries[last].name));
                lemma_confined_stays_under(start, dest, entries[last].name);
            }
        }
    }
}

/// Extraction never leaves the destination: whatever the archive holds,
/// every entry that is taken out goes to the destination directory or
/// below it.
pub proof fn lemma_extraction_stays_under(
    items: Seq<ExtractedEntryView>,
    entries: Seq<StoredEntry>,
    dest: Seq<char>,
    settings: RzSettings,
)
    requires
        is_extraction_of(items, entries, dest, settings),
    ensures
        all_under(items, dest),
{
    let kept = choose|kept: Seq<bool>| #[trigger]
        may_keep(entries, kept) && extracted(entries, kept, dest, settings) == items;
    lemma_extracted_stays_under(entries, kept, dest, settings);
}

/// Whether `r` is an outcome of extracting `entries`.
///
/// On success `r` holds what extraction makes of the entries. Success is
/// owed where every entry can be read. A failure is the codec's or comes
/// from reading bytes.
pub open spec fn extracts(
    r: Result<Vec<ExtractedEntry>, RzError>,
    entries: Seq<StoredEntry>,
    dest: Seq<char>,
    settings: RzSettings,
) -> bool {
    &&& r matches Ok(items) ==> is_extraction_of(item_views(items@), entries, dest, settings)
    &&& all_readable(entries) ==> r is Ok
    &&& r matches Err(e) ==> e is ZipError || e is IoError
}

/// Decides where an entry goes under `dest`, from what the codec reports of
/// it. `None` means that the entry is skipped: the codec reports no safe
/// name for it, or the name is not confined.
pub fn plan_entry(info: &EntryInfo, dest: &str, settings: &RzSettings) -> (r: Option<
    ExtractedEntry,
>)
    ensures
        r is Some == (info.enclosed_name is Some && confined(info.enclosed_name->0@)),
        r matches Some(item) ==> item@ == planned(
            info.enclosed_name->0@,
            info.is_dir,
            info.unix_mode,
            dest@,
            *settings,
        ),
{
    let name = match &info.enclosed_name {
        Some(name) => name,
        None => {
            return None;
        },
    };
    let chars = chars_of(name.as_str());
    if !is_confined(&chars) {
        return None;
    }
    let path = join(dest, name.as_str());
    let parent = if info.is_dir {
        None
    } else {
        parent_of(path.as_str())
    };
    let mode = match settings.unix_permissions {
        Some(mode) => Some(mode),
        None => info.unix_mode,
    };
    Some(ExtractedEntry { path, is_dir: info.is_dir, parent, data: Vec::new(), mode })
}

/// Takes the entry at `index` out of the archive.
///
/// `Ok(None)` means that the entry was skipped. An entry whose name is not
/// confined is always skipped, and its bytes are not read; one whose name is
/// portable never is.
pub fn extract_file(
    zip: &mut ZipArchive<Cursor<Vec<u8>>>,
    index: usize,
    dest: &str,
    settings: &RzSettings,
) -> (r: Result<Option<ExtractedEntry>, RzError>)
    ensures
        archive_entries(*final(zip)) == archive_entries(*old(zip)),
        index >= archive_entries(*old(zip)).len() ==> r is Err,
        index < archive_entries(*old(zip)).len() ==> {
            let entry = archive_entries(*old(zip))[index as int];
            &&& r is Ok ==> entry.opens
            &&& r matches Ok(Some(item)) ==> confined(entry.name) && readable(entry) && item@
                == placed(entry, dest@, *settings)
            &&& entry.opens && !confined(entry.name) ==> r is Ok && r->Ok_0 is None
            &&& readable(entry) ==> r is Ok
            &&& r is Ok && portable(entry.name) ==> r->Ok_0 is Some
        },
        r matches Err(e) ==> e is ZipError || e is IoError,
{
    let info = match entry_info(zip, index) {
        Ok(info) => info,
        Err(e) => {
            return Err(RzError::ZipError(e));
        },
    };
    let mut item = match plan_entry(&info, dest, settings) {
        Some(item) => item,
        None => {
            return Ok(None);
        },
    };
    if !item.is_dir {
        match entry_bytes(zip, index) {
            Ok(Ok(data)) => {
                item.data = data;
            },
            Ok(Err(e)) => {
                return Err(RzError::IoError(e));
            },
            Err(e) => {
                return Err(RzError::ZipError(e));
            },
        }
    }
    Ok(Some(item))
}

/// The entries of `entries` at `indices`, in the order of `indices`.
pub open spec fn selected(entries: Seq<StoredEntry>, indices: Seq<usize>) -> Seq<StoredEntry> {
    indices.map_values(|i: usize| entries[i as int])
}

/// Takes the entries at `indices` out of the archive, in that order.
fn extract_selected(
    zip: &mut ZipArchive<Cursor<Vec<u8>>>,
    indices: &Vec<usize>,
    dest: &str,
    settings: &RzSettings,
) -> (r: Result<Vec<ExtractedEntry>, RzError>)
    requires
        forall|j: int| 0 <= j < indices.len() ==> indices[j] < archive_entries(*old(zip)).len(),
    ensures
        archive_entries(*final(zip)) == archive_entries(*old(zip)),
        extracts(r, selected(archive_entries(*old(zip)), indices@), dest@, *settings),
{
    let ghost entries = archive_entries(*zip);
    let ghost chosen = selected(entries, indices@);
    let mut items: Vec<ExtractedEntry> = Vec::new();
    let ghost mut kept: Seq<bool> = Seq::empty();
    let mut j: usize = 0;
    assert(chosen.take(0) == Seq::<StoredEntry>::empty());
    assert(item_views(items@) == Seq::<ExtractedEntryView>::empty());
    while j < indices.len()
        invariant
            j <= indices.len(),
            entries == archive_entries(*old(zip)),
            archive_entries(*zip) == entries,
            chosen == selected(entries, indices@),
            forall|k: int| 0 <= k < indices.len() ==> indices[k] < entries.len(),
            forall|k: int| 0 <= k < j ==> (#[trigger] chosen[k]).opens,
            may_keep(chosen.take(j as int), kept),
            extracted(chosen.take(j as int), kept, dest@, *settings) == item_views(items@),
        decreases indices.len() - j,
    {
        let index = indices[j];
        let ghost entry = entries[index as int];
        assert(chosen[j as int] == entry);
        let ghost before = chosen.take(j as int);
        let ghost upto = chosen.take(j + 1);
        assert(upto.drop_last() == before);
        assert(upto.last() == entry);
        let ghost views = item_views(items@);
        let ghost old_kept = kept;
        match extract_file(zip, index, dest, settings) {
            Err(e) => {
                assert(!readable(chosen[j as int]));
                return Err(e);
            },
            Ok(None) => {
                proof {
                    kept = old_kept.push(false);
                }
            },
            Ok(Some(item)) => {
                items.push(item);
                proof {
                    kept = old_kept.push(true);
                    assert(item_views(items@) == views.push(item@));
                }
            },
        }
        proof {
            assert(kept.drop_last() == old_kept);
            assert forall|i: int| 0 <= i < upto.len() && #[trigger] kept[i] implies confined(
                upto[i].name,
            ) && readable(upto[i]) by {
                if i < j {
                    assert(old_kept[i] == kept[i]);
                    assert(before[i] == upto[i]);
                }
            }
            assert forall|i: int| 0 <= i < upto.len() && portable(upto[i].name) implies #[trigger] kept[i] by {
                if i < j {
                    assert(before[i] == upto[i]);
                    assert(old_kept[i]);
                }
            }
        }
        j += 1;
    }
    assert(chosen.take(indices.len() as int) == chosen);
    Ok(items)
}

/// Takes every entry out of the archive, in index order.
pub fn extract_all(zip: &mut ZipArchive<Cursor<Vec<u8>>>, dest: &str, settings: &RzSettings) -> (r:
    Result<Vec<ExtractedEntry>, RzError>)
    ensures
        archive_entries(*final(zip)) == archive_entries(*old(zip)),
        extracts(r, archive_entries(*old(zip)), dest@, *settings),
{
    let n = archive_len(zip);
    let mut indices: Vec<usize> = Vec::new();
    let mut i: usize = 0;
    while i < n
        invariant
            i <= n,
            indices.len() == i,
            forall|k: int| 0 <= k < i ==> indices[k] == k,
        decreases n - i,
    {
        indices.push(i);
        i += 1;
    }
    assert(selected(archive_entries(*zip), indices@) == archive_entries(*zip));
    extract_selected(zip, &indices, dest, settings)
}

/// Whether an entry of `entries` is stored under `name`.
pub open spec fn has_name(entries: Seq<StoredEntry>, name: Seq<char>) -> bool {
    exists|i: int| 0 <= i < entries.len() && (#[trigger] entries[i]).name == name
}

/// The first of the picked names that no entry is stored under.
pub open spec fn missing_pick(entries: Seq<StoredEntry>, pick: Seq<String>) -> Option<Seq<char>>
    decreases pick.len(),
{
    if pick.len() == 0 {
        None
    } else if !has_name(entries, pick[0]@) {
        Some(pick[0]@)
    } else {
        missing_pick(entries, pick.skip(1))
    }
}

/// Where a picked name is absent from the archive, picking has a missing
/// name: an absent one, and the first such in the order of the pick.
pub proof fn lemma_missing_pick(entries: Seq<StoredEntry>, pick: Seq<String>, j: int)
    requires
        0 <= j < pick.len(),
        !has_name(entries, pick[j]@),
    ensures
        missing_pick(entries, pick) is Some,
        !has_name(entries, missing_pick(entries, pick)->0),
        exists|k: int|
            0 <= k <= j && (#[trigger] pick[k])@ == missing_pick(entries, pick)->0 && forall|
                i: int,
            | 0 <= i < k ==> has_name(entries, (#[trigger] pick[i])@),
    decreases pick.len(),
{
    if has_name(entries, pick[0]@) {
        let rest = pick.skip(1);
        assert(rest[j - 1] == pick[j]);
        lemma_missing_pick(entries, rest, j - 1);
        let k = choose|k: int|
            0 <= k <= j - 1 && (#[trigger] rest[k])@ == missing_pick(entries, rest)->0 && forall|
                i: int,
            | 0 <= i < k ==> has_name(entries, (#[trigger] rest[i])@);
        assert(pick[k + 1] == rest[k]);
        assert forall|i: int| 0 <= i < k + 1 implies has_name(entries, (#[trigger] pick[i])@) by {
            if i > 0 {
                assert(pick[i] == rest[i - 1]);
            }
        }
    } else {
        assert(pick[0]@ == missing_pick(entries, pick)->0);
    }
}

/// The index of the first entry stored under `name`; the number of entries
/// where there is none.
pub open spec fn index_of(entries: Seq<StoredEntry>, name: Seq<char>) -> int
    decreases entries.len(),
{
    if entries.len() == 0 || entries[0].name == name {
        0
    } else {
        1 + index_of(entries.skip(1), name)
    }
}

/// The entries stored under the picked names, in the order of the names.
pub open spec fn picked(entries: Seq<StoredEntry>, pick: Seq<String>) -> Seq<StoredEntry> {
    pick.map_values(|name: String| entries[index_of(entries, name@)])
}

/// Whether `r` is an outcome of extracting from `entries` the names of
/// `pick`.
///
/// Where a name is missing, `r` is `EntryNotFound` for the first such name.
/// Else it is an outcome of extracting the entries under the names, in the
/// order of the names.
pub open spec fn picks(
    r: Result<Vec<ExtractedEntry>, RzError>,
    entries: Seq<StoredEntry>,
    pick: Seq<String>,
    dest: Seq<char>,
    settings: RzSettings,
) -> bool {
    match missing_pick(entries, pick) {
        Some(name) => r matches Err(e) && e@ == Failure::EntryNotFound(name),
        None => extracts(r, picked(entries, pick), dest, settings),
    }
}

/// The first entry under a name is the one before which none has it.
proof fn lemma_index_of(entries: Seq<StoredEntry>, name: Seq<char>, i: int)
    requires
        0 <= i < entries.len(),
        entries[i].name == name,
        forall|j: int| 0 <= j < i ==> (#[trigger] entries[j]).name != name,
    ensures
        index_of(entries, name) == i,
    decreases i,
{
    if i > 0 {
        assert(entries[0].name != name);
        let rest = entries.skip(1);
        assert(rest[i - 1] == entries[i]);
        assert forall|j: int| 0 <= j < i - 1 implies (#[trigger] rest[j]).name != name by {
            assert(rest[j] == entries[j + 1]);
        }
        lemma_index_of(rest, name, i - 1);
    }
}

/// Takes the entries stored under the picked names out of the archive, in
/// the order of the names.
///
/// Picking is all or nothing: where a name is not in the archive, the call
/// fails with `EntryNotFound` for the first such name and takes nothing out.
pub fn extract_with_picking(
    zip: &mut ZipArchive<Cursor<Vec<u8>>>,
    dest: &str,
    pick: &Vec<String>,
    settings: &RzSettings,
) -> (r: Result<Vec<ExtractedEntry>, RzError>)
    ensures
        archive_entries(*final(zip)) == archive_entries(*old(zip)),
        picks(r, archive_entries(*old(zip)), pick@, dest@, *settings),
{
    let ghost entries = archive_entries(*zip);
    let mut indices: Vec<usize> = Vec::new();
    let mut j: usize = 0;
    assert(pick@.skip(0) == pick@);
    while j < pick.len()
        invariant
            j <= pick.len(),
            entries == archive_entries(*zip),
            archive_entries(*zip) == archive_entries(*old(zip)),
            indices.len() == j,
            missing_pick(entries, pick@) == missing_pick(entries, pick@.skip(j as int)),
            forall|k: int|
                0 <= k < j ==> (#[trigger] indices[k]) < entries.len() && indices[k] == index_of(
                    entries,
                    pick[k]@,
                ),
        decreases pick.len() - j,
    {
        let ghost rest = pick@.skip(j as int);
        assert(rest[0] == pick[j as int]);
        assert(rest.skip(1) == pick@.skip(j + 1));
        match index_of_name(zip, pick[j].as_str()) {
            None => {
                assert(!has_name(entries, pick[j as int]@));
                return Err(RzError::EntryNotFound(pick[j].clone()));
            },
            Some(index) => {
                proof {
                    assert(entries[index as int].name == pick[j as int]@);
                    lemma_index_of(entries, pick[j as int]@, index as int);
                }
                indices.push(index);
            },
        }
        j += 1;
    }
    assert(selected(entries, indices@) == picked(entries, pick@));
    extract_selected(zip, &indices, dest, settings)
}

/// Extracts from the bytes of an archive. `contents` is what the file at
/// `src` holds, or `None` where there is no such file. `src` and `dest` are
/// resolved against the working directory `cwd`.
///
/// Fails with `FileNotFound` without a file, and with `ZipError` where the
/// codec does not accept its bytes. Else takes out the entries under the
/// picked names or, without a pick, every entry, to go under `dest`.
pub fn extract(
    contents: Option<Vec<u8>>,
    src: String,
    dest: String,
    pick: Option<Vec<String>>,
    settings: RzSettings,
    cwd: &str,
) -> (r: Result<Vec<ExtractedEntry>, RzError>)
    ensures
        match contents {
            None => r matches Err(e) && e@ == Failure::FileNotFound(resolved(src@, cwd@)),
            Some(bytes) => match stored_entries(bytes@) {
                None => r matches Err(e) && e is ZipError,
                Some(entries) => match pick {
                    Some(names) => picks(r, entries, names@, resolved(dest@, cwd@), settings),
                    None => extracts(r, entries, resolved(dest@, cwd@), settings),
                },
            },
        },
{
    let src = resolve_relative(src, cwd);
    let dest = resolve_relative(dest, cwd);
    let bytes = match contents {
        Some(bytes) => bytes,
        None => {
            return Err(RzError::FileNotFound(src));
        },
    };
    let mut zip = match open_archive(&bytes) {
        Ok(zip) => zip,
        Err(e) => {
            return Err(RzError::ZipError(e));
        },
    };
    match pick {
        Some(names) => extract_with_picking(&mut zip, dest.as_str(), &names, &settings),
        None => extract_all(&mut zip, dest.as_str(), &settings),
    }
}

} // verus!
