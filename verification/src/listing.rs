//! Listing the entries of an archive.

use vstd::prelude::*;
use std::io::Cursor;
use zip::ZipArchive;
use crate::codec::{
    archive_entries, archive_len, entry_info, is_dir_name, stored_entries, StoredEntry,
};
use crate::error::{Failure, RzError};
use crate::paths::{resolve_relative, resolved};
use crate::session::Rz;
use crate::text::{chars_of, has_prefix, starts_with};

verus! {

/// One line of a listing.
#[derive(Clone, Debug)]
pub struct RzEntry {
    pub path: String,
    pub is_dir: bool,
}

/// An [`RzEntry`] as contracts speak of it.
pub struct RzEntryView {
    pub path: Seq<char>,
    pub is_dir: bool,
}

impl View for RzEntry {
    type V = RzEntryView;

    open spec fn view(&self) -> RzEntryView {
        RzEntryView { path: self.path@, is_dir: self.is_dir }
    }
}

/// Whether each of `entries` opens.
pub open spec fn all_open(entries: Seq<StoredEntry>) -> bool {
    forall|i: int| 0 <= i < entries.len() ==> (#[trigger] entries[i]).opens
}

/// The views of `entries`, in order.
pub open spec fn listing_views(entries: Seq<RzEntry>) -> Seq<RzEntryView> {
    entries.map_values(|e: RzEntry| e@)
}

/// The line that a listing shows for `entry`.
pub open spec fn line_of(entry: StoredEntry) -> RzEntryView {
    RzEntryView { path: entry.name, is_dir: is_dir_name(entry.name) }
}

/// The listing of `entries` under `prefix`: a line for each entry whose
/// name begins with `prefix`, in index order.
pub open spec fn listed(entries: Seq<StoredEntry>, prefix: Seq<char>) -> Seq<RzEntryView> {
    entries.filter(|e: StoredEntry| has_prefix(e.name, prefix)).map_values(
        |e: StoredEntry| line_of(e),
    )
}

/// A listing grows by the line of an entry whose name begins with the
/// prefix, and by nothing else.
proof fn lemma_listed_push(entries: Seq<StoredEntry>, prefix: Seq<char>)
    requires
        entries.len() > 0,
    ensures
        listed(entries, prefix) == if has_prefix(entries.last().name, prefix) {
            listed(entries.drop_last(), prefix).push(line_of(entries.last()))
        } else {
            listed(entries.drop_last(), prefix)
        },
{
    reveal(Seq::filter);
    let wanted = |e: StoredEntry| has_prefix(e.name, prefix);
    let before = entries.drop_last().filter(wanted);
    if has_prefix(entries.last().name, prefix) {
        assert(entries.filter(wanted) == before.push(entries.last()));
        assert(before.push(entries.last()).map_values(|e: StoredEntry| line_of(e))
            == before.map_values(|e: StoredEntry| line_of(e)).push(line_of(entries.last())));
    } else {
        assert(entries.filter(wanted) == before);
    }
}

/// The empty prefix lists every entry.
pub proof fn lemma_empty_prefix_lists_all(entries: Seq<StoredEntry>)
    ensures
        listed(entries, Seq::empty()) == entries.map_values(|e: StoredEntry| line_of(e)),
    decreases entries.len(),
{
    if entries.len() == 0 {
        reveal(Seq::filter);
        assert(listed(entries, Seq::empty()) == Seq::<RzEntryView>::empty());
    } else {
        let front = entries.drop_last();
        lemma_empty_prefix_lists_all(front);
        lemma_listed_push(entries, Seq::empty());
        assert(entries.last().name.take(0) == Seq::<char>::empty());
        assert(front.map_values(|e: StoredEntry| line_of(e)).push(line_of(entries.last()))
            == entries.map_values(|e: StoredEntry| line_of(e)));
    }
}

/// Lists the entries of the archive whose names begin with `prefix`.
pub fn list_entries(zip: &mut ZipArchive<Cursor<Vec<u8>>>, prefix: &str) -> (r: Result<
    Vec<RzEntry>,
    RzError,
>)
    ensures
        archive_entries(*final(zip)) == archive_entries(*old(zip)),
        (r is Ok) == all_open(archive_entries(*old(zip))),
        r matches Ok(lines) ==> listing_views(lines@) == listed(
            archive_entries(*old(zip)),
            prefix@,
        ),
        r matches Err(e) ==> e is ZipError,
{
    let ghost entries = archive_entries(*zip);
    let prefix_chars = chars_of(prefix);
    let n = archive_len(zip);
    let mut lines: Vec<RzEntry> = Vec::new();
    let mut i: usize = 0;
    proof {
        reveal(Seq::filter);
        assert(entries.take(0) == Seq::<StoredEntry>::empty());
        assert(listing_views(lines@) == listed(entries.take(0), prefix@));
    }
    while i < n
        invariant
            i <= n == entries.len(),
            entries == archive_entries(*old(zip)),
            archive_entries(*zip) == entries,
            prefix_chars@ == prefix@,
            forall|k: int| 0 <= k < i ==> (#[trigger] entries[k]).opens,
            listing_views(lines@) == listed(entries.take(i as int), prefix@),
        decreases n - i,
    {
        let info = match entry_info(zip, i) {
            Ok(info) => info,
            Err(e) => {
                assert(!entries[i as int].opens);
                return Err(RzError::ZipError(e));
            },
        };
        let ghost upto = entries.take(i + 1);
        let ghost views = listing_views(lines@);
        proof {
            assert(upto.drop_last() == entries.take(i as int));
            assert(upto.last() == entries[i as int]);
            lemma_listed_push(upto, prefix@);
        }
        let name_chars = chars_of(info.name.as_str());
        if starts_with(&name_chars, &prefix_chars) {
            let entry = RzEntry { path: info.name, is_dir: info.is_dir };
            lines.push(entry);
            assert(listing_views(lines@) == views.push(entry@));
        }
        i += 1;
    }
    assert(entries.take(n as int) == entries);
    Ok(lines)
}

/// The prefix that a pick asks a listing for: its first name, or the empty
/// prefix where there is none.
pub open spec fn picked_prefix(pick: Option<Vec<String>>) -> Seq<char> {
    match pick {
        Some(names) => if names.len() > 0 {
            names[0]@
        } else {
            Seq::empty()
        },
        None => Seq::empty(),
    }
}

/// Lists the entries of an archive. `contents` is what the file at `src`
/// holds, or `None` where there is no such file; `src` is resolved against
/// the working directory `cwd`. The first name of `pick` is the prefix that
/// the listed names begin with; without one, every entry is listed.
///
/// Fails with `FileNotFound` without a file, and with `ZipError` where the
/// codec does not accept its bytes or cannot open an entry.
pub fn list(contents: Option<Vec<u8>>, src: String, pick: Option<Vec<String>>, cwd: &str) -> (r:
    Result<Vec<RzEntry>, RzError>)
    ensures
        match contents {
            None => r matches Err(e) && e@ == Failure::FileNotFound(resolved(src@, cwd@)),
            Some(bytes) => match stored_entries(bytes@) {
                None => r matches Err(e) && e is ZipError,
                Some(entries) => {
                    &&& (r is Ok) == all_open(entries)
                    &&& r matches Ok(lines) ==> listing_views(lines@) == listed(
                        entries,
                        picked_prefix(pick),
                    )
                    &&& r matches Err(e) ==> e is ZipError
                },
            },
        },
{
    let src = resolve_relative(src, cwd);
    if contents.is_none() {
        return Err(RzError::FileNotFound(src));
    }
    let mut rz = Rz::new(src);
    match rz.open(contents, false) {
        Ok(()) => {},
        Err(e) => {
            return Err(e);
        },
    }
    let prefix = match &pick {
        Some(names) => if names.len() > 0 {
            names[0].clone()
        } else {
            String::new()
        },
        None => String::new(),
    };
    rz.list(prefix)
}

} // verus!
