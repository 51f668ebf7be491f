//! A session over one archive.
//!
//! A session starts closed. Opening it gives it a reader over the archive's
//! bytes and, when asked for, keeps the bytes to append to. Listing and
//! extraction need the reader, appending needs a session opened for
//! writing; without what it needs, an operation fails with `RZNotReady` and
//! changes nothing. Appending is all or nothing. Closing hands back the
//! bytes of the archive with all that was appended.

use vstd::prelude::*;
use std::io::Cursor;
use zip::ZipArchive;
use crate::append::{all_new, append_to, appended, stored_names, LoadedEntry};
use crate::codec::{
    archive_entries, base_names, open_archive, stored_entries, StoredEntry,
};
use crate::error::{Failure, RzError};
use crate::extraction::{
    extract_all, extract_with_picking, extracts, picks, ExtractedEntry,
};
use crate::gather::OsFileEntry;
use crate::listing::{all_open, list_entries, listed, listing_views, RzEntry};
use crate::settings::RzSettings;

verus! {

/// The handles that a session holds.
enum Handles {
    Closed,
    ReadOnly { zip: ZipArchive<Cursor<Vec<u8>>> },
    ReadWrite { zip: ZipArchive<Cursor<Vec<u8>>>, bytes: Vec<u8> },
}

/// A session over one archive.
pub struct Rz {
    file_path: String,
    handles: Handles,
}

/// The state of a session, as contracts speak of it.
pub enum SessionState {
    /// No handle is held.
    Closed,
    /// A reader is held, over an archive with these entries.
    ReadOnly { entries: Seq<StoredEntry> },
    /// A reader is held, and the bytes of the archive as appending has made
    /// it so far, which closing hands back.
    ReadWrite { entries: Seq<StoredEntry>, archive: Seq<u8> },
}

/// A session, as contracts speak of it.
pub struct SessionView {
    pub file_path: Seq<char>,
    pub state: SessionState,
}

impl SessionView {
    /// The entries that the session's reader sees; none while it is closed.
    pub open spec fn entries(self) -> Seq<StoredEntry> {
        match self.state {
            SessionState::Closed => Seq::empty(),
            SessionState::ReadOnly { entries } => entries,
            SessionState::ReadWrite { entries, .. } => entries,
        }
    }
}

impl View for Rz {
    type V = SessionView;

    closed spec fn view(&self) -> SessionView {
        SessionView {
            file_path: self.file_path@,
            state: match self.handles {
                Handles::Closed => SessionState::Closed,
                Handles::ReadOnly { zip } => SessionState::ReadOnly {
                    entries: archive_entries(zip),
                },
                Handles::ReadWrite { zip, bytes } => SessionState::ReadWrite {
                    entries: archive_entries(zip),
                    archive: bytes@,
                },
            },
        }
    }
}

impl Rz {
    /// A closed session over the archive at `file_path`.
    pub fn new(file_path: String) -> (rz: Rz)
        ensures
            rz@.file_path == file_path@,
            rz@.state is Closed,
    {
        Rz { file_path, handles: Handles::Closed }
    }

    /// Opens the session over the bytes of the archive. `contents` is what
    /// the file at the session's path holds, or `None` where there is no
    /// such file.
    ///
    /// Without a file the call fails with `FileNotFound`, and where the
    /// codec does not accept the bytes, with `ZipError`; either way the
    /// session stays as it was. Else the session holds a reader and, where
    /// `write` is set, the bytes to append to.
    pub fn open(&mut self, contents: Option<Vec<u8>>, write: bool) -> (r: Result<(), RzError>)
        ensures
            final(self)@.file_path == old(self)@.file_path,
            match contents {
                None => {
                    &&& r matches Err(e) && e@ == Failure::FileNotFound(old(self)@.file_path)
                    &&& final(self)@ == old(self)@
                },
                Some(bytes) => match stored_entries(bytes@) {
                    None => {
                        &&& r matches Err(e) && e is ZipError
                        &&& final(self)@ == old(self)@
                    },
                    Some(entries) => {
                        &&& r is Ok
                        &&& final(self)@.state == if write {
                            SessionState::ReadWrite { entries, archive: bytes@ }
                        } else {
                            SessionState::ReadOnly { entries }
                        }
                    },
                },
            },
    {
        let bytes = match contents {
            Some(bytes) => bytes,
            None => {
                return Err(RzError::FileNotFound(self.file_path.clone()));
            },
        };
        let zip = match open_archive(&bytes) {
            Ok(zip) => zip,
            Err(e) => {
                return Err(RzError::ZipError(e));
            },
        };
        if write {
            self.handles = Handles::ReadWrite { zip, bytes };
        } else {
            self.handles = Handles::ReadOnly { zip };
        }
        Ok(())
    }

    /// Appends one entry to the archive. Needs a session opened for
    /// writing.
    pub fn append(&mut self, entry: OsFileEntry, data: Vec<u8>, settings: RzSettings) -> (r: Result<
        (),
        RzError,
    >)
        ensures
            appending(*old(self), *final(self), r, seq![LoadedEntry { entry, data }], settings),
    {
        let mut files: Vec<LoadedEntry> = Vec::new();
        files.push(LoadedEntry { entry, data });
        assert(files@ == seq![LoadedEntry { entry, data }]);
        self.append_entries(files, settings)
    }

    /// Appends entries to the archive, in the order given. Needs a session
    /// opened for writing.
    ///
    /// Appending is all or nothing: on success the session holds the archive
    /// with the new entries after those it held, and on failure it holds
    /// what it held.
    pub fn append_entries(&mut self, entries: Vec<LoadedEntry>, settings: RzSettings) -> (r: Result<
        (),
        RzError,
    >)
        ensures
            appending(*old(self), *final(self), r, entries@, settings),
    {
        match &mut self.handles {
            Handles::ReadWrite { zip, bytes } => {
                match append_to(bytes, &entries, &settings) {
                    Ok(out) => {
                        *bytes = out;
                        Ok(())
                    },
                    Err(e) => Err(e),
                }
            },
            _ => Err(RzError::RZNotReady),
        }
    }

    /// Takes the entries stored under the picked names out of the archive,
    /// to go under `dest`. Needs the reader.
    ///
    /// Picking is all or nothing: where a name is not in the archive, the
    /// call fails with `EntryNotFound` for the first such name and takes
    /// nothing out.
    pub fn extract_picking(&mut self, dest: String, pick: Vec<String>) -> (r: Result<
        Vec<ExtractedEntry>,
        RzError,
    >)
        ensures
            final(self)@ == old(self)@,
            old(self)@.state is Closed ==> (r matches Err(e) && e is RZNotReady),
            !(old(self)@.state is Closed) ==> picks(
                r,
                old(self)@.entries(),
                pick@,
                dest@,
                no_settings(),
            ),
    {
        let settings = RzSettings { method: None, unix_permissions: None, compression_level: None };
        match &mut self.handles {
            Handles::Closed => Err(RzError::RZNotReady),
            Handles::ReadOnly { zip } => extract_with_picking(zip, dest.as_str(), &pick, &settings),
            Handles::ReadWrite { zip, .. } => extract_with_picking(
                zip,
                dest.as_str(),
                &pick,
                &settings,
            ),
        }
    }

    /// Takes every entry out of the archive, to go under `dest`. Needs the
    /// reader.
    pub fn extract_all(&mut self, dest: String) -> (r: Result<Vec<ExtractedEntry>, RzError>)
        ensures
            final(self)@ == old(self)@,
            old(self)@.state is Closed ==> (r matches Err(e) && e is RZNotReady),
            !(old(self)@.state is Closed) ==> extracts(
                r,
                old(self)@.entries(),
                dest@,
                no_settings(),
            ),
    {
        let settings = RzSettings { method: None, unix_permissions: None, compression_level: None };
        match &mut self.handles {
            Handles::Closed => Err(RzError::RZNotReady),
            Handles::ReadOnly { zip } => extract_all(zip, dest.as_str(), &settings),
            Handles::ReadWrite { zip, .. } => extract_all(zip, dest.as_str(), &settings),
        }
    }

    /// Lists the entries whose names begin with `path`, in index order. The
    /// empty prefix lists every entry. Needs the reader.
    pub fn list(&mut self, path: String) -> (r: Result<Vec<RzEntry>, RzError>)
        ensures
            final(self)@ == old(self)@,
            old(self)@.state is Closed ==> (r matches Err(e) && e is RZNotReady),
            !(old(self)@.state is Closed) ==> {
                let entries = old(self)@.entries();
                &&& (r is Ok) == all_open(entries)
                &&& r matches Ok(lines) ==> listing_views(lines@) == listed(entries, path@)
                &&& r matches Err(e) ==> e is ZipError
            },
    {
        match &mut self.handles {
            Handles::Closed => Err(RzError::RZNotReady),
            Handles::ReadOnly { zip } => list_entries(zip, path.as_str()),
            Handles::ReadWrite { zip, .. } => list_entries(zip, path.as_str()),
        }
    }

    /// Closes the session. Where it was opened for writing, the bytes of
    /// the archive come back, with all that was appended.
    pub fn close(self) -> (r: Result<Option<Vec<u8>>, RzError>)
        ensures
            match self@.state {
                SessionState::ReadWrite { archive, .. } => r matches Ok(Some(bytes)) && bytes@
                    == archive,
                _ => r matches Ok(None),
            },
    {
        match self.handles {
            Handles::ReadWrite { zip, bytes } => Ok(Some(bytes)),
            _ => Ok(None),
        }
    }
}

/// Whether `r` and the session `after` are the outcome of appending `files`
/// to the session `before`.
///
/// A session that was not opened for writing fails with `RZNotReady`. Else
/// the call succeeds exactly where appending to the archive that the
/// session holds gives an archive, which the session then holds; the codec
/// takes no name twice, so success means that every name was new. On
/// failure the session is as it was.
pub open spec fn appending(
    before: Rz,
    after: Rz,
    r: Result<(), RzError>,
    files: Seq<LoadedEntry>,
    settings: RzSettings,
) -> bool {
    &&& after@.file_path == before@.file_path
    &&& match before@.state {
        SessionState::ReadWrite { entries, archive } => {
            &&& r is Ok == appended(archive, files, settings) is Some
            &&& r is Ok ==> after@.state == (SessionState::ReadWrite {
                entries,
                archive: appended(archive, files, settings)->0,
            })
            &&& r is Ok ==> all_new(base_names(Some(archive)), stored_names(files))
            &&& r is Err ==> after@ == before@
            &&& r matches Err(e) ==> e is BadName || e is ZipError || e is IoError || e
                is GeneralError
        },
        _ => {
            &&& r matches Err(e) && e is RZNotReady
            &&& after@ == before@
        },
    }
}

/// Settings that ask for nothing.
pub open spec fn no_settings() -> RzSettings {
    RzSettings { method: None, unix_permissions: None, compression_level: None }
}

} // verus!
