//! Making a new archive.

use vstd::prelude::*;
use crate::append::{write_and_finish, writes, LoadedEntry};
use crate::codec::new_writer;
use crate::error::RzError;
use crate::settings::RzSettings;

verus! {

/// Writes `files` into a new archive, in the order given, and returns its
/// bytes.
///
/// Succeeds exactly where the codec takes every entry and finishes the
/// archive; the bytes are then those that the codec makes of the entries,
/// each under its stored name, with the file's bytes and the options of the
/// settings. The codec takes no name twice: success means that the names
/// differ from one another.
pub fn compress(files: Vec<LoadedEntry>, settings: RzSettings) -> (r: Result<Vec<u8>, RzError>)
    ensures
        writes(r, None, files@, settings),
{
    write_and_finish(new_writer(), &files, &settings)
}

} // verus!
