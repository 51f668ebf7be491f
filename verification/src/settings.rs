//! Settings, and the write options of the codec that they stand for.

use vstd::prelude::*;
use crate::codec::{
    default_options, options_level, options_method, options_permissions, with_level, with_method,
    with_permissions, EntryOptions, ZipMethod,
};

verus! {

/// The compression methods that a caller can ask for.
///
/// The three deflate variants name implementations of one format: to the
/// codec they are the same method.
#[derive(Debug, Clone, Copy, PartialEq, Eq, Structural)]
pub enum CompressionMethod {
    Stored,
    Deflated,
    DeflatedZlib,
    DeflatedZlibNg,
    Bzip2,
    Zstd,
}

/// What a caller asks of one operation. A field left out leaves the choice
/// to the codec.
#[derive(Debug, Clone, Copy)]
pub struct RzSettings {
    pub method: Option<CompressionMethod>,
    pub unix_permissions: Option<u32>,
    pub compression_level: Option<i64>,
}

/// The codec's method for `method`.
pub open spec fn zip_method(method: CompressionMethod) -> ZipMethod {
    match method {
        CompressionMethod::Stored => ZipMethod::Stored,
        CompressionMethod::Deflated => ZipMethod::Deflated,
        CompressionMethod::DeflatedZlib => ZipMethod::Deflated,
        CompressionMethod::DeflatedZlibNg => ZipMethod::Deflated,
        CompressionMethod::Bzip2 => ZipMethod::Bzip2,
        CompressionMethod::Zstd => ZipMethod::Zstd,
    }
}

/// The method that entries get under `settings`: the one asked for, or the
/// codec's default.
pub open spec fn chosen_method(settings: RzSettings) -> ZipMethod {
    match settings.method {
        Some(method) => zip_method(method),
        None => ZipMethod::Deflated,
    }
}

/// The permission bits that entries get under `settings`: of a mask that
/// was asked for, the codec keeps the low nine bits.
pub open spec fn chosen_permissions(settings: RzSettings) -> Option<u32> {
    match settings.unix_permissions {
        Some(mode) => Some(mode & 0o777),
        None => None,
    }
}

/// Maps a method of the settings onto the codec's.
pub fn get_zip_method(method: CompressionMethod) -> (r: ZipMethod)
    ensures
        r == zip_method(method),
{
    match method {
        CompressionMethod::Stored => ZipMethod::Stored,
        CompressionMethod::Deflated => ZipMethod::Deflated,
        CompressionMethod::DeflatedZlib => ZipMethod::Deflated,
        CompressionMethod::DeflatedZlibNg => ZipMethod::Deflated,
        CompressionMethod::Bzip2 => ZipMethod::Bzip2,
        CompressionMethod::Zstd => ZipMethod::Zstd,
    }
}

/// Turns settings into the codec's write options. The level is always
/// handed on, also when none was asked for; method and permission bits
/// override the codec's defaults only where they are present.
pub fn settings_to_file_options(settings: &RzSettings) -> (options: EntryOptions)
    ensures
        options_level(options) == settings.compression_level,
        options_method(options) == chosen_method(*settings),
        options_permissions(options) == chosen_permissions(*settings),
{
    let mut options = with_level(default_options(), settings.compression_level);
    if let Some(method) = settings.method {
        options = with_method(options, get_zip_method(method));
    }
    if let Some(permissions) = settings.unix_permissions {
        options = with_permissions(options, permissions);
    }
    options
}

} // verus!
