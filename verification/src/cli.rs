//! The settings as a command line states them.

use vstd::prelude::*;
use vstd::std_specs::convert::FromSpecImpl;
use crate::settings::{CompressionMethod, RzSettings};

verus! {

/// The compression methods by the names that the command line offers.
#[derive(Debug, Clone, Copy, PartialEq, Eq, Structural)]
pub enum ClapCompressionMethod {
    Stored,
    Deflated,
    DeflatedZlib,
    DeflatedZlibNg,
    Bzip2,
    Zstd,
}

/// The flags of an operation that writes an archive.
#[derive(Debug, Clone, Copy)]
pub struct WriteOpFlags {
    pub compression_level: Option<i64>,
    pub method: Option<ClapCompressionMethod>,
    pub unix_permissions: Option<u32>,
}

/// The method that a command-line name stands for.
pub open spec fn method_of(method: ClapCompressionMethod) -> CompressionMethod {
    match method {
        ClapCompressionMethod::Stored => CompressionMethod::Stored,
        ClapCompressionMethod::Deflated => CompressionMethod::Deflated,
        ClapCompressionMethod::DeflatedZlib => CompressionMethod::DeflatedZlib,
        ClapCompressionMethod::DeflatedZlibNg => CompressionMethod::DeflatedZlibNg,
        ClapCompressionMethod::Bzip2 => CompressionMethod::Bzip2,
        ClapCompressionMethod::Zstd => CompressionMethod::Zstd,
    }
}

impl From<ClapCompressionMethod> for CompressionMethod {
    fn from(method: ClapCompressionMethod) -> (r: CompressionMethod) {
        match method {
            ClapCompressionMethod::Stored => CompressionMethod::Stored,
            ClapCompressionMethod::Deflated => CompressionMethod::Deflated,
            ClapCompressionMethod::DeflatedZlib => CompressionMethod::DeflatedZlib,
            ClapCompressionMethod::DeflatedZlibNg => CompressionMethod::DeflatedZlibNg,
            ClapCompressionMethod::Bzip2 => CompressionMethod::Bzip2,
            ClapCompressionMethod::Zstd => CompressionMethod::Zstd,
        }
    }
}

impl FromSpecImpl<ClapCompressionMethod> for CompressionMethod {
    open spec fn obeys_from_spec() -> bool {
        true
    }

    open spec fn from_spec(method: ClapCompressionMethod) -> CompressionMethod {
        method_of(method)
    }
}

/// The settings that `flags` stand for: level and permission bits as they
/// are, the method by its name.
pub open spec fn settings_of(flags: WriteOpFlags) -> RzSettings {
    RzSettings {
        method: match flags.method {
            Some(method) => Some(method_of(method)),
            None => None,
        },
        unix_permissions: flags.unix_permissions,
        compression_level: flags.compression_level,
    }
}

/// Builds the settings of an operation from its command-line flags.
pub fn options_from_write_ops(flags: WriteOpFlags) -> (settings: RzSettings)
    ensures
        settings == settings_of(flags),
{
    let method: Option<CompressionMethod> = match flags.method {
        Some(method) => Some(CompressionMethod::from(method)),
        None => None,
    };
    RzSettings {
        compression_level: flags.compression_level,
        method,
        unix_permissions: flags.unix_permissions,
    }
}

} // verus!
