use rzip_core::cli::{options_from_write_ops, ClapCompressionMethod, WriteOpFlags};
use rzip_core::codec::ZipMethod;
use rzip_core::settings::get_zip_method;
use rzip_core::CompressionMethod;

#[test]
fn the_deflate_variants_share_one_codec_method() {
    assert_eq!(get_zip_method(CompressionMethod::Stored), ZipMethod::Stored);
    assert_eq!(get_zip_method(CompressionMethod::Deflated), ZipMethod::Deflated);
    assert_eq!(get_zip_method(CompressionMethod::DeflatedZlib), ZipMethod::Deflated);
    assert_eq!(get_zip_method(CompressionMethod::DeflatedZlibNg), ZipMethod::Deflated);
    assert_eq!(get_zip_method(CompressionMethod::Bzip2), ZipMethod::Bzip2);
    assert_eq!(get_zip_method(CompressionMethod::Zstd), ZipMethod::Zstd);
}

#[test]
fn command_line_names_map_to_methods_one_to_one() {
    let pairs = [
        (ClapCompressionMethod::Stored, CompressionMethod::Stored),
        (ClapCompressionMethod::Deflated, CompressionMethod::Deflated),
        (ClapCompressionMethod::DeflatedZlib, CompressionMethod::DeflatedZlib),
        (ClapCompressionMethod::DeflatedZlibNg, CompressionMethod::DeflatedZlibNg),
        (ClapCompressionMethod::Bzip2, CompressionMethod::Bzip2),
        (ClapCompressionMethod::Zstd, CompressionMethod::Zstd),
    ];
    for (name, method) in pairs {
        assert_eq!(CompressionMethod::from(name), method);
    }
}

#[test]
fn flags_become_settings() {
    let flags = WriteOpFlags {
        compression_level: Some(7),
        method: Some(ClapCompressionMethod::DeflatedZlibNg),
        unix_permissions: Some(0o755),
    };
    let settings = options_from_write_ops(flags);
    assert_eq!(settings.compression_level, Some(7));
    assert_eq!(settings.method, Some(CompressionMethod::DeflatedZlibNg));
    assert_eq!(settings.unix_permissions, Some(0o755));
}

#[test]
fn flags_left_out_stay_left_out() {
    let flags = WriteOpFlags { compression_level: None, method: None, unix_permissions: None };
    let settings = options_from_write_ops(flags);
    assert_eq!(settings.compression_level, None);
    assert_eq!(settings.method, None);
    assert_eq!(settings.unix_permissions, None);
}
