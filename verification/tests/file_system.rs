use rspack_resolver::file_system::{buffer_to_string, FileMetadata, FileSystemOptions};

#[test]
fn metadata() {
    let meta = FileMetadata { is_file: true, is_dir: true, is_symlink: true };
    assert_eq!(format!("{meta:?}"), "FileMetadata { is_file: true, is_dir: true, is_symlink: true }");
    let _ = meta;
}

#[test]
fn metadata_new_keeps_its_flags() {
    let meta = FileMetadata::new(true, false, true);
    assert!(meta.is_file);
    assert!(!meta.is_dir);
    assert!(meta.is_symlink);
}

#[test]
fn pnp_is_on_by_default() {
    assert!(FileSystemOptions::default().enable_pnp);
}

#[test]
fn valid_utf8_reads_as_text() {
    assert_eq!(buffer_to_string("{\"a\": 1}".as_bytes().to_vec()).unwrap(), "{\"a\": 1}");
    assert_eq!(buffer_to_string("项目".as_bytes().to_vec()).unwrap(), "项目");
}

#[test]
fn invalid_utf8_is_an_error() {
    let err = buffer_to_string(vec![b'a', 0xff, b'b']).unwrap_err();
    assert_eq!(err.message(), "stream did not contain valid UTF-8");
}
