//! What the resolver reads of the file system, in plain values.
use vstd::prelude::*;
use vstd::utf8::{decode_utf8, valid_utf8};

verus! {

/// Metadata information about a file.
#[derive(Debug, Clone, Copy)]
pub struct FileMetadata {
    pub is_file: bool,
    pub is_dir: bool,
    pub is_symlink: bool,
}

impl FileMetadata {
    pub fn new(is_file: bool, is_dir: bool, is_symlink: bool) -> (r: Self)
        ensures
            r.is_file == is_file,
            r.is_dir == is_dir,
            r.is_symlink == is_symlink,
    {
        FileMetadata { is_file, is_dir, is_symlink }
    }
}

/// Options of the file system layer.
pub struct FileSystemOptions {
    /// Read Yarn Plug'n'Play zip archives and virtual paths.
    pub enable_pnp: bool,
}

impl Default for FileSystemOptions {
    fn default() -> (r: Self)
        ensures
            r.enable_pnp,
    {
        FileSystemOptions { enable_pnp: true }
    }
}

/// A file's bytes are not UTF-8: "stream did not contain valid UTF-8".
#[derive(Debug, Clone, Copy, PartialEq, Eq, Structural)]
pub struct InvalidUtf8;

impl InvalidUtf8 {
    /// The message the standard library gives for the same failure.
    pub fn message(&self) -> (r: &'static str)
        ensures
            r@ == "stream did not contain valid UTF-8"@,
    {
        "stream did not contain valid UTF-8"
    }
}

/// `simdutf8::basic::from_utf8`, reduced to whether it succeeds: it succeeds
/// exactly when the bytes are valid UTF-8.
#[verifier::external_body]
fn is_valid_utf8(bytes: &[u8]) -> (r: bool)
    ensures
        r == valid_utf8(bytes@),
{
    simdutf8::basic::from_utf8(bytes).is_ok()
}

/// `String::from_utf8`: the string the bytes encode, when they are UTF-8.
#[verifier::external_body]
fn string_from_utf8(bytes: Vec<u8>) -> (r: Option<String>)
    ensures
        r is Some <==> valid_utf8(bytes@),
        r matches Some(s) ==> s@ == decode_utf8(bytes@),
{
    match String::from_utf8(bytes) {
        Ok(s) => Some(s),
        Err(_) => None,
    }
}

/// The text of a file's bytes, which must be UTF-8. Checked with `simdutf8`,
/// which is faster than the check `fs::read_to_string` makes.
pub fn buffer_to_string(bytes: Vec<u8>) -> (r: Result<String, InvalidUtf8>)
    ensures
        r is Ok <==> valid_utf8(bytes@),
        r matches Ok(s) ==> s@ == decode_utf8(bytes@),
        r matches Ok(s) ==> vstd::utf8::encode_utf8(s@) == bytes@,
{
    proof {
        if valid_utf8(bytes@) {
            vstd::utf8::decode_utf8_encode_utf8(bytes@);
        }
    }
    if !is_valid_utf8(bytes.as_slice()) {
        return Err(InvalidUtf8);
    }
    match string_from_utf8(bytes) {
        Some(s) => Ok(s),
        None => Err(InvalidUtf8),
    }
}

} // verus!
