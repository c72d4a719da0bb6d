//! Packing a built binary into an archive.
//!
//! The archive holds one file, the binary, under the name of the binary and
//! with the permissions of an executable. Archives are written by the `tar`,
//! `flate2` and `zip` crates.

use crate::triple::{triple_text, triple_to_string, System, TripleExt};
use flate2::write::GzEncoder;
use flate2::Compression;
use target_lexicon::Triple;
use vstd::prelude::*;
use vstd::string::StringExecFns;

verus! {

/// The permissions of the packed binary: read and run for all, write for the
/// owner.
pub const EXECUTABLE: u32 = 0o755;

/// The level at which archives are compressed: the best one.
pub const BEST: u32 = 9;

/// Why a binary could not be packed.
#[derive(Clone, Copy, Debug, PartialEq, Eq, Structural)]
pub enum ArchiveError {
    /// The tar archive could not be written.
    Tar,
    /// The zip archive could not be written.
    Zip,
}

/// The bytes of the gzip-compressed tar archive that holds the one file `name`
/// with the content `data` and the permissions `mode`, compressed at `level`,
/// or `None` if the `tar` crate does not take the name.
pub uninterp spec fn tar_gz_of(name: Seq<char>, data: Seq<u8>, mode: u32, level: u32) -> Option<
    Seq<u8>,
>;

/// Writes a GNU tar header for the file, appends the file to a
/// `tar::Builder` that writes into a `GzEncoder`, and finishes both. The
/// level is one of those that `flate2` takes, 0 to 9.
#[verifier::external_body]
fn tar_gz_bytes(name: &str, data: &[u8], mode: u32, level: u32) -> (archive: Option<Vec<u8>>)
    requires
        level <= 9,
    ensures
        match archive {
            Some(bytes) => tar_gz_of(name@, data@, mode, level) == Some(bytes@),
            None => tar_gz_of(name@, data@, mode, level) is None,
        },
{
    let mut builder = tar::Builder::new(GzEncoder::new(Vec::new(), Compression::new(level)));
    let mut header = tar::Header::new_gnu();
    header.set_mode(mode);
    header.set_size(data.len() as u64);
    header.set_path(name).ok()?;
    header.set_cksum();
    builder.append(&header, data).ok()?;
    builder.into_inner().ok()?.finish().ok()
}

/// The bytes of the zip archive that holds the one file `name` with the
/// content `data`, deflated, and the permissions `mode`, or `None` if the `zip`
/// crate cannot write it. The `zip` crate is built without its `time`
/// feature, so that the archive records a fixed time of modification and not
/// the time at which it is written.
pub uninterp spec fn zip_of(name: Seq<char>, data: Seq<u8>, mode: u32) -> Option<Seq<u8>>;

/// Starts the file in a `zip::ZipWriter` with deflate compression and the
/// permissions `mode`, writes the content and finishes the archive.
#[verifier::external_body]
fn zip_bytes(name: &str, data: &[u8], mode: u32) -> (archive: Option<Vec<u8>>)
    ensures
        match archive {
            Some(bytes) => zip_of(name@, data@, mode) == Some(bytes@),
            None => zip_of(name@, data@, mode) is None,
        },
{
    let mut writer = zip::ZipWriter::new(std::io::Cursor::new(Vec::new()));
    let options = zip::write::FileOptions::default()
        .compression_method(zip::CompressionMethod::Deflated)
        .unix_permissions(mode);
    writer.start_file(name, options).ok()?;
    std::io::Write::write_all(&mut writer, data).ok()?;
    Some(writer.finish().ok()?.into_inner())
}

/// The name of an archive of the binary `name` built for `target`.
pub open spec fn archive_name(name: Seq<char>, target: Seq<char>, extension: Seq<char>) -> Seq<
    char,
> {
    name + seq!['-'] + target + extension
}

fn name_archive(name: &str, target: &Triple, extension: &str) -> (archive: String)
    ensures
        archive@ == archive_name(name@, triple_text(*target), extension@),
{
    proof {
        reveal_strlit("-");
    }
    let mut archive = String::from_str(name);
    archive.append("-");
    archive.append(triple_to_string(target).as_str());
    archive.append(extension);
    assert("-"@ =~= seq!['-']);
    archive
}

/// Packs the binary `name` with the content `data` into a gzip-compressed tar
/// archive named after the binary and the target.
pub fn tar_gz(data: &[u8], name: &str, target: &Triple) -> (packed: Result<
    (String, Vec<u8>),
    ArchiveError,
>)
    ensures
        match packed {
            Ok(archive) => {
                &&& archive.0@ == archive_name(name@, triple_text(*target), ".tar.gz"@)
                &&& tar_gz_of(name@, data@, EXECUTABLE, BEST) == Some(archive.1@)
            },
            Err(error) => error == ArchiveError::Tar && tar_gz_of(name@, data@, EXECUTABLE, BEST)
                is None,
        },
{
    let archive = name_archive(name, target, ".tar.gz");
    match tar_gz_bytes(name, data, EXECUTABLE, BEST) {
        Some(bytes) => Ok((archive, bytes)),
        None => Err(ArchiveError::Tar),
    }
}

/// Packs the binary `name` with the content `data` into a zip archive named
/// after the binary and the target.
pub fn zip(data: &[u8], name: &str, target: &Triple) -> (packed: Result<
    (String, Vec<u8>),
    ArchiveError,
>)
    ensures
        match packed {
            Ok(archive) => {
                &&& archive.0@ == archive_name(name@, triple_text(*target), ".zip"@)
                &&& zip_of(name@, data@, EXECUTABLE) == Some(archive.1@)
            },
            Err(error) => error == ArchiveError::Zip && zip_of(name@, data@, EXECUTABLE) is None,
        },
{
    let archive = name_archive(name, target, ".zip");
    match zip_bytes(name, data, EXECUTABLE) {
        Some(bytes) => Ok((archive, bytes)),
        None => Err(ArchiveError::Zip),
    }
}

/// Packs the binary as its target wants it: into a zip archive for Windows,
/// into a gzip-compressed tar archive for every other system.
pub fn pack(data: &[u8], name: &str, target: &Triple) -> (packed: Result<
    (String, Vec<u8>),
    ArchiveError,
>)
    ensures
        match packed {
            Ok(archive) => if target.system() == System::Windows {
                &&& archive.0@ == archive_name(name@, triple_text(*target), ".zip"@)
                &&& zip_of(name@, data@, EXECUTABLE) == Some(archive.1@)
            } else {
                &&& archive.0@ == archive_name(name@, triple_text(*target), ".tar.gz"@)
                &&& tar_gz_of(name@, data@, EXECUTABLE, BEST) == Some(archive.1@)
            },
            Err(ArchiveError::Zip) => target.system() == System::Windows && zip_of(
                name@,
                data@,
                EXECUTABLE,
            ) is None,
            Err(ArchiveError::Tar) => target.system() != System::Windows && tar_gz_of(
                name@,
                data@,
                EXECUTABLE,
                BEST,
            ) is None,
        },
{
    if target.is_windows() {
        zip(data, name, target)
    } else {
        tar_gz(data, name, target)
    }
}

} // verus!
