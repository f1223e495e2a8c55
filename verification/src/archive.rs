//! Packaging an ordered set of in-memory files into a gzip-compressed tar
//! archive. The serialization of one entry and the compression are the work of
//! outside crates; the assembly of the archive from its entries is verified.

use vstd::prelude::*;
use vstd::utf8::encode_utf8;

verus! {

/// One file to be packaged: a path inside the archive and its text content.
#[derive(Debug)]
pub struct FileEntry {
    pub path: String,
    pub content: String,
}

/// Why no archive was produced.
#[derive(Debug)]
pub enum ArchiveError {
    /// The entry with this path could not be added.
    EntryFailed { path: String, detail: String },
    /// Finalizing the compressed stream failed.
    CompressFailed { detail: String },
}

/// The file mode every archived entry carries.
pub const FILE_MODE: u32 = 0o644;

/// The bytes `tar` writes for one entry: a fresh GNU header with the given
/// mode and the data's size, followed by the data, zero-padded to a block
/// boundary. Named, not spelled out: the tar layout is the outside crate's.
/// The path is written as tar converts it for the build's platform, so the
/// name is read for one platform at a time.
pub uninterp spec fn tar_entry_bytes(path: Seq<char>, mode: u32, data: Seq<u8>) -> Seq<u8>;

/// Whether `tar` accepts one entry: appending it either writes its bytes or
/// rejects its path, and which of the two happens is a function of the
/// arguments alone. Named, not spelled out: path acceptance is the outside
/// crate's rule.
pub uninterp spec fn tar_entry_ok(path: Seq<char>, mode: u32, data: Seq<u8>) -> bool;

/// The gzip stream `flate2` produces for the given bytes at the default
/// compression level. Named, not spelled out: the stream is the outside
/// crate's.
pub uninterp spec fn gzip_of(data: Seq<u8>) -> Seq<u8>;

/// The serialized entries of an archive, in the order given.
pub open spec fn entries_bytes(entries: Seq<FileEntry>) -> Seq<u8>
    decreases entries.len(),
{
    if entries.len() == 0 {
        Seq::<u8>::empty()
    } else {
        entries_bytes(entries.drop_last()) + tar_entry_bytes(
            entries.last().path@,
            FILE_MODE,
            encode_utf8(entries.last().content@),
        )
    }
}

/// The two zero blocks that end a tar stream.
pub open spec fn terminator_bytes() -> Seq<u8> {
    Seq::new(1024, |i: int| 0u8)
}

/// The whole compressed archive owed for an ordered set of entries.
pub open spec fn archive_bytes(entries: Seq<FileEntry>) -> Seq<u8> {
    gzip_of(entries_bytes(entries) + terminator_bytes())
}

/// Whether `tar` accepts this entry, under the fixed file mode.
pub open spec fn entry_ok(e: FileEntry) -> bool {
    tar_entry_ok(e.path@, FILE_MODE, encode_utf8(e.content@))
}

/// Relies on tar's `Builder::append_data` with a fresh GNU header carrying the
/// data's size and the given mode, checksummed. The sink is an in-memory
/// buffer, so the call fails only when path validation rejects the path, and
/// both the acceptance and the bytes written are functions of the arguments
/// alone.
#[verifier::external_body]
fn tar_entry(path: &str, mode: u32, data: &[u8]) -> (r: Result<Vec<u8>, String>)
    ensures
        r is Ok <==> tar_entry_ok(path@, mode, data@),
        r matches Ok(bytes) ==> bytes@ == tar_entry_bytes(path@, mode, data@),
{
    let mut builder = tar::Builder::new(Vec::new());
    let mut header = tar::Header::new_gnu();
    header.set_size(data.len() as u64);
    header.set_mode(mode);
    header.set_cksum();
    match builder.append_data(&mut header, path, data) {
        Ok(()) => Ok(std::mem::take(builder.get_mut())),
        Err(e) => Err(e.to_string()),
    }
}

/// Relies on flate2's `write::GzEncoder` at the default compression level,
/// whose gzip header this version fixes (zero mtime, operating-system byte
/// 255): the compressed stream is a function of the input bytes alone. Errors
/// can only propagate from the inner writer, here an in-memory buffer, so the
/// call always succeeds.
#[verifier::external_body]
fn gzip(data: &[u8]) -> (r: Result<Vec<u8>, String>)
    ensures
        r is Ok,
        r matches Ok(out) ==> out@ == gzip_of(data@),
{
    let mut encoder = flate2::write::GzEncoder::new(Vec::new(), flate2::Compression::default());
    match std::io::Write::write_all(&mut encoder, data) {
        Ok(()) => encoder.finish().map_err(|e| e.to_string()),
        Err(e) => Err(e.to_string()),
    }
}

/// Build the compressed archive holding every entry, in order. It succeeds
/// exactly when tar accepts every entry, and then yields the whole archive's
/// bytes; otherwise the failure names the first entry that tar rejects.
pub fn create_archive(files: Vec<FileEntry>) -> (r: Result<Vec<u8>, ArchiveError>)
    ensures
        r is Ok <==> (forall|i: int| 0 <= i < files@.len() ==> #[trigger] entry_ok(files@[i])),
        r matches Ok(bytes) ==> bytes@ == archive_bytes(files@),
        r matches Err(ArchiveError::EntryFailed { path, .. }) ==> exists|i: int|
            #![trigger entry_ok(files@[i])]
            0 <= i < files@.len() && !entry_ok(files@[i]) && files@[i].path@ == path@ && (
            forall|j: int| 0 <= j < i ==> #[trigger] entry_ok(files@[j])),
{
    let mut buf: Vec<u8> = Vec::new();
    let mut idx: usize = 0;
    while idx < files.len()
        invariant
            idx <= files@.len(),
            buf@ == entries_bytes(files@.take(idx as int)),
            forall|j: int| 0 <= j < idx ==> #[trigger] entry_ok(files@[j]),
        decreases files@.len() - idx,
    {
        let entry = &files[idx];
        match tar_entry(entry.path.as_str(), FILE_MODE, entry.content.as_str().as_bytes()) {
            Ok(mut chunk) => {
                buf.append(&mut chunk);
            },
            Err(detail) => {
                proof {
                    assert(!entry_ok(files@[idx as int]));
                }
                return Err(ArchiveError::EntryFailed { path: entry.path.clone(), detail });
            },
        }
        proof {
            assert(files@.take(idx + 1).drop_last() =~= files@.take(idx as int));
            assert(files@.take(idx + 1).last() == files@[idx as int]);
        }
        idx = idx + 1;
    }
    proof {
        assert(files@.take(files@.len() as int) =~= files@);
    }
    let ghost entry_part: Seq<u8> = buf@;
    let mut k: usize = 0;
    while k < 1024
        invariant
            k <= 1024,
            buf@ == entry_part + Seq::new(k as nat, |i: int| 0u8),
        decreases 1024 - k,
    {
        buf.push(0u8);
        proof {
            assert(buf@ =~= entry_part + Seq::new((k + 1) as nat, |i: int| 0u8));
        }
        k = k + 1;
    }
    proof {
        assert(buf@ =~= entries_bytes(files@) + terminator_bytes());
    }
    match gzip(buf.as_slice()) {
        Ok(out) => Ok(out),
        Err(detail) => Err(ArchiveError::CompressFailed { detail }),
    }
}

} // verus!
