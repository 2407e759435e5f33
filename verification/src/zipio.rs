//! The codec boundary: thin trusted wrappers around the `zip` crate, which
//! does the container encoding and the byte-level compression. The container
//! lives in memory on both sides; everything around these wrappers is
//! verified against their contracts.
//!
//! The model of a container entry is its stored name bytes, its decompressed
//! payload, the unix mode recorded for it, and its recorded compression
//! method (nothing, for a method outside this library's set).

use vstd::prelude::*;
use std::io::Read;
use zip::CompressionMethod as ZipMethod;
use zip::result::ZipError::{CompressionMethodNotSupported, UnsupportedArchive};
use crate::entries::{ArchiveError, CompressionMethod, RawEntry, dir_mode_bits, file_mode_bits};
use crate::path_map::utf8_valid;

verus! {

/// The longest stored name a container record can carry.
pub const MAX_NAME_LEN: usize = 0xffff;

/// A payload bound under which a record never needs the large-file format:
/// comfortably below the four-gigabyte limit, leaving room for the worst-case
/// expansion of an incompressible payload.
pub const MAX_PLAIN_PAYLOAD: usize = 0xf0000000;

/// Every record's stored name and payload fit the container format without
/// the large-file extension. An oversize payload is not rejected at once:
/// the codec defers its failure to the next record or to the trailing index,
/// so the builder's success promises are all conditioned on this.
pub open spec fn within_format_limits(
    rs: Seq<(Seq<u8>, Seq<u8>, Option<u32>, Option<CompressionMethod>)>,
) -> bool {
    forall|k: int|
        0 <= k < rs.len() ==> (#[trigger] rs[k].0).len() <= MAX_NAME_LEN && rs[k].1.len()
            < MAX_PLAIN_PAYLOAD
}

/// What a full parse of `bytes` as a zip container yields: every entry of the
/// central directory in order, as (stored name, decompressed payload, unix
/// mode, recorded method); nothing when the index or any payload cannot be
/// read. Parsing is a function of the bytes alone.
pub uninterp spec fn zip_parse(bytes: Seq<u8>) -> Option<
    Seq<(Seq<u8>, Seq<u8>, Option<u32>, Option<CompressionMethod>)>,
>;

/// An in-progress container: wraps the zip writer over an in-memory stream.
#[verifier::external_body]
pub struct ContainerBuilder {
    inner: zip::ZipWriter<std::io::Cursor<Vec<u8>>>,
}

/// The entries recorded so far in a builder, in insertion order.
pub uninterp spec fn builder_entries(b: ContainerBuilder) -> Seq<
    (Seq<u8>, Seq<u8>, Option<u32>, Option<CompressionMethod>),
>;

/// An opened container: wraps the zip reader over an in-memory stream.
#[verifier::external_body]
pub struct ContainerReader {
    inner: zip::ZipArchive<std::io::Cursor<Vec<u8>>>,
}

/// The entries this reader yields, in central-directory order.
pub uninterp spec fn reader_entries(r: ContainerReader) -> Seq<
    (Seq<u8>, Seq<u8>, Option<u32>, Option<CompressionMethod>),
>;

/// Whether entry `i` of this reader can be read back without error. Reading
/// an in-memory container is deterministic, so this is fixed per entry.
pub uninterp spec fn entry_readable(r: ContainerReader, i: int) -> bool;

/// Relies on `zip::ZipWriter::new`: a writer over a fresh in-memory stream
/// holds no entries.
#[verifier::external_body]
pub(crate) fn builder_new() -> (b: ContainerBuilder)
    ensures
        builder_entries(b).len() == 0,
{
    ContainerBuilder { inner: zip::ZipWriter::new(std::io::Cursor::new(Vec::new())) }
}

/// Relies on `zip::ZipWriter::start_file` and `std::io::Write::write_all`:
/// on success the entry is appended under exactly the given name (valid
/// UTF-8, so the string conversion keeps the bytes), with the given payload,
/// the requested method, and the permission bits plus the regular-file flag
/// as its recorded unix mode. On an in-memory stream the only failures the
/// source shows are a stored name already present, a name too long for a
/// record, and a payload past the large-file limit — and an oversize payload
/// surfaces only when the following record is started: a call free of all
/// three, after calls that kept within the format's limits, succeeds.
#[verifier::external_body]
pub(crate) fn builder_add_file(
    b: &mut ContainerBuilder,
    name: &Vec<u8>,
    data: &Vec<u8>,
    mode: u32,
    method: CompressionMethod,
) -> (r: Result<(), ArchiveError>)
    requires
        utf8_valid(name@),
    ensures
        r is Ok ==> builder_entries(*final(b)) == builder_entries(*old(b)).push(
            (name@, data@, Some(file_mode_bits(mode)), Some(method)),
        ),
        within_format_limits(builder_entries(*old(b))) && (forall|k: int|
            0 <= k < builder_entries(*old(b)).len() ==> (#[trigger] builder_entries(*old(b))[k].0)
                != name@) && name@.len() <= MAX_NAME_LEN && data@.len() < MAX_PLAIN_PAYLOAD
            ==> r is Ok,
{
    let zm = match method {
        CompressionMethod::Stored => ZipMethod::Stored,
        CompressionMethod::Deflated => ZipMethod::Deflated,
        CompressionMethod::Zstd => ZipMethod::Zstd,
    };
    let opts = zip::write::SimpleFileOptions::default().compression_method(zm).unix_permissions(mode);
    let n = String::from_utf8_lossy(name).into_owned();
    if b.inner.start_file(n, opts).is_err() {
        return Err(ArchiveError::Io);
    }
    if std::io::Write::write_all(&mut b.inner, data).is_err() {
        return Err(ArchiveError::Io);
    }
    Ok(())
}

/// Relies on `zip::ZipWriter::add_directory`: on success the entry is
/// appended under the given name (valid UTF-8, not ending in a separator)
/// with a trailing separator added, an empty payload, the stored method, and
/// the permission bits plus the directory flag as its recorded unix mode. On
/// an in-memory stream the only failures the source shows are a stored name
/// already present, a name too long for a record, and a deferred failure of
/// an earlier oversize payload: a call free of all three succeeds.
#[verifier::external_body]
pub(crate) fn builder_add_dir(b: &mut ContainerBuilder, name: &Vec<u8>, mode: u32) -> (r: Result<
    (),
    ArchiveError,
>)
    requires
        utf8_valid(name@),
        name@.len() > 0,
        name@[name@.len() - 1] != 47,
        name@[name@.len() - 1] != 92,
    ensures
        r is Ok ==> builder_entries(*final(b)) == builder_entries(*old(b)).push(
            (
                name@ + seq![47u8],
                Seq::<u8>::empty(),
                Some(dir_mode_bits(mode)),
                Some(CompressionMethod::Stored),
            ),
        ),
        within_format_limits(builder_entries(*old(b))) && (forall|k: int|
            0 <= k < builder_entries(*old(b)).len() ==> (#[trigger] builder_entries(*old(b))[k].0)
                != name@ + seq![47u8]) && name@.len() + 1 <= MAX_NAME_LEN ==> r is Ok,
{
    let opts = zip::write::SimpleFileOptions::default().unix_permissions(mode);
    let n = String::from_utf8_lossy(name).into_owned();
    match b.inner.add_directory(n, opts) {
        Ok(_) => Ok(()),
        Err(_) => Err(ArchiveError::Io),
    }
}

/// Relies on `zip::ZipWriter::finish` writing the trailing index, and on the
/// zip format round trip: the bytes the writer produces parse back, by
/// `zip::ZipArchive`, to exactly the entries that were added. On an in-memory
/// stream the index and footers are plain writes, so when every recorded
/// entry kept within the format's limits — an oversize payload fails only
/// here or at the next record — finishing succeeds.
#[verifier::external_body]
pub(crate) fn builder_finish(b: ContainerBuilder) -> (r: Result<Vec<u8>, ArchiveError>)
    ensures
        within_format_limits(builder_entries(b)) ==> r is Ok,
        r matches Ok(bytes) ==> zip_parse(bytes@) == Some(builder_entries(b)),
{
    match b.inner.finish() {
        Ok(c) => Ok(c.into_inner()),
        Err(_) => Err(ArchiveError::Io),
    }
}

/// Relies on `zip::ZipArchive::new`: parsing the central directory of the
/// given bytes. It succeeds whenever the full parse does, and an unreadable
/// index is reported as corruption; on success the reader holds the entries
/// of the index, and the full parse succeeds exactly when every one of them
/// can be read back.
#[verifier::external_body]
pub(crate) fn reader_open(bytes: &Vec<u8>) -> (r: Result<ContainerReader, ArchiveError>)
    ensures
        zip_parse(bytes@) is Some ==> r is Ok,
        r is Err ==> zip_parse(bytes@) is None,
        r matches Err(err) ==> err == ArchiveError::Corrupt,
        r matches Ok(rd) ==> (zip_parse(bytes@) is Some <==> (forall|i: int|
            0 <= i < reader_entries(rd).len() ==> #[trigger] entry_readable(rd, i))),
        zip_parse(bytes@) is Some ==> (r matches Ok(rd) ==> reader_entries(rd) == zip_parse(
            bytes@,
        )->Some_0),
{
    match zip::ZipArchive::new(std::io::Cursor::new(bytes.clone())) {
        Ok(a) => Ok(ContainerReader { inner: a }),
        Err(_) => Err(ArchiveError::Corrupt),
    }
}

/// Relies on `zip::ZipArchive::len`: the number of entries in the index.
#[verifier::external_body]
pub(crate) fn reader_len(r: &ContainerReader) -> (n: usize)
    ensures
        n == reader_entries(*r).len(),
{
    r.inner.len()
}

/// Relies on `zip::ZipArchive::by_index`, `ZipFile::name_raw`,
/// `ZipFile::unix_mode`, `ZipFile::compression`, `ZipFile::comment` and
/// `std::io::Read::read_to_end`: reading back one entry by its index, with
/// its payload decompressed. The comment is carried for diagnostics only,
/// with nothing claimed of it. Reading an in-memory container is
/// deterministic and alters no entry; a record whose compression method the
/// codec lacks is the unsupported failure, any other failure is corruption.
#[verifier::external_body]
pub(crate) fn reader_entry(r: &mut ContainerReader, i: usize) -> (e: Result<RawEntry, ArchiveError>)
    requires
        i < reader_entries(*old(r)).len(),
    ensures
        reader_entries(*final(r)) == reader_entries(*old(r)),
        forall|j: int| entry_readable(*final(r), j) == entry_readable(*old(r), j),
        e is Ok <==> entry_readable(*old(r), i as int),
        e matches Ok(re) ==> (re.name@, re.data@, re.mode, re.method) == reader_entries(
            *old(r),
        )[i as int],
        e matches Err(err) ==> err == ArchiveError::Corrupt || err == ArchiveError::Unsupported,
{
    let mut f = match r.inner.by_index(i) {
        Ok(f) => f,
        Err(UnsupportedArchive(_)) | Err(CompressionMethodNotSupported(_)) => return Err(ArchiveError::Unsupported),
        Err(_) => return Err(ArchiveError::Corrupt),
    };
    let method = match f.compression() {
        ZipMethod::Stored => Some(CompressionMethod::Stored),
        ZipMethod::Deflated => Some(CompressionMethod::Deflated),
        ZipMethod::Zstd => Some(CompressionMethod::Zstd),
        _ => None,
    };
    let (name, mode, comment) = (f.name_raw().to_vec(), f.unix_mode(), f.comment().to_string());
    let mut data = Vec::new();
    if f.read_to_end(&mut data).is_err() { return Err(ArchiveError::Corrupt); }
    Ok(RawEntry { name, data, mode, method, comment })
}

} // verus!
