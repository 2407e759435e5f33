//! The data model of the archive engine: entry records on both sides of the
//! container boundary, the compression methods, and the error kinds.

use vstd::prelude::*;

verus! {

/// Compression method for file payloads: a closed set, dispatched to the codec.
#[derive(Clone, Copy, Debug, PartialEq, Eq, Structural)]
pub enum CompressionMethod {
    Stored,
    Deflated,
    Zstd,
}

/// Kind of a filesystem or archive entry.
#[derive(Clone, Copy, Debug, PartialEq, Eq, Structural)]
pub enum EntryKind {
    File,
    Directory,
}

/// Error on mapping a filesystem path to an archive-safe relative name.
#[derive(Clone, Copy, Debug, PartialEq, Eq, Structural)]
pub enum PathError {
    /// The path would resolve outside the traversal or extraction root.
    Escape,
}

/// Error of a whole archive or extract operation.
#[derive(Clone, Copy, Debug, PartialEq, Eq, Structural)]
pub enum ArchiveError {
    /// A write into or read out of the container stream failed.
    Io,
    /// The container's index or a payload could not be parsed.
    Corrupt,
    /// The operation does not apply to this input.
    Unsupported,
}

/// A filesystem entry handed to the writer by the (unverified) tree walker:
/// its path as bytes, its kind, its content (empty for directories), and its
/// permission bits.
pub struct FsEntry {
    pub path: Vec<u8>,
    pub kind: EntryKind,
    pub data: Vec<u8>,
    pub mode: u32,
}

/// Mathematical view of an `FsEntry`.
pub struct FsEntryV {
    pub path: Seq<u8>,
    pub kind: EntryKind,
    pub data: Seq<u8>,
    pub mode: u32,
}

impl View for FsEntry {
    type V = FsEntryV;

    open spec fn view(&self) -> FsEntryV {
        FsEntryV { path: self.path@, kind: self.kind, data: self.data@, mode: self.mode }
    }
}

/// A raw container entry as the codec hands it back: the stored name bytes,
/// the decompressed payload, and the unix mode if the container records one.
pub struct RawEntry {
    pub name: Vec<u8>,
    pub data: Vec<u8>,
    pub mode: Option<u32>,
    /// The recorded compression method, when it is one of the library's set.
    pub method: Option<CompressionMethod>,
    /// Free-text comment of the record: diagnostic only, no semantic effect.
    pub comment: String,
}

/// An entry of the container after validation: its name is archive-safe.
pub struct ExtractedEntry {
    pub name: Vec<u8>,
    pub kind: EntryKind,
    pub data: Vec<u8>,
    pub mode: Option<u32>,
    /// Free-text comment of the record: diagnostic only, no semantic effect.
    pub comment: String,
}

/// Mathematical view of an `ExtractedEntry`.
pub struct ExtractedV {
    pub name: Seq<u8>,
    pub kind: EntryKind,
    pub data: Seq<u8>,
    pub mode: Option<u32>,
}

impl View for ExtractedEntry {
    type V = ExtractedV;

    open spec fn view(&self) -> ExtractedV {
        ExtractedV { name: self.name@, kind: self.kind, data: self.data@, mode: self.mode }
    }
}

/// One step of an extraction plan: create this directory, or write this file
/// with these bytes, at this path, then apply these permission bits.
pub struct FsAction {
    pub path: Vec<u8>,
    pub kind: EntryKind,
    pub data: Vec<u8>,
    pub mode: Option<u32>,
    /// Free-text comment of the record: diagnostic only, no semantic effect.
    pub comment: String,
}

/// Mathematical view of an `FsAction`.
pub struct FsActionV {
    pub path: Seq<u8>,
    pub kind: EntryKind,
    pub data: Seq<u8>,
    pub mode: Option<u32>,
}

impl View for FsAction {
    type V = FsActionV;

    open spec fn view(&self) -> FsActionV {
        FsActionV { path: self.path@, kind: self.kind, data: self.data@, mode: self.mode }
    }
}

/// The unix mode the container records for a file entry written with the
/// given permission bits: the permission bits plus the regular-file flag.
/// Bits above the permission mask (setuid, setgid, sticky) are masked off by
/// the container format's writer and do not round-trip.
pub open spec fn file_mode_bits(m: u32) -> u32 {
    (m & 0o777) | 0o100000
}

/// The unix mode the container records for a directory entry written with
/// the given permission bits: the permission bits plus the directory flag.
/// Bits above the permission mask (setuid, setgid, sticky) are masked off by
/// the container format's writer and do not round-trip.
pub open spec fn dir_mode_bits(m: u32) -> u32 {
    (m & 0o777) | 0o40000
}

} // verus!
