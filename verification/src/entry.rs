//! The entry model shared by the alignment engine and the verifier.
//!
//! One `ZipEntry` describes one unit inside an archive: its name, its
//! compression method, its declared Unix permissions, the checksum and sizes
//! recorded for it, its raw (possibly compressed) payload bytes, and the
//! absolute offset at which that payload sits in the archive it was read
//! from.  The engine repositions entries; it never re-encodes them, so the
//! payload is carried verbatim.

use vstd::prelude::*;

verus! {

/// Method code for an entry stored without compression.
pub const METHOD_STORED: u16 = 0;

/// Method code for an entry compressed with deflate.
pub const METHOD_DEFLATED: u16 = 8;

/// Unix permissions assumed when the source archive does not declare any.
pub const DEFAULT_UNIX_MODE: u32 = 0o644;

/// One unit inside an archive.
pub struct ZipEntry {
    /// Byte-exact entry name, preserved verbatim.
    pub name: Vec<u8>,
    /// Compression method code (`METHOD_STORED`, `METHOD_DEFLATED`, ...).
    pub method: u16,
    /// Declared Unix permissions, if the source archive carried any.
    pub unix_mode: Option<u32>,
    /// Checksum of the uncompressed content, as recorded in the archive.
    pub crc32: u32,
    /// Size of the content once decompressed, as recorded in the archive.
    pub uncompressed_size: u64,
    /// The payload exactly as stored: `data.len()` is the compressed size.
    pub data: Vec<u8>,
    /// Where the payload begins in the archive this entry was read from.
    pub data_start: u64,
}

/// The mathematical image of a `ZipEntry`.
pub struct EntryModel {
    pub name: Seq<u8>,
    pub method: u16,
    pub unix_mode: Option<u32>,
    pub crc32: u32,
    pub uncompressed_size: u64,
    pub data: Seq<u8>,
    pub data_start: u64,
}

impl View for ZipEntry {
    type V = EntryModel;

    open spec fn view(&self) -> EntryModel {
        EntryModel {
            name: self.name@,
            method: self.method,
            unix_mode: self.unix_mode,
            crc32: self.crc32,
            uncompressed_size: self.uncompressed_size,
            data: self.data@,
            data_start: self.data_start,
        }
    }
}

/// The models of a sequence of entries.
pub open spec fn models_of(es: Seq<ZipEntry>) -> Seq<EntryModel> {
    es.map_values(|e: ZipEntry| e@)
}

/// The Unix permissions the engine writes for an entry: the declared ones,
/// or the conventional default when the source lacks them.
pub open spec fn spec_mode(e: EntryModel) -> u32 {
    match e.unix_mode {
        Some(m) => m,
        None => DEFAULT_UNIX_MODE,
    }
}

/// Whether every field of the entry fits the 16- and 32-bit header fields
/// that the rewritten archive records it in.
pub open spec fn entry_fits(e: EntryModel) -> bool {
    &&& e.name.len() <= 0xFFFF
    &&& e.data.len() <= 0xFFFF_FFFF
    &&& e.uncompressed_size <= 0xFFFF_FFFF
    &&& spec_mode(e) <= 0xFFFF
}

impl ZipEntry {
    /// Checks `entry_fits` on machine integers.
    pub fn fits(&self) -> (b: bool)
        ensures
            b == entry_fits(self@),
    {
        let mode_ok = match self.unix_mode {
            Some(m) => m <= 0xFFFF,
            None => true,
        };
        self.name.len() <= 0xFFFF && self.data.len() <= 0xFFFF_FFFF
            && self.uncompressed_size <= 0xFFFF_FFFF && mode_ok
    }

    /// The permissions the engine will write for this entry.
    pub fn mode(&self) -> (m: u32)
        ensures
            m == spec_mode(self@),
    {
        match self.unix_mode {
            Some(m) => m,
            None => DEFAULT_UNIX_MODE,
        }
    }
}

/// Errors of the realignment core.
///
/// Entry-level failures carry the index of the offending entry, which with
/// the archive's entry order names it; the archive path itself is known
/// only to the caller that owns the file handles, which adds it when
/// reporting.  `NotFound`, `OutputExists` and `Io` describe conditions
/// that the same caller reports through this taxonomy.
#[derive(Debug, Clone, PartialEq, Eq)]
pub enum AlignError {
    /// The input path does not exist.
    NotFound,
    /// The archive, or the carried entry, cannot be parsed.
    Format(Option<u64>),
    /// The write target exists and overwriting was not allowed.
    OutputExists,
    /// The carried entry's padding does not fit the 16-bit extra-field
    /// budget.
    PaddingOverflow(u64),
    /// An underlying read or write failed.
    Io,
    /// The requested alignment is zero.
    InvalidAlignment,
    /// An offset or directory size exceeds what the archive format records.
    TooLarge,
}

} // verus!
