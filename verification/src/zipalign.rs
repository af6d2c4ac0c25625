//! The public face of the realignment core.
//!
//! A `ZipAlign` value carries the input path, the output path and the
//! alignment that one invocation works with.  The caller that owns the file
//! handles reads the input archive into bytes and hands them in; `align`
//! returns the rewritten archive as bytes for the caller to write out, and
//! `verify_zip` reports whether the archive is already aligned, with one
//! diagnostic line per entry when asked for.

use vstd::prelude::*;

verus! {

use crate::check::{spec_all_ok, spec_report, verify_entries};
use crate::engine::align_entries;
use crate::entry::AlignError;
use crate::layout::{aligned_archive, alignable, padding_at};
use crate::reader::{entries_readable, parsed_archive, read_archive};

/// One realignment invocation: where to read, where to write, and the
/// alignment to establish or check.
pub struct ZipAlign {
    /// Path of the archive to read.
    pub apk_path: String,
    /// Path the rewritten archive is meant for, if one was given.
    pub output_dir: Option<String>,
    /// The byte boundary stored entries must start on.
    pub alignment: u64,
}

impl ZipAlign {
    /// Bundles the paths and the alignment of one invocation.
    pub fn new(apk_path: String, output_dir: Option<String>, alignment: u64) -> (z: Self)
        ensures
            z.apk_path == apk_path,
            z.output_dir == output_dir,
            z.alignment == alignment,
    {
        Self { apk_path, output_dir, alignment }
    }

    /// Rewrites the archive held in `input` so that every entry's payload
    /// starts on a multiple of the alignment, preserving entry order,
    /// names, methods, permissions and payloads.
    ///
    /// The caller reports with `output_exists` whether the write target is
    /// already present; unless `force` is set, an existing target is
    /// refused before anything is read.  Past that, the rewrite succeeds
    /// exactly when the input parses, every entry reads, and the entries
    /// are alignable at this alignment: a zero alignment is refused, an
    /// input that does not parse or an entry that does not fit its header
    /// fields is a format error, and a padding past the 16-bit
    /// extra-field budget is an overflow, naming the entry.
    pub fn align(&self, input: &Vec<u8>, output_exists: bool, force: bool) -> (r: Result<
        Vec<u8>,
        AlignError,
    >)
        ensures
            (output_exists && !force) <==> r == Err::<Vec<u8>, AlignError>(
                AlignError::OutputExists,
            ),
            (r matches Ok(out) ==> (parsed_archive(input@) matches Some(es) && alignable(
                es,
                self.alignment as int,
            ) && out@ == aligned_archive(es, self.alignment as int))),
            r is Ok <==> (!(output_exists && !force) && (parsed_archive(input@) matches Some(es)
                && entries_readable(input@) && alignable(es, self.alignment as int))),
            !(output_exists && !force) && parsed_archive(input@) is None ==> r == Err::<
                Vec<u8>,
                AlignError,
            >(AlignError::Format(None::<u64>)),
            r == Err::<Vec<u8>, AlignError>(AlignError::InvalidAlignment) ==> self.alignment == 0,
            (r matches Err(e) ==> (e matches AlignError::PaddingOverflow(i) ==> (parsed_archive(
                input@,
            ) matches Some(es) && i < es.len() && padding_at(es, self.alignment as int, i as int)
                > 0xFFFB))),
    {
        if output_exists && !force {
            return Err(AlignError::OutputExists);
        }
        let entries = match read_archive(input) {
            Ok(v) => v,
            Err(e) => {
                return Err(e);
            },
        };
        align_entries(&entries, self.alignment)
    }

    /// Checks whether the archive held in `input` already satisfies the
    /// alignment, reporting one diagnostic line per entry when `verbose`
    /// is set.  The result is `true` exactly when no stored entry is
    /// misaligned; past the refusal of a zero alignment, the check
    /// succeeds exactly when the input parses and every entry reads.
    pub fn verify_zip(&self, input: &Vec<u8>, verbose: bool) -> (r: Result<
        (bool, Vec<Vec<u8>>),
        AlignError,
    >)
        ensures
            self.alignment == 0 <==> r == Err::<(bool, Vec<Vec<u8>>), AlignError>(
                AlignError::InvalidAlignment,
            ),
            (r matches Ok(p) ==> (parsed_archive(input@) matches Some(es) && p.0 == spec_all_ok(
                es,
                self.alignment as int,
            ) && (verbose ==> p.1@.map_values(|l: Vec<u8>| l@) == spec_report(
                es,
                self.alignment as int,
            )) && (!verbose ==> p.1@.len() == 0))),
            r is Ok <==> (self.alignment >= 1 && parsed_archive(input@) is Some
                && entries_readable(input@)),
            (r matches Err(e) ==> (e == AlignError::InvalidAlignment || e matches
                AlignError::Format(_))),
            self.alignment >= 1 && parsed_archive(input@) is None ==> r == Err::<
                (bool, Vec<Vec<u8>>),
                AlignError,
            >(AlignError::Format(None::<u64>)),
    {
        if self.alignment == 0 {
            return Err(AlignError::InvalidAlignment);
        }
        let entries = match read_archive(input) {
            Ok(v) => v,
            Err(e) => {
                return Err(e);
            },
        };
        let (ok, lines) = verify_entries(&entries, self.alignment, verbose);
        Ok((ok, lines))
    }
}

} // verus!
