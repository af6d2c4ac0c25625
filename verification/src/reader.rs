//! The archive reader: a thin, trusted boundary around the `zip` crate.
//!
//! Parsing an existing archive is delegated to `zip::ZipArchive`, which
//! reads the central directory and hands out each entry without
//! decompressing it.  What that parse yields is named by spec functions:
//! `parsed_archive`, the entry models as a function of the input bytes;
//! `entries_readable`, whether every entry can actually be handed out (its
//! local header is well formed where the central directory points); and
//! their counterparts on an opened archive.  Everything after the boundary
//! — iterating the entries into plain values — is verified, and succeeds
//! exactly on archives that parse and whose entries read.

use vstd::prelude::*;

verus! {

use crate::entry::{models_of, AlignError, EntryModel, ZipEntry};

#[verifier::external_type_specification]
#[verifier::external_body]
#[verifier::reject_recursive_types(T)]
pub struct ExCursor<T>(std::io::Cursor<T>);

#[verifier::external_type_specification]
#[verifier::external_body]
#[verifier::reject_recursive_types(R)]
pub struct ExZipArchive<R>(zip::read::ZipArchive<R>);

/// What parsing `bytes` as an archive yields: the ordered entry models, or
/// nothing when the bytes are not a well-formed archive.  The parse is a
/// function of the bytes alone.
pub uninterp spec fn parsed_archive(bytes: Seq<u8>) -> Option<Seq<EntryModel>>;

/// Whether every entry of the archive held in `bytes` can be handed out.
/// Like the parse, this is a function of the bytes alone.
pub uninterp spec fn entries_readable(bytes: Seq<u8>) -> bool;

/// The ordered entry models that an opened archive holds.
pub uninterp spec fn archive_entries(a: zip::read::ZipArchive<std::io::Cursor<Vec<u8>>>) -> Seq<
    EntryModel,
>;

/// Whether entry `i` of an opened archive can be handed out: its local
/// header is well formed where the central directory points.
pub uninterp spec fn entry_readable(
    a: zip::read::ZipArchive<std::io::Cursor<Vec<u8>>>,
    i: int,
) -> bool;

/// Whether every entry an opened archive holds can be handed out.
pub open spec fn archive_readable(a: zip::read::ZipArchive<std::io::Cursor<Vec<u8>>>) -> bool {
    forall|i: int| 0 <= i < archive_entries(a).len() ==> entry_readable(a, i)
}

/// Relies on `zip::ZipArchive::new`: parses the central directory of the
/// archive held in `bytes`; success, the resulting entry list and the
/// readability of each entry are functions of the bytes alone.
#[verifier::external_body]
fn open_archive(bytes: &Vec<u8>) -> (r: Result<
    zip::read::ZipArchive<std::io::Cursor<Vec<u8>>>,
    AlignError,
>)
    ensures
        (r matches Ok(a) ==> parsed_archive(bytes@) == Some(archive_entries(a))
            && archive_readable(a) == entries_readable(bytes@)),
        (r matches Err(e) ==> e == AlignError::Format(None::<u64>)),
        r is Ok <==> parsed_archive(bytes@) is Some,
{
    match zip::read::ZipArchive::new(std::io::Cursor::new(bytes.clone())) {
        Ok(a) => Ok(a),
        Err(_) => Err(AlignError::Format(None)),
    }
}

/// Relies on `zip::ZipArchive::len`: the number of entries the archive
/// holds.
#[verifier::external_body]
fn archive_len(a: &zip::read::ZipArchive<std::io::Cursor<Vec<u8>>>) -> (n: usize)
    ensures
        n == archive_entries(*a).len(),
{
    a.len()
}

/// Relies on `zip::ZipArchive::by_index_raw`: hands out entry `i` without
/// decompressing it, succeeding exactly when that entry's local header is
/// well formed, and leaving the entry list and every entry's readability
/// unchanged.  The handed-out item is converted to plain values — its raw
/// payload read to the end (from the in-memory cursor, which cannot
/// fail), the remaining fields copied.
#[verifier::external_body]
fn read_entry(a: &mut zip::read::ZipArchive<std::io::Cursor<Vec<u8>>>, i: usize) -> (r: Result<
    ZipEntry,
    AlignError,
>)
    requires
        i < archive_entries(*old(a)).len(),
    ensures
        archive_entries(*final(a)) == archive_entries(*old(a)),
        forall|j: int| #[trigger] entry_readable(*final(a), j) == entry_readable(*old(a), j),
        r is Ok <==> entry_readable(*old(a), i as int),
        (r matches Ok(e) ==> e@ == archive_entries(*old(a))[i as int]),
        (r matches Err(e) ==> e == AlignError::Format(Some(i as u64))),
{
    let mut f = match a.by_index_raw(i) {
        Ok(f) => f,
        Err(_) => return Err(AlignError::Format(Some(i as u64))),
    };
    let mut data: Vec<u8> = Vec::new();
    let _ = std::io::Read::read_to_end(&mut f, &mut data);
    #[allow(deprecated)]
    let method = f.compression().to_u16();
    let (name, unix_mode, crc32) = (f.name_raw().to_vec(), f.unix_mode(), f.crc32());
    let (uncompressed_size, data_start) = (f.size(), f.data_start());
    Ok(ZipEntry { name, method, unix_mode, crc32, uncompressed_size, data, data_start })
}

/// Reads the whole archive held in `bytes` into the ordered entry
/// sequence; succeeds exactly when the bytes parse as an archive and
/// every entry reads.
pub fn read_archive(bytes: &Vec<u8>) -> (r: Result<Vec<ZipEntry>, AlignError>)
    ensures
        (r matches Ok(v) ==> parsed_archive(bytes@) == Some(models_of(v@))),
        r is Ok <==> (parsed_archive(bytes@) is Some && entries_readable(bytes@)),
        (r matches Err(e) ==> e matches AlignError::Format(_)),
        parsed_archive(bytes@) is None ==> r == Err::<Vec<ZipEntry>, AlignError>(
            AlignError::Format(None::<u64>),
        ),
{
    let mut archive = match open_archive(bytes) {
        Ok(a) => a,
        Err(e) => return Err(e),
    };
    let ghost archive0 = archive;
    let ghost contents = archive_entries(archive);
    let n = archive_len(&archive);
    let mut v: Vec<ZipEntry> = Vec::new();
    let mut i: usize = 0;
    while i < n
        invariant
            parsed_archive(bytes@) == Some(contents),
            archive_readable(archive0) == entries_readable(bytes@),
            n == contents.len(),
            archive_entries(archive0) == contents,
            archive_entries(archive) == contents,
            forall|j: int| #[trigger] entry_readable(archive, j) == entry_readable(archive0, j),
            i <= n,
            forall|j: int| 0 <= j < i ==> #[trigger] entry_readable(archive0, j),
            models_of(v@) == contents.take(i as int),
            v@.len() == i,
        decreases n - i,
    {
        let ghost before = archive;
        let e = match read_entry(&mut archive, i) {
            Ok(e) => e,
            Err(err) => {
                proof {
                    assert(!entry_readable(before, i as int));
                    assert(entry_readable(before, i as int) == entry_readable(
                        archive0,
                        i as int,
                    ));
                    assert(!archive_readable(archive0));
                }
                return Err(err);
            },
        };
        proof {
            assert(entry_readable(archive, i as int) == entry_readable(before, i as int));
            assert(entry_readable(archive0, i as int));
            assert forall|j: int|
                #[trigger] entry_readable(archive, j) == entry_readable(archive0, j) by {
                assert(entry_readable(archive, j) == entry_readable(before, j));
            }
        }
        v.push(e);
        proof {
            assert(models_of(v@) =~= contents.take(i as int + 1));
        }
        i = i + 1;
    }
    proof {
        assert forall|j: int|
            0 <= j < archive_entries(archive0).len() implies entry_readable(archive0, j) by {}
        assert(archive_readable(archive0));
        assert(models_of(v@) =~= contents);
    }
    Ok(v)
}

} // verus!
