//! The alignment engine: rewrites an entry sequence into a new archive.
//!
//! For each entry in input order the engine computes the padding that makes
//! the entry's payload start on an alignment boundary in the output, writes
//! a local header carrying that padding in its extra field, and copies the
//! payload verbatim; it then writes the central directory and the trailer
//! record.  The whole output is produced in memory and proved equal to the
//! layout specified in `crate::layout`.

use vstd::prelude::*;

verus! {

use crate::align_math::padding_for;
use crate::entry::{entry_fits, models_of, AlignError, ZipEntry};
use crate::layout::{
    aligned_archive, alignable, all_fit, cd_entry, cd_upto, eocd, external_attrs, fixed_overhead,
    lemma_offset_monotone, local_header, offset_of, padding_at, paddings_fit, section_upto,
    totals_fit, zeros, CENTRAL_SIG, DOS_DATE, DOS_TIME, EOCD_SIG, EXTRA_HEADER_ID, LOCAL_SIG,
    VERSION_MADE_BY, VERSION_NEEDED,
};
use vstd::bytes::{spec_u16_to_le_bytes, spec_u32_to_le_bytes, u16_to_le_bytes, u32_to_le_bytes};

/// Appends the two little-endian bytes of `x`.
fn emit_u16(out: &mut Vec<u8>, x: u16)
    ensures
        final(out)@ == old(out)@ + spec_u16_to_le_bytes(x),
{
    let mut b = u16_to_le_bytes(x);
    out.append(&mut b);
}

/// Appends the four little-endian bytes of `x`.
fn emit_u32(out: &mut Vec<u8>, x: u32)
    ensures
        final(out)@ == old(out)@ + spec_u32_to_le_bytes(x),
{
    let mut b = u32_to_le_bytes(x);
    out.append(&mut b);
}

/// Appends `n` zero bytes.
fn push_zeros(out: &mut Vec<u8>, n: u64)
    ensures
        final(out)@ == old(out)@ + zeros(n as int),
{
    let mut k: u64 = 0;
    while k < n
        invariant
            k <= n,
            out@ == old(out)@ + zeros(k as int),
        decreases n - k,
    {
        out.push(0);
        k = k + 1;
        proof {
            assert(out@ =~= old(out)@ + zeros(k as int));
        }
    }
    proof {
        assert(out@ =~= old(out)@ + zeros(n as int));
    }
}

/// Appends the 30 fixed local header bytes for `e` announcing `pad` bytes
/// of alignment padding.
fn emit_local_header(out: &mut Vec<u8>, e: &ZipEntry, pad: u64)
    requires
        entry_fits(e@),
        pad <= 0xFFFB,
    ensures
        final(out)@ == old(out)@ + local_header(e@, pad as int),
{
    emit_u32(out, LOCAL_SIG);
    emit_u16(out, VERSION_NEEDED);
    emit_u16(out, 0);
    emit_u16(out, e.method);
    emit_u16(out, DOS_TIME);
    emit_u16(out, DOS_DATE);
    emit_u32(out, e.crc32);
    emit_u32(out, e.data.len() as u32);
    emit_u32(out, e.uncompressed_size as u32);
    emit_u16(out, e.name.len() as u16);
    emit_u16(out, (4 + pad) as u16);
    proof {
        assert(out@ =~= old(out)@ + local_header(e@, pad as int));
    }
}

/// Appends the central directory header for `e`, whose local header was
/// written at `local_offset`.
fn emit_cd_entry(out: &mut Vec<u8>, e: &ZipEntry, local_offset: u64)
    requires
        entry_fits(e@),
        local_offset <= 0xFFFF_FFFF,
    ensures
        final(out)@ == old(out)@ + cd_entry(e@, local_offset as int),
{
    emit_u32(out, CENTRAL_SIG);
    emit_u16(out, VERSION_MADE_BY);
    emit_u16(out, VERSION_NEEDED);
    emit_u16(out, 0);
    emit_u16(out, e.method);
    emit_u16(out, DOS_TIME);
    emit_u16(out, DOS_DATE);
    emit_u32(out, e.crc32);
    emit_u32(out, e.data.len() as u32);
    emit_u32(out, e.uncompressed_size as u32);
    emit_u16(out, e.name.len() as u16);
    emit_u16(out, 0);
    emit_u16(out, 0);
    emit_u16(out, 0);
    emit_u16(out, 0);
    let mode = e.mode();
    emit_u32(out, mode * 0x10000);
    emit_u32(out, local_offset as u32);
    out.extend_from_slice(e.name.as_slice());
    proof {
        assert(mode * 0x10000 == external_attrs(e@));
        assert(out@ =~= old(out)@ + cd_entry(e@, local_offset as int));
    }
}

/// Rewrites `entries` into a complete archive aligned to `alignment`.
///
/// On success the returned bytes are exactly `aligned_archive` of the entry
/// models; the engine succeeds precisely on `alignable` inputs.  A zero
/// alignment is rejected; an entry whose fields do not fit the header
/// fields is a format error; a padding that cannot be recorded in the
/// 16-bit extra-field budget is reported as overflow rather than silently
/// truncated; offsets or counts past what the trailer can record make the
/// archive too large.
pub fn align_entries(entries: &Vec<ZipEntry>, alignment: u64) -> (r: Result<Vec<u8>, AlignError>)
    ensures
        (r matches Ok(out) ==> alignable(models_of(entries@), alignment as int) && out@
            == aligned_archive(models_of(entries@), alignment as int)),
        r is Ok <==> alignable(models_of(entries@), alignment as int),
        (alignment == 0) <==> r == Err::<Vec<u8>, AlignError>(AlignError::InvalidAlignment),
        (r matches Err(e) ==> (e matches AlignError::Format(oi) ==> (oi matches Some(i) && i
            < models_of(entries@).len() && !crate::entry::entry_fits(
            models_of(entries@)[i as int],
        )))),
        (r matches Err(e) ==> (e matches AlignError::PaddingOverflow(i) ==> i < models_of(
            entries@,
        ).len() && padding_at(models_of(entries@), alignment as int, i as int) > 0xFFFB)),
        (r matches Err(e) ==> (e == AlignError::TooLarge ==> !totals_fit(
            models_of(entries@),
            alignment as int,
        ))),
        (r matches Err(e) ==> (e == AlignError::InvalidAlignment || e matches AlignError::Format(
            _,
        ) || e matches AlignError::PaddingOverflow(_) || e == AlignError::TooLarge)),
{
    let ghost es = models_of(entries@);
    let ghost a = alignment as int;
    if alignment == 0 {
        return Err(AlignError::InvalidAlignment);
    }
    if entries.len() > 0xFFFF {
        return Err(AlignError::TooLarge);
    }
    let n = entries.len();
    let mut out: Vec<u8> = Vec::new();
    let mut offsets: Vec<u64> = Vec::new();
    let mut i: usize = 0;
    while i < n
        invariant
            1 <= alignment,
            a == alignment as int,
            es == models_of(entries@),
            n == entries.len(),
            n <= 0xFFFF,
            i <= n,
            out@ == section_upto(es, a, i as int),
            out@.len() <= 0xFFFF_FFFF,
            offsets@.len() == i,
            forall|j: int| 0 <= j < i ==> #[trigger] offsets@[j] == offset_of(es, a, j),
            forall|j: int| 0 <= j < i ==> entry_fits(#[trigger] es[j]),
            forall|j: int| 0 <= j < i ==> #[trigger] padding_at(es, a, j) <= 0xFFFB,
        decreases n - i,
    {
        let e = &entries[i];
        proof {
            assert(e@ == es[i as int]);
            crate::layout::lemma_section_len(es, a, i as int);
        }
        if !e.fits() {
            return Err(AlignError::Format(Some(i as u64)));
        }
        let off: u64 = out.len() as u64 + 30 + e.name.len() as u64 + 4;
        proof {
            assert(off as int == offset_of(es, a, i as int) + fixed_overhead(es[i as int]));
        }
        let pad = padding_for(off, alignment);
        proof {
            assert(pad as int == padding_at(es, a, i as int));
        }
        if pad > 0xFFFB {
            return Err(AlignError::PaddingOverflow(i as u64));
        }
        offsets.push(out.len() as u64);
        emit_local_header(&mut out, e, pad);
        out.extend_from_slice(e.name.as_slice());
        emit_u16(&mut out, EXTRA_HEADER_ID);
        emit_u16(&mut out, pad as u16);
        push_zeros(&mut out, pad);
        out.extend_from_slice(e.data.as_slice());
        proof {
            assert(out@ =~= section_upto(es, a, i as int + 1));
        }
        if out.len() as u64 > 0xFFFF_FFFF {
            proof {
                crate::layout::lemma_section_len(es, a, i as int + 1);
                lemma_offset_monotone(es, a, i as int + 1, es.len() as int);
            }
            return Err(AlignError::TooLarge);
        }
        i = i + 1;
    }
    proof {
        crate::layout::lemma_section_len(es, a, n as int);
    }
    let body_len: u64 = out.len() as u64;
    let mut cd: Vec<u8> = Vec::new();
    let mut j: usize = 0;
    while j < n
        invariant
            1 <= alignment,
            a == alignment as int,
            es == models_of(entries@),
            n == entries.len(),
            n <= 0xFFFF,
            j <= n,
            cd@ == cd_upto(es, a, j as int),
            offsets@.len() == n,
            forall|k: int| 0 <= k < n ==> #[trigger] offsets@[k] == offset_of(es, a, k),
            forall|k: int| 0 <= k < n ==> entry_fits(#[trigger] es[k]),
            offset_of(es, a, n as int) <= 0xFFFF_FFFF,
        decreases n - j,
    {
        let e = &entries[j];
        proof {
            assert(e@ == es[j as int]);
            lemma_offset_monotone(es, a, j as int, n as int);
            crate::layout::lemma_offset_nonneg(es, a, j as int);
        }
        let local_offset = offsets[j];
        emit_cd_entry(&mut cd, e, local_offset);
        proof {
            assert(cd@ =~= cd_upto(es, a, j as int + 1));
        }
        j = j + 1;
    }
    if cd.len() as u64 > 0xFFFF_FFFF {
        return Err(AlignError::TooLarge);
    }
    let cd_len: u64 = cd.len() as u64;
    let ghost cd_seq = cd@;
    out.append(&mut cd);
    emit_u32(&mut out, EOCD_SIG);
    emit_u16(&mut out, 0);
    emit_u16(&mut out, 0);
    emit_u16(&mut out, n as u16);
    emit_u16(&mut out, n as u16);
    emit_u32(&mut out, cd_len as u32);
    emit_u32(&mut out, body_len as u32);
    emit_u16(&mut out, 0);
    proof {
        assert(out@ =~= section_upto(es, a, n as int) + cd_seq + eocd(
            n as int,
            cd_seq.len() as int,
            body_len as int,
        ));
        assert(out@ =~= aligned_archive(es, a));
    }
    Ok(out)
}

} // verus!
