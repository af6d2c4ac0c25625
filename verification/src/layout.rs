//! Byte layout of the rewritten archive.
//!
//! The engine emits, for each entry in input order, a local header followed
//! by the entry name, an extra field that carries the alignment padding, and
//! the payload verbatim; after all entries come the central directory and
//! the end-of-directory record.  This module defines that layout as spec
//! functions over the entry models, together with the offset arithmetic the
//! engine tracks, and proves the properties the layout guarantees: every
//! payload starts on an alignment boundary, paddings are minimal, and names
//! and payloads appear in the output byte-for-byte and in input order.

use vstd::prelude::*;

verus! {

use crate::align_math::{lemma_padding, spec_padding};
use crate::entry::{spec_mode, EntryModel};
use vstd::bytes::{
    lemma_auto_spec_u16_to_from_le_bytes, lemma_auto_spec_u32_to_from_le_bytes,
    spec_u16_to_le_bytes, spec_u32_to_le_bytes,
};

/// Signature of a local file header.
pub const LOCAL_SIG: u32 = 0x04034b50;

/// Signature of a central directory header.
pub const CENTRAL_SIG: u32 = 0x02014b50;

/// Signature of the end-of-central-directory record.
pub const EOCD_SIG: u32 = 0x06054b50;

/// Version needed to extract, written in every header.
pub const VERSION_NEEDED: u16 = 20;

/// Version made by: Unix attributes, format 2.0.
pub const VERSION_MADE_BY: u16 = 0x0314;

/// Modification time written for every entry (the engine does not keep
/// timestamps, matching headers built from default options).
pub const DOS_TIME: u16 = 0;

/// Modification date written for every entry: 1980-01-01, the epoch of the
/// archive format's date encoding.
pub const DOS_DATE: u16 = 0x0021;

/// Header id of the extra-field record that carries the padding.
pub const EXTRA_HEADER_ID: u16 = 0;

/// `n` zero bytes.
pub open spec fn zeros(n: int) -> Seq<u8> {
    Seq::new(n as nat, |i: int| 0u8)
}

/// The extra field carrying `padding` zero bytes: a fixed header id, the
/// padding count, then the zeros themselves.
pub open spec fn extra_field(padding: int) -> Seq<u8> {
    spec_u16_to_le_bytes(EXTRA_HEADER_ID) + spec_u16_to_le_bytes(padding as u16) + zeros(padding)
}

/// The 30 fixed bytes of a local header for `e`, announcing a name of
/// `e.name.len()` bytes and an extra field of `4 + padding` bytes.
pub open spec fn local_header(e: EntryModel, padding: int) -> Seq<u8> {
    spec_u32_to_le_bytes(LOCAL_SIG) + spec_u16_to_le_bytes(VERSION_NEEDED) + spec_u16_to_le_bytes(
        0u16,
    ) + spec_u16_to_le_bytes(e.method) + spec_u16_to_le_bytes(DOS_TIME) + spec_u16_to_le_bytes(
        DOS_DATE,
    ) + spec_u32_to_le_bytes(e.crc32) + spec_u32_to_le_bytes(e.data.len() as u32)
        + spec_u32_to_le_bytes(e.uncompressed_size as u32) + spec_u16_to_le_bytes(
        e.name.len() as u16,
    ) + spec_u16_to_le_bytes((4 + padding) as u16)
}

/// Everything the engine writes for one entry: header, name, extra field,
/// payload.
pub open spec fn local_chunk(e: EntryModel, padding: int) -> Seq<u8> {
    local_header(e, padding) + e.name + extra_field(padding) + e.data
}

/// Bytes of an entry's chunk that precede the variable padding: the fixed
/// header, the name, and the extra field's own 4-byte record header.
pub open spec fn fixed_overhead(e: EntryModel) -> int {
    30 + e.name.len() as int + 4
}

/// Offset at which entry `i`'s chunk starts in the rewritten data section.
pub open spec fn offset_of(es: Seq<EntryModel>, a: int, i: int) -> int
    decreases i,
{
    if i <= 0 {
        0
    } else {
        let prev = offset_of(es, a, i - 1);
        let e = es[i - 1];
        prev + fixed_overhead(e) + spec_padding(prev + fixed_overhead(e), a) + e.data.len()
    }
}

/// Padding inserted into entry `i`'s extra field.
pub open spec fn padding_at(es: Seq<EntryModel>, a: int, i: int) -> int {
    spec_padding(offset_of(es, a, i) + fixed_overhead(es[i]), a)
}

/// Offset at which entry `i`'s payload starts in the rewritten archive.
pub open spec fn data_start_at(es: Seq<EntryModel>, a: int, i: int) -> int {
    offset_of(es, a, i) + fixed_overhead(es[i]) + padding_at(es, a, i)
}

/// The first `n` chunks of the rewritten data section.
pub open spec fn section_upto(es: Seq<EntryModel>, a: int, n: int) -> Seq<u8>
    decreases n,
{
    if n <= 0 {
        Seq::empty()
    } else {
        section_upto(es, a, n - 1) + local_chunk(es[n - 1], padding_at(es, a, n - 1))
    }
}

/// External attributes of an entry: its Unix permissions in the high
/// 16 bits.
pub open spec fn external_attrs(e: EntryModel) -> u32 {
    (spec_mode(e) * 0x10000) as u32
}

/// The central directory header for `e`, whose local header was written at
/// `local_offset`.
pub open spec fn cd_entry(e: EntryModel, local_offset: int) -> Seq<u8> {
    spec_u32_to_le_bytes(CENTRAL_SIG) + spec_u16_to_le_bytes(VERSION_MADE_BY)
        + spec_u16_to_le_bytes(VERSION_NEEDED) + spec_u16_to_le_bytes(0u16) + spec_u16_to_le_bytes(
        e.method,
    ) + spec_u16_to_le_bytes(DOS_TIME) + spec_u16_to_le_bytes(DOS_DATE) + spec_u32_to_le_bytes(
        e.crc32,
    ) + spec_u32_to_le_bytes(e.data.len() as u32) + spec_u32_to_le_bytes(
        e.uncompressed_size as u32,
    ) + spec_u16_to_le_bytes(e.name.len() as u16) + spec_u16_to_le_bytes(0u16)
        + spec_u16_to_le_bytes(0u16) + spec_u16_to_le_bytes(0u16) + spec_u16_to_le_bytes(0u16)
        + spec_u32_to_le_bytes(external_attrs(e)) + spec_u32_to_le_bytes(local_offset as u32)
        + e.name
}

/// The first `n` central directory headers.
pub open spec fn cd_upto(es: Seq<EntryModel>, a: int, n: int) -> Seq<u8>
    decreases n,
{
    if n <= 0 {
        Seq::empty()
    } else {
        cd_upto(es, a, n - 1) + cd_entry(es[n - 1], offset_of(es, a, n - 1))
    }
}

/// The end-of-central-directory record.
pub open spec fn eocd(count: int, cd_size: int, cd_offset: int) -> Seq<u8> {
    spec_u32_to_le_bytes(EOCD_SIG) + spec_u16_to_le_bytes(0u16) + spec_u16_to_le_bytes(0u16)
        + spec_u16_to_le_bytes(count as u16) + spec_u16_to_le_bytes(count as u16)
        + spec_u32_to_le_bytes(cd_size as u32) + spec_u32_to_le_bytes(cd_offset as u32)
        + spec_u16_to_le_bytes(0u16)
}

/// The whole rewritten archive for entry models `es` and alignment `a`.
pub open spec fn aligned_archive(es: Seq<EntryModel>, a: int) -> Seq<u8> {
    let n = es.len() as int;
    let body = section_upto(es, a, n);
    let cd = cd_upto(es, a, n);
    body + cd + eocd(n, cd.len() as int, body.len() as int)
}

/// Every entry's fields fit the header fields they are recorded in.
pub open spec fn all_fit(es: Seq<EntryModel>) -> bool {
    forall|i: int| 0 <= i < es.len() ==> crate::entry::entry_fits(#[trigger] es[i])
}

/// Every computed padding fits the 16-bit extra-field budget: the extra
/// field's length field records `4 + padding`, so the padding itself may be
/// at most `0xFFFB`.
pub open spec fn paddings_fit(es: Seq<EntryModel>, a: int) -> bool {
    forall|i: int| 0 <= i < es.len() ==> #[trigger] padding_at(es, a, i) <= 0xFFFB
}

/// The counts and offsets recorded in the trailer fit its fields.
pub open spec fn totals_fit(es: Seq<EntryModel>, a: int) -> bool {
    &&& es.len() <= 0xFFFF
    &&& offset_of(es, a, es.len() as int) <= 0xFFFF_FFFF
    &&& cd_upto(es, a, es.len() as int).len() <= 0xFFFF_FFFF
}

/// The condition under which the engine can rewrite the archive.
pub open spec fn alignable(es: Seq<EntryModel>, a: int) -> bool {
    &&& a >= 1
    &&& all_fit(es)
    &&& paddings_fit(es, a)
    &&& totals_fit(es, a)
}

/// Length of the extra field.
pub proof fn lemma_extra_field_len(padding: int)
    requires
        padding >= 0,
    ensures
        extra_field(padding).len() == 4 + padding,
{
    lemma_auto_spec_u16_to_from_le_bytes();
}

/// A local header is 30 bytes.
pub proof fn lemma_local_header_len(e: EntryModel, padding: int)
    ensures
        local_header(e, padding).len() == 30,
{
    lemma_auto_spec_u16_to_from_le_bytes();
    lemma_auto_spec_u32_to_from_le_bytes();
}

/// Everything written for one entry: header, name, extra field and payload.
pub proof fn lemma_local_chunk_len(e: EntryModel, padding: int)
    requires
        padding >= 0,
    ensures
        local_chunk(e, padding).len() == fixed_overhead(e) + padding + e.data.len(),
{
    lemma_local_header_len(e, padding);
    lemma_extra_field_len(padding);
}

/// A central directory header is 46 bytes plus the name.
pub proof fn lemma_cd_entry_len(e: EntryModel, local_offset: int)
    ensures
        cd_entry(e, local_offset).len() == 46 + e.name.len(),
{
    lemma_auto_spec_u16_to_from_le_bytes();
    lemma_auto_spec_u32_to_from_le_bytes();
}

/// Chunk offsets are never negative.
pub proof fn lemma_offset_nonneg(es: Seq<EntryModel>, a: int, i: int)
    requires
        a >= 1,
        i >= 0,
    ensures
        offset_of(es, a, i) >= 0,
    decreases i,
{
    if i > 0 {
        lemma_offset_nonneg(es, a, i - 1);
        let prev = offset_of(es, a, i - 1);
        lemma_padding(prev + fixed_overhead(es[i - 1]), a);
    }
}

/// The padding of every entry is non-negative, smaller than the alignment,
/// and lands the payload exactly on an alignment boundary.
pub proof fn lemma_padding_at_bounds(es: Seq<EntryModel>, a: int, i: int)
    requires
        a >= 1,
        i >= 0,
    ensures
        0 <= padding_at(es, a, i) < a,
        data_start_at(es, a, i) % a == 0,
{
    lemma_offset_nonneg(es, a, i);
    lemma_padding(offset_of(es, a, i) + fixed_overhead(es[i]), a);
}

/// Each chunk starts where the previous one ended.
pub proof fn lemma_offset_step(es: Seq<EntryModel>, a: int, i: int)
    requires
        a >= 1,
        i >= 0,
    ensures
        offset_of(es, a, i + 1) == offset_of(es, a, i) + fixed_overhead(es[i]) + padding_at(
            es,
            a,
            i,
        ) + es[i].data.len(),
{
}

/// Chunk offsets grow with the entry index.
pub proof fn lemma_offset_monotone(es: Seq<EntryModel>, a: int, i: int, j: int)
    requires
        a >= 1,
        0 <= i <= j,
    ensures
        offset_of(es, a, i) <= offset_of(es, a, j),
    decreases j - i,
{
    if i < j {
        lemma_offset_monotone(es, a, i, j - 1);
        lemma_offset_nonneg(es, a, j - 1);
        lemma_padding(offset_of(es, a, j - 1) + fixed_overhead(es[j - 1]), a);
    }
}

/// The first `n` chunks occupy exactly the first `offset_of(es, a, n)`
/// bytes.
pub proof fn lemma_section_len(es: Seq<EntryModel>, a: int, n: int)
    requires
        a >= 1,
        n >= 0,
    ensures
        section_upto(es, a, n).len() == offset_of(es, a, n),
    decreases n,
{
    if n > 0 {
        lemma_section_len(es, a, n - 1);
        lemma_offset_nonneg(es, a, n - 1);
        lemma_padding(offset_of(es, a, n - 1) + fixed_overhead(es[n - 1]), a);
        lemma_local_chunk_len(es[n - 1], padding_at(es, a, n - 1));
    }
}

/// Within the first `n` chunks, entry `i`'s chunk sits exactly between its
/// offset and the next entry's offset.
pub proof fn lemma_chunk_in_section(es: Seq<EntryModel>, a: int, i: int, n: int)
    requires
        a >= 1,
        0 <= i < n,
    ensures
        section_upto(es, a, n).subrange(offset_of(es, a, i), offset_of(es, a, i + 1))
            == local_chunk(es[i], padding_at(es, a, i)),
    decreases n,
{
    lemma_section_len(es, a, n);
    lemma_section_len(es, a, i);
    lemma_offset_step(es, a, i);
    lemma_padding_at_bounds(es, a, i);
    lemma_local_chunk_len(es[i], padding_at(es, a, i));
    if n == i + 1 {
        assert(section_upto(es, a, n).subrange(offset_of(es, a, i), offset_of(es, a, i + 1))
            =~= local_chunk(es[i], padding_at(es, a, i)));
    } else {
        lemma_chunk_in_section(es, a, i, n - 1);
        lemma_offset_monotone(es, a, i + 1, n - 1);
        lemma_section_len(es, a, n - 1);
        assert(section_upto(es, a, n).subrange(offset_of(es, a, i), offset_of(es, a, i + 1))
            =~= section_upto(es, a, n - 1).subrange(offset_of(es, a, i), offset_of(es, a, i + 1)));
    }
}

/// Entry `i`'s payload appears verbatim in the rewritten archive, starting
/// at `data_start_at(es, a, i)` — and that offset is a multiple of the
/// alignment.  Together with the method and sizes preserved in the headers,
/// this is the round-trip guarantee: what an entry decompresses to is
/// decided by exactly these bytes and the method, and both are unchanged.
pub proof fn lemma_payload_in_archive(es: Seq<EntryModel>, a: int, i: int)
    requires
        a >= 1,
        0 <= i < es.len(),
    ensures
        data_start_at(es, a, i) % a == 0,
        data_start_at(es, a, i) + es[i].data.len() <= aligned_archive(es, a).len(),
        aligned_archive(es, a).subrange(
            data_start_at(es, a, i),
            data_start_at(es, a, i) + es[i].data.len(),
        ) == es[i].data,
{
    let n = es.len() as int;
    let pad = padding_at(es, a, i);
    let chunk = local_chunk(es[i], pad);
    lemma_offset_nonneg(es, a, i);
    lemma_padding_at_bounds(es, a, i);
    lemma_chunk_in_section(es, a, i, n);
    lemma_offset_step(es, a, i);
    lemma_offset_monotone(es, a, i + 1, n);
    lemma_section_len(es, a, n);
    lemma_local_chunk_len(es[i], pad);
    lemma_local_header_len(es[i], pad);
    lemma_extra_field_len(pad);
    let body = section_upto(es, a, n);
    let off = offset_of(es, a, i);
    let fo = fixed_overhead(es[i]);
    let ds = data_start_at(es, a, i);
    let dlen = es[i].data.len() as int;
    assert(body.len() == offset_of(es, a, n));
    assert(off + fo + pad + dlen == offset_of(es, a, i + 1));
    assert(offset_of(es, a, i + 1) <= offset_of(es, a, n));
    assert(chunk.len() == fo + pad + dlen);
    let sub = body.subrange(off, offset_of(es, a, i + 1));
    assert(sub == chunk);
    assert(chunk.subrange(fo + pad, fo + pad + dlen) =~= es[i].data);
    assert forall|k: int| 0 <= k < dlen implies body[ds + k] == es[i].data[k] by {
        assert(sub[fo + pad + k] == body[off + (fo + pad + k)]);
        assert(sub[fo + pad + k] == chunk[fo + pad + k]);
        assert(chunk.subrange(fo + pad, fo + pad + dlen)[k] == chunk[fo + pad + k]);
        assert(chunk.subrange(fo + pad, fo + pad + dlen)[k] == es[i].data[k]);
        assert(ds + k == off + (fo + pad + k));
    }
    let whole = aligned_archive(es, a);
    assert(whole == body + cd_upto(es, a, n) + eocd(
        n,
        cd_upto(es, a, n).len() as int,
        body.len() as int,
    ));
    assert forall|k: int| 0 <= k < dlen implies whole[ds + k] == es[i].data[k] by {
        assert((body + cd_upto(es, a, n))[ds + k] == body[ds + k]);
        assert(whole[ds + k] == (body + cd_upto(es, a, n))[ds + k]);
    }
    assert(whole.subrange(ds, ds + dlen) =~= es[i].data);
}

/// Entry `i`'s name appears verbatim in the rewritten archive, right after
/// the 30 fixed bytes of its local header; names therefore appear in input
/// order, at strictly increasing offsets.
pub proof fn lemma_name_in_archive(es: Seq<EntryModel>, a: int, i: int)
    requires
        a >= 1,
        0 <= i < es.len(),
    ensures
        aligned_archive(es, a).subrange(
            offset_of(es, a, i) + 30,
            offset_of(es, a, i) + 30 + es[i].name.len(),
        ) == es[i].name,
{
    let n = es.len() as int;
    let pad = padding_at(es, a, i);
    let chunk = local_chunk(es[i], pad);
    lemma_offset_nonneg(es, a, i);
    lemma_padding_at_bounds(es, a, i);
    lemma_chunk_in_section(es, a, i, n);
    lemma_offset_step(es, a, i);
    lemma_offset_monotone(es, a, i + 1, n);
    lemma_section_len(es, a, n);
    lemma_local_chunk_len(es[i], pad);
    lemma_local_header_len(es[i], pad);
    lemma_extra_field_len(pad);
    let body = section_upto(es, a, n);
    let off = offset_of(es, a, i);
    let nlen = es[i].name.len() as int;
    assert(chunk.subrange(30, 30 + nlen) =~= es[i].name);
    assert forall|k: int| 0 <= k < nlen implies body[off + 30 + k] == es[i].name[k] by {
        assert(body.subrange(off, offset_of(es, a, i + 1))[30 + k] == chunk[30 + k]);
        assert(chunk.subrange(30, 30 + nlen)[k] == es[i].name[k]);
    }
    assert forall|k: int| 0 <= k < nlen implies aligned_archive(es, a)[off + 30 + k] == es[
        i
    ].name[k] by {
        assert(aligned_archive(es, a)[off + 30 + k] == body[off + 30 + k]);
    }
    assert(aligned_archive(es, a).subrange(off + 30, off + 30 + nlen) =~= es[i].name);
}

} // verus!
