//! The alignment verifier: checks an archive as physically laid out.
//!
//! A stored entry passes when its payload offset is a multiple of the
//! alignment; a compressed entry passes unconditionally, because only
//! entries a loader would map directly are alignment-sensitive.  The
//! verifier inspects offsets as given — it never recomputes a hypothetical
//! layout — and can produce one diagnostic line per entry in the format
//! `{data_start:8} {name} (OK|OK - compressed|BAD - mod {alignment} =
//! {remainder})`.

use vstd::prelude::*;

verus! {

use crate::entry::{models_of, EntryModel, ZipEntry, METHOD_STORED};
use crate::layout::{
    alignable, data_start_at, lemma_offset_monotone, lemma_offset_nonneg, lemma_offset_step,
    lemma_padding_at_bounds, offset_of,
};

/// Whether the verifier reports this entry as in order: a stored entry must
/// sit on an alignment boundary, anything compressed passes.
pub open spec fn entry_ok(e: EntryModel, a: int) -> bool {
    e.method == METHOD_STORED ==> e.data_start as int % a == 0
}

/// Whether the verifier reports the whole archive as aligned.
pub open spec fn spec_all_ok(es: Seq<EntryModel>, a: int) -> bool {
    forall|i: int| 0 <= i < es.len() ==> entry_ok(#[trigger] es[i], a)
}

/// The decimal digits of `n`, most significant first.
pub open spec fn spec_dec(n: int) -> Seq<u8>
    recommends
        n >= 0,
    decreases n,
{
    if n < 10 {
        seq![(0x30 + (if 0 <= n < 10 { n } else { 0 })) as u8]
    } else {
        spec_dec(n / 10).push((0x30 + n % 10) as u8)
    }
}

/// `n` space characters.
pub open spec fn spaces(n: int) -> Seq<u8> {
    Seq::new(n as nat, |i: int| 0x20u8)
}

/// `s` left-padded with spaces to a width of eight, as the numeric column
/// of a diagnostic line.
pub open spec fn spec_pad8(s: Seq<u8>) -> Seq<u8> {
    if s.len() >= 8 {
        s
    } else {
        spaces(8 - s.len()) + s
    }
}

/// The diagnostic line for one entry.  The byte sequences spell, in order,
/// `" "`, `" (OK)"`, `" (BAD - mod "`, `" = "`, `")"`, and
/// `" (OK - compressed)"`.
pub open spec fn spec_report_line(e: EntryModel, a: int) -> Seq<u8> {
    let prefix = spec_pad8(spec_dec(e.data_start as int)) + seq![0x20u8] + e.name;
    if e.method == METHOD_STORED {
        if e.data_start as int % a == 0 {
            prefix + seq![0x20u8, 0x28, 0x4F, 0x4B, 0x29]
        } else {
            prefix + seq![0x20u8, 0x28, 0x42, 0x41, 0x44, 0x20, 0x2D, 0x20, 0x6D, 0x6F, 0x64, 0x20]
                + spec_dec(a) + seq![0x20u8, 0x3D, 0x20] + spec_dec(e.data_start as int % a)
                + seq![0x29u8]
        }
    } else {
        prefix
            + seq![
            0x20u8,
            0x28,
            0x4F,
            0x4B,
            0x20,
            0x2D,
            0x20,
            0x63,
            0x6F,
            0x6D,
            0x70,
            0x72,
            0x65,
            0x73,
            0x73,
            0x65,
            0x64,
            0x29,
        ]
    }
}

/// One diagnostic line per entry, in entry order.
pub open spec fn spec_report(es: Seq<EntryModel>, a: int) -> Seq<Seq<u8>> {
    Seq::new(es.len(), |i: int| spec_report_line(es[i], a))
}

/// The decimal digits of `n`, most significant first.
pub fn u64_to_dec(n: u64) -> (s: Vec<u8>)
    ensures
        s@ == spec_dec(n as int),
    decreases n,
{
    if n < 10 {
        let mut v: Vec<u8> = Vec::new();
        v.push(0x30 + n as u8);
        proof {
            assert(v@ =~= spec_dec(n as int));
        }
        v
    } else {
        let mut v = u64_to_dec(n / 10);
        v.push(0x30 + (n % 10) as u8);
        v
    }
}

/// Left-pads `s` with spaces to the eight-column width of the offset
/// column.
fn pad_to_8(s: Vec<u8>) -> (r: Vec<u8>)
    ensures
        r@ == spec_pad8(s@),
{
    if s.len() >= 8 {
        s
    } else {
        let mut r: Vec<u8> = Vec::new();
        let missing = 8 - s.len();
        let mut k: usize = 0;
        while k < missing
            invariant
                k <= missing,
                r@ == spaces(k as int),
            decreases missing - k,
        {
            r.push(0x20);
            k = k + 1;
            proof {
                assert(r@ =~= spaces(k as int));
            }
        }
        r.extend_from_slice(s.as_slice());
        r
    }
}

/// Builds the diagnostic line for one entry.
fn report_line(e: &ZipEntry, alignment: u64) -> (line: Vec<u8>)
    requires
        alignment >= 1,
    ensures
        line@ == spec_report_line(e@, alignment as int),
{
    let mut line = pad_to_8(u64_to_dec(e.data_start));
    line.push(0x20);
    line.extend_from_slice(e.name.as_slice());
    if e.method == METHOD_STORED {
        if e.data_start % alignment == 0 {
            line.push(0x20);
            line.push(0x28);
            line.push(0x4F);
            line.push(0x4B);
            line.push(0x29);
        } else {
            line.push(0x20);
            line.push(0x28);
            line.push(0x42);
            line.push(0x41);
            line.push(0x44);
            line.push(0x20);
            line.push(0x2D);
            line.push(0x20);
            line.push(0x6D);
            line.push(0x6F);
            line.push(0x64);
            line.push(0x20);
            let mut a_digits = u64_to_dec(alignment);
            line.append(&mut a_digits);
            line.push(0x20);
            line.push(0x3D);
            line.push(0x20);
            let mut r_digits = u64_to_dec(e.data_start % alignment);
            line.append(&mut r_digits);
            line.push(0x29);
        }
    } else {
        line.push(0x20);
        line.push(0x28);
        line.push(0x4F);
        line.push(0x4B);
        line.push(0x20);
        line.push(0x2D);
        line.push(0x20);
        line.push(0x63);
        line.push(0x6F);
        line.push(0x6D);
        line.push(0x70);
        line.push(0x72);
        line.push(0x65);
        line.push(0x73);
        line.push(0x73);
        line.push(0x65);
        line.push(0x64);
        line.push(0x29);
    }
    proof {
        assert(line@ =~= spec_report_line(e@, alignment as int));
    }
    line
}

/// Checks every entry of an archive, as physically laid out, against the
/// alignment.  Returns whether no stored entry is misaligned and, when
/// `verbose` is set, one diagnostic line per entry; the verifier never
/// stops at a failing entry, since the report covers the whole archive.
pub fn verify_entries(entries: &Vec<ZipEntry>, alignment: u64, verbose: bool) -> (r: (
    bool,
    Vec<Vec<u8>>,
))
    requires
        alignment >= 1,
    ensures
        r.0 == spec_all_ok(models_of(entries@), alignment as int),
        verbose ==> r.1@.map_values(|l: Vec<u8>| l@) == spec_report(
            models_of(entries@),
            alignment as int,
        ),
        !verbose ==> r.1@.len() == 0,
{
    let ghost es = models_of(entries@);
    let ghost a = alignment as int;
    let mut ok = true;
    let mut lines: Vec<Vec<u8>> = Vec::new();
    let mut i: usize = 0;
    while i < entries.len()
        invariant
            alignment >= 1,
            a == alignment as int,
            es == models_of(entries@),
            i <= entries.len(),
            ok == (forall|j: int| 0 <= j < i ==> entry_ok(#[trigger] es[j], a)),
            verbose ==> lines@.map_values(|l: Vec<u8>| l@) == spec_report(es, a).take(i as int),
            !verbose ==> lines@.len() == 0,
        decreases entries.len() - i,
    {
        let e = &entries[i];
        proof {
            assert(e@ == es[i as int]);
        }
        if e.method == METHOD_STORED && e.data_start % alignment != 0 {
            ok = false;
        }
        if verbose {
            let line = report_line(e, alignment);
            lines.push(line);
            proof {
                assert(lines@.map_values(|l: Vec<u8>| l@) =~= spec_report(es, a).take(
                    i as int + 1,
                ));
            }
        }
        i = i + 1;
    }
    proof {
        if verbose {
            assert(spec_report(es, a).take(entries@.len() as int) =~= spec_report(es, a));
        }
    }
    (ok, lines)
}

/// The entries of the engine's output, as they would be read back from it:
/// the same entries, each now sitting at its rewritten payload offset.
pub open spec fn output_models(es: Seq<EntryModel>, a: int) -> Seq<EntryModel> {
    Seq::new(
        es.len(),
        |i: int|
            (EntryModel {
                name: es[i].name,
                method: es[i].method,
                unix_mode: es[i].unix_mode,
                crc32: es[i].crc32,
                uncompressed_size: es[i].uncompressed_size,
                data: es[i].data,
                data_start: data_start_at(es, a, i) as u64,
            }),
    )
}

/// Running the verifier against the engine's own output with the same
/// alignment reports every entry — stored or not — in order, so the
/// verification of a freshly rewritten archive succeeds.
pub proof fn lemma_output_verifies(es: Seq<EntryModel>, a: int)
    requires
        alignable(es, a),
    ensures
        spec_all_ok(output_models(es, a), a),
{
    let out = output_models(es, a);
    assert forall|i: int| 0 <= i < out.len() implies entry_ok(#[trigger] out[i], a) by {
        lemma_offset_nonneg(es, a, i);
        lemma_padding_at_bounds(es, a, i);
        lemma_offset_step(es, a, i);
        lemma_offset_monotone(es, a, i + 1, es.len() as int);
        assert(data_start_at(es, a, i) <= offset_of(es, a, es.len() as int));
        assert(out[i].data_start == data_start_at(es, a, i));
        assert(out[i].data_start as int % a == 0);
    }
}

} // verus!
