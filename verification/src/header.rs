//! The checks a table file must pass before its bytes are handed to a
//! decoder. The fixed 20-byte header — a magic value and four little-endian
//! counters — pins the table's schema numbers, keeps the decoder's size
//! arithmetic in range, and promises it enough bytes for the record area and
//! the string block. The string-region check then confirms that every
//! record's string references, at the table's fixed field positions, are
//! zero or point inside the string block, and that the block ends in a
//! terminator: the decoder's string resolution then stays in bounds on
//! every path.

use vstd::prelude::*;

verus! {

/// The four bytes at `off`, read as a little-endian 32-bit integer.
pub open spec fn le_u32_at(data: Seq<u8>, off: int) -> int {
    data[off] + data[off + 1] * 0x100 + data[off + 2] * 0x1_0000 + data[off + 3] * 0x100_0000
}

/// The magic value that opens every table file.
pub open spec fn spec_magic() -> int {
    0x43424457
}

/// Whether a byte image opens with a well-formed header for the table with
/// the given field count and record size: the right magic, the right schema
/// numbers, a record area whose byte size stays in 32-bit range, and record
/// area plus string block lying within the file.
pub open spec fn spec_header_ok(data: Seq<u8>, field_count: int, record_size: int) -> bool {
    &&& data.len() >= 20
    &&& le_u32_at(data, 0) == spec_magic()
    &&& le_u32_at(data, 8) == field_count
    &&& le_u32_at(data, 12) == record_size
    &&& le_u32_at(data, 4) * record_size < 0x1_0000_0000
    &&& 20 + le_u32_at(data, 4) * record_size + le_u32_at(data, 16) <= data.len()
}

fn le_u32(data: &[u8], off: usize) -> (r: u32)
    requires
        off + 4 <= data@.len(),
    ensures
        r == le_u32_at(data@, off as int),
{
    (data[off] as u32) + (data[off + 1] as u32) * 0x100 + (data[off + 2] as u32) * 0x1_0000 + (
    data[off + 3] as u32) * 0x100_0000
}

/// Whether the byte image opens with a well-formed header for this schema.
pub fn header_ok(data: &[u8], field_count: u32, record_size: u32) -> (r: bool)
    ensures
        r == spec_header_ok(data@, field_count as int, record_size as int),
{
    if data.len() < 20 {
        return false;
    }
    let magic = le_u32(data, 0);
    let rc = le_u32(data, 4);
    let fc = le_u32(data, 8);
    let rs = le_u32(data, 12);
    let sbs = le_u32(data, 16);
    if magic != 0x43424457u32 || fc != field_count || rs != record_size {
        return false;
    }
    proof {
        assert((rc as int) * (rs as int) <= 0xFFFF_FFFF * 0xFFFF_FFFF) by (nonlinear_arith)
            requires
                0 <= rc as int <= 0xFFFF_FFFF,
                0 <= rs as int <= 0xFFFF_FFFF,
        ;
    }
    let area: u64 = (rc as u64) * (rs as u64);
    if area >= 0x1_0000_0000u64 {
        return false;
    }
    20u64 + area + (sbs as u64) <= data.len() as u64
}

/// A run of consecutive record field indices, both ends inclusive.
pub open spec fn field_run(from: u32, upto: u32) -> Seq<u32> {
    Seq::new((upto - from + 1) as nat, |i: int| (from + i) as u32)
}

/// Push the field indices `from..=upto` onto a list.
pub fn push_field_run(refs: &mut Vec<u32>, from: u32, upto: u32)
    requires
        from <= upto,
        upto < 0x1000,
    ensures
        final(refs)@ == old(refs)@ + field_run(from, upto),
{
    let ghost orig = refs@;
    let mut cur: u32 = from;
    while cur <= upto
        invariant
            from <= cur <= upto + 1,
            upto < 0x1000,
            refs@ =~= orig + field_run(from, upto).take(cur - from),
        decreases upto + 1 - cur,
    {
        refs.push(cur);
        proof {
            assert(field_run(from, upto).take(cur + 1 - from) =~= field_run(from, upto).take(
                cur - from,
            ).push(cur));
        }
        cur = cur + 1;
    }
    proof {
        assert(field_run(from, upto).take(upto + 1 - from) =~= field_run(from, upto));
    }
}

/// One string reference: zero, or an offset inside the string block.
pub open spec fn spec_ref_in_block(data: Seq<u8>, off: int, sbs: int) -> bool {
    le_u32_at(data, off) == 0 || le_u32_at(data, off) < sbs
}

/// Every string reference of the record at `base`, at the given field
/// indices.
pub open spec fn spec_record_refs_ok(data: Seq<u8>, base: int, refs: Seq<u32>, sbs: int) -> bool
    decreases refs.len(),
{
    if refs.len() == 0 {
        true
    } else {
        spec_record_refs_ok(data, base, refs.drop_last(), sbs) && spec_ref_in_block(
            data,
            base + 4 * (refs.last() as int),
            sbs,
        )
    }
}

/// Every string reference of the first `r` records.
pub open spec fn spec_refs_ok_upto(
    data: Seq<u8>,
    record_size: int,
    refs: Seq<u32>,
    sbs: int,
    r: int,
) -> bool
    decreases r,
{
    if r <= 0 {
        true
    } else {
        spec_refs_ok_upto(data, record_size, refs, sbs, r - 1) && spec_record_refs_ok(
            data,
            20 + (r - 1) * record_size,
            refs,
            sbs,
        )
    }
}

/// Whether a byte image is safe to hand this table's decoder: a well-formed
/// header, every string-reference field within the record, every record's
/// string references zero or inside the string block, and the block, when
/// it is nonempty, ending in a terminator.
pub open spec fn spec_table_ok(
    data: Seq<u8>,
    field_count: int,
    record_size: int,
    refs: Seq<u32>,
) -> bool {
    &&& spec_header_ok(data, field_count, record_size)
    &&& forall|j: int| 0 <= j < refs.len() ==> 4 * ((#[trigger] refs[j]) as int) + 4 <= record_size
    &&& spec_refs_ok_upto(data, record_size, refs, le_u32_at(data, 16), le_u32_at(data, 4))
    &&& le_u32_at(data, 16) > 0 ==> data[20 + le_u32_at(data, 4) * record_size + le_u32_at(
        data,
        16,
    ) - 1] == 0
}

proof fn lemma_refs_ok_upto_at(
    data: Seq<u8>,
    record_size: int,
    refs: Seq<u32>,
    sbs: int,
    rcount: int,
    r: int,
)
    requires
        0 <= r < rcount,
        spec_refs_ok_upto(data, record_size, refs, sbs, rcount),
    ensures
        spec_record_refs_ok(data, 20 + r * record_size, refs, sbs),
    decreases rcount,
{
    if r < rcount - 1 {
        lemma_refs_ok_upto_at(data, record_size, refs, sbs, rcount - 1, r);
    }
}

proof fn lemma_record_refs_ok_at(data: Seq<u8>, base: int, refs: Seq<u32>, sbs: int, j: int)
    requires
        0 <= j < refs.len(),
        spec_record_refs_ok(data, base, refs, sbs),
    ensures
        spec_ref_in_block(data, base + 4 * (refs[j] as int), sbs),
    decreases refs.len(),
{
    if j < refs.len() - 1 {
        assert(refs.drop_last()[j] == refs[j]);
        lemma_record_refs_ok_at(data, base, refs.drop_last(), sbs, j);
    } else {
        assert(refs.last() == refs[j]);
    }
}

/// Whether the byte image is safe to hand the decoder of the table with the
/// given schema numbers and string-reference field positions.
pub fn table_ok(data: &[u8], field_count: u32, record_size: u32, refs: &Vec<u32>) -> (r: bool)
    ensures
        r == spec_table_ok(data@, field_count as int, record_size as int, refs@),
{
    if !header_ok(data, field_count, record_size) {
        return false;
    }
    let rc = le_u32(data, 4);
    let sbs = le_u32(data, 16);
    let dlen = data.len();
    let nrefs = refs.len();
    let mut j: usize = 0;
    while j < nrefs
        invariant
            0 <= j <= nrefs,
            nrefs == refs@.len(),
            forall|q: int|
                0 <= q < j ==> 4 * ((#[trigger] refs@[q]) as int) + 4 <= record_size as int,
        decreases nrefs - j,
    {
        let f = refs[j];
        if 4u64 * (f as u64) + 4 > record_size as u64 {
            proof {
                assert(!(4 * (refs@[j as int] as int) + 4 <= record_size as int));
            }
            return false;
        }
        j = j + 1;
    }
    proof {
        assert((rc as int) * (record_size as int) <= 0xFFFF_FFFF * 0xFFFF_FFFF) by (nonlinear_arith)
            requires
                0 <= rc as int <= 0xFFFF_FFFF,
                0 <= record_size as int <= 0xFFFF_FFFF,
        ;
    }
    let area: u64 = (rc as u64) * (record_size as u64);
    if sbs > 0 {
        let t: u64 = 20 + area + (sbs as u64) - 1;
        proof {
            assert(t < data@.len());
        }
        proof {
            assert(t as usize as int == t as int);
            assert(t as int == 20 + le_u32_at(data@, 4) * (record_size as int) + le_u32_at(
                data@,
                16,
            ) - 1);
        }
        if data[t as usize] != 0 {
            return false;
        }
    }
    let mut r: u32 = 0;
    while r < rc
        invariant
            0 <= r <= rc,
            nrefs == refs@.len(),
            dlen == data@.len(),
            spec_header_ok(data@, field_count as int, record_size as int),
            rc as int == le_u32_at(data@, 4),
            sbs as int == le_u32_at(data@, 16),
            forall|q: int|
                0 <= q < nrefs ==> 4 * ((#[trigger] refs@[q]) as int) + 4 <= record_size as int,
            spec_refs_ok_upto(
                data@,
                record_size as int,
                refs@,
                sbs as int,
                r as int,
            ),
        decreases rc - r,
    {
        proof {
            assert((r as int) * (record_size as int) + record_size as int == ((r as int) + 1) * (
            record_size as int)) by (nonlinear_arith);
            assert(((r as int) + 1) * (record_size as int) <= (rc as int) * (record_size as int))
                by (nonlinear_arith)
                requires
                    (r as int) + 1 <= rc as int,
                    record_size as int >= 0,
            ;
        }
        let base: u64 = 20 + (r as u64) * (record_size as u64);
        let ghost base_i = 20 + (r as int) * (record_size as int);
        proof {
            assert(base == base_i);
            assert(base_i + record_size as int <= data@.len());
        }
        let mut j: usize = 0;
        while j < nrefs
            invariant
                0 <= j <= nrefs,
                nrefs == refs@.len(),
                dlen == data@.len(),
                r < rc,
                spec_header_ok(data@, field_count as int, record_size as int),
                rc as int == le_u32_at(data@, 4),
                sbs as int == le_u32_at(data@, 16),
                forall|q: int|
                    0 <= q < nrefs ==> 4 * ((#[trigger] refs@[q]) as int) + 4 <= record_size as int,
                spec_refs_ok_upto(
                    data@,
                    record_size as int,
                    refs@,
                    sbs as int,
                    r as int,
                ),
                base == base_i,
                base_i == 20 + (r as int) * (record_size as int),
                base_i + record_size as int <= data@.len(),
                spec_record_refs_ok(data@, base_i, refs@.take(j as int), sbs as int),
            decreases nrefs - j,
        {
            let f = refs[j];
            proof {
                assert(4 * (refs@[j as int] as int) + 4 <= record_size as int);
                assert(base_i + 4 * (refs@[j as int] as int) + 4 <= dlen as int);
            }
            let off: u64 = base + 4u64 * (f as u64);
            proof {
                assert(off as int == base_i + 4 * (refs@[j as int] as int));
                assert(off + 4 <= dlen as u64);
                assert(off as usize as int == off as int);
            }
            let v = le_u32(data, off as usize);
            if v != 0 && v >= sbs {
                proof {
                    if spec_refs_ok_upto(
                        data@,
                        record_size as int,
                        refs@,
                        sbs as int,
                        rc as int,
                    ) {
                        lemma_refs_ok_upto_at(
                            data@,
                            record_size as int,
                            refs@,
                            sbs as int,
                            rc as int,
                            r as int,
                        );
                        lemma_record_refs_ok_at(
                            data@,
                            base_i,
                            refs@,
                            sbs as int,
                            j as int,
                        );
                        assert(false);
                    }
                }
                return false;
            }
            proof {
                assert(spec_ref_in_block(data@, base_i + 4 * (refs@[j as int] as int), sbs as int));
                assert(refs@.take(j + 1).drop_last() =~= refs@.take(j as int));
                assert(refs@.take(j + 1).last() == refs@[j as int]);
            }
            j = j + 1;
        }
        proof {
            assert(refs@.take(nrefs as int) =~= refs@);
            assert(spec_refs_ok_upto(
                data@,
                record_size as int,
                refs@,
                sbs as int,
                r as int + 1,
            ));
        }
        r = r + 1;
    }
    true
}

} // verus!
