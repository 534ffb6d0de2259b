//! Big-endian views of the byte stream.
//!
//! Every multi-byte quantity in a class file is big-endian.  These spec
//! functions say what the cursor's readers return, as a function of the
//! byte sequence and an offset.

use vstd::prelude::*;

verus! {

/// The big-endian 16-bit value spelled by `bytes[off]` and `bytes[off + 1]`.
pub open spec fn be_u16(bytes: Seq<u8>, off: int) -> u16
    recommends
        0 <= off,
        off + 2 <= bytes.len(),
{
    ((bytes[off] as int) * 0x100 + bytes[off + 1] as int) as u16
}

/// The big-endian 32-bit value spelled by the four bytes at `off`.
pub open spec fn be_u32(bytes: Seq<u8>, off: int) -> u32
    recommends
        0 <= off,
        off + 4 <= bytes.len(),
{
    ((bytes[off] as int) * 0x1000000 + (bytes[off + 1] as int) * 0x10000
        + (bytes[off + 2] as int) * 0x100 + bytes[off + 3] as int) as u32
}

/// The big-endian 32-bit two's-complement value at `off`, as an integer.
pub open spec fn be_i32_val(bytes: Seq<u8>, off: int) -> int
    recommends
        0 <= off,
        off + 4 <= bytes.len(),
{
    if be_u32(bytes, off) < 0x8000_0000 {
        be_u32(bytes, off) as int
    } else {
        be_u32(bytes, off) - 0x1_0000_0000
    }
}

/// Reads `rem` big-endian 16-bit values starting at `off`, appending them to
/// `acc`; the result carries the values and the offset after the last one.
/// Fails with `Truncated` when the buffer ends first.
pub open spec fn spec_u16s(bytes: Seq<u8>, off: int, rem: int, acc: Seq<u16>) -> Result<
    (Seq<u16>, int),
    crate::error::SpecError,
>
    decreases rem,
{
    if rem <= 0 {
        Ok((acc, off))
    } else if off + 2 > bytes.len() {
        Err(crate::error::SpecError::Truncated)
    } else {
        spec_u16s(bytes, off + 2, rem - 1, acc.push(be_u16(bytes, off)))
    }
}

/// Reading `u16`s never moves the offset backwards.
pub proof fn lemma_u16s_advances(bytes: Seq<u8>, off: int, rem: int, acc: Seq<u16>)
    ensures
        spec_u16s(bytes, off, rem, acc) matches Ok(r) ==> r.1 >= off,
    decreases rem,
{
    if rem <= 0 {
    } else if off + 2 > bytes.len() {
    } else {
        lemma_u16s_advances(bytes, off + 2, rem - 1, acc.push(be_u16(bytes, off)));
    }
}

/// Reading `u16`s from a prefix of the buffer: a run that stayed inside the
/// prefix is unchanged, and one that needed a byte past the cut fails with
/// `Truncated`.
pub proof fn lemma_u16s_truncated(bytes: Seq<u8>, m: int, off: int, rem: int, acc: Seq<u16>)
    requires
        0 <= off <= m <= bytes.len(),
    ensures
        spec_u16s(bytes, off, rem, acc) matches Ok(r) ==> spec_u16s(bytes.take(m), off, rem, acc)
            == (if r.1 <= m {
            Ok::<(Seq<u16>, int), crate::error::SpecError>(r)
        } else {
            Err(crate::error::SpecError::Truncated)
        }),
    decreases rem,
{
    broadcast use vstd::seq::group_seq_axioms;

    if rem <= 0 {
    } else if off + 2 > bytes.len() {
    } else {
        let v = be_u16(bytes, off);
        lemma_u16s_advances(bytes, off + 2, rem - 1, acc.push(v));
        if off + 2 <= m {
            assert(be_u16(bytes.take(m), off) == v);
            lemma_u16s_truncated(bytes, m, off + 2, rem - 1, acc.push(v));
        }
    }
}

} // verus!
