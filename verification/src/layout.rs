//! Mathematical description of the two physical layouts of a strfile
//! index: where each header field sits in the byte stream, where the
//! offset table begins, and which offsets a stream of a given length can
//! still supply in full.

use vstd::prelude::*;
use vstd::arithmetic::div_mod::lemma_fundamental_div_mod_converse_div;

verus! {

/// Flag bit: the index was shuffled into a random order.
pub const FLAG_RANDOM: u32 = 0x1;

/// Flag bit: the index was sorted.
pub const FLAG_ORDERED: u32 = 0x2;

/// Flag bit: the record text is ROT13-obfuscated.
pub const FLAG_ROTATED: u32 = 0x4;

/// All flag bits this decoder understands.
pub const FLAG_MASK: u32 = 0x7;

/// The big-endian 32-bit value stored at byte position `pos`.
pub open spec fn be_u32(s: Seq<u8>, pos: int) -> u32 {
    ((s[pos] as u32) << 24) | ((s[pos + 1] as u32) << 16) | ((s[pos + 2] as u32) << 8)
        | (s[pos + 3] as u32)
}

/// The version sentinel, stored first in both layouts.
pub open spec fn version_of(s: Seq<u8>) -> u32 {
    be_u32(s, 0)
}

/// Version `1` selects the padded layout; every other value selects the
/// standard layout.
pub open spec fn padded_of(s: Seq<u8>) -> bool {
    version_of(s) == 1
}

/// Distance between consecutive values of the offset table.
pub open spec fn field_step(padded: bool) -> int {
    if padded { 8 } else { 4 }
}

/// Byte position of the declared record count.
pub open spec fn count_pos(padded: bool) -> int {
    if padded { 8 } else { 4 }
}

/// Byte position of the declared longest record length.
pub open spec fn longest_pos(padded: bool) -> int {
    if padded { 16 } else { 8 }
}

/// Byte position of the declared shortest record length.
pub open spec fn shortest_pos(padded: bool) -> int {
    if padded { 24 } else { 12 }
}

/// Byte position of the flags word.
pub open spec fn flags_pos(padded: bool) -> int {
    if padded { 32 } else { 16 }
}

/// Byte position of the record delimiter byte.
pub open spec fn delim_pos(padded: bool) -> int {
    if padded { 40 } else { 20 }
}

/// Byte position where the offset table begins.
pub open spec fn table_pos(padded: bool) -> int {
    if padded { 48 } else { 24 }
}

/// Bytes a stream must hold for the whole header, delimiter included.
pub open spec fn header_len(padded: bool) -> int {
    delim_pos(padded) + 1
}

/// Byte position of the `i`-th value of the offset table.
pub open spec fn offset_pos(padded: bool, i: int) -> int {
    table_pos(padded) + field_step(padded) * i
}

/// Whether a stream of `len` bytes holds the `i`-th offset in full.
pub open spec fn offset_in_bounds(len: int, padded: bool, i: int) -> bool {
    offset_pos(padded, i) + 4 <= len
}

/// The `i`-th value of the offset table.
pub open spec fn offset_at(s: Seq<u8>, padded: bool, i: int) -> u32 {
    be_u32(s, offset_pos(padded, i))
}

/// How many leading values of the offset table a stream of `len` bytes
/// holds in full.
pub open spec fn avail_offsets(len: int, padded: bool) -> int {
    if len < table_pos(padded) + 4 {
        0
    } else {
        (len - table_pos(padded) - 4) / field_step(padded) + 1
    }
}

/// Offsets sit at increasing positions, so a stream that holds a later
/// offset holds every earlier one as well.
pub proof fn lemma_in_bounds_mono(len: int, padded: bool, i: int, j: int)
    requires
        0 <= i <= j,
        offset_in_bounds(len, padded, j),
    ensures
        offset_in_bounds(len, padded, i),
{
    let step = field_step(padded);
    assert(step * i <= step * j) by (nonlinear_arith)
        requires
            0 <= i <= j,
            step > 0,
    ;
}

/// The offsets a stream holds in full are exactly those below
/// `avail_offsets`: the table is cut off at one point and nowhere else.
pub proof fn lemma_avail_offsets(len: int, padded: bool, i: int)
    requires
        0 <= i,
    ensures
        offset_in_bounds(len, padded, i) <==> i < avail_offsets(len, padded),
{
    let table = table_pos(padded);
    let step = field_step(padded);
    if len < table + 4 {
        assert(step * i >= 0) by (nonlinear_arith)
            requires
                step > 0,
                i >= 0,
        ;
    } else {
        let a = len - table - 4;
        let q = a / step;
        assert(a == q * step + a % step && 0 <= a % step < step) by {
            vstd::arithmetic::div_mod::lemma_fundamental_div_mod(a, step);
            vstd::arithmetic::div_mod::lemma_mod_bound(a, step);
        }
        if i <= q {
            assert(step * i <= step * q) by (nonlinear_arith)
                requires
                    step > 0,
                    i <= q,
            ;
            assert(step * q <= a);
        } else {
            assert(step * i >= step * (q + 1)) by (nonlinear_arith)
                requires
                    step > 0,
                    i >= q + 1,
            ;
            assert(step * (q + 1) == step * q + step) by (nonlinear_arith);
            assert(step * i > a);
        }
    }
}

/// Characterization in the other direction: a run of `k` offsets that are
/// present, cut off at `k`, pins `avail_offsets` to exactly `k`.
pub proof fn lemma_avail_offsets_exact(len: int, padded: bool, k: int)
    requires
        0 <= k,
        forall|j: int| 0 <= j < k ==> offset_in_bounds(len, padded, j),
        !offset_in_bounds(len, padded, k),
    ensures
        avail_offsets(len, padded) == k,
{
    let table = table_pos(padded);
    let step = field_step(padded);
    if k == 0 {
        assert(!offset_in_bounds(len, padded, 0));
        assert(offset_pos(padded, 0) == table) by (nonlinear_arith)
            requires
                offset_pos(padded, 0) == table + step * 0,
        ;
        assert(len < table + 4);
    } else {
        assert(offset_in_bounds(len, padded, k - 1));
        let a = len - table - 4;
        assert(step * (k - 1) <= a);
        assert(step * k > a);
        assert(a >= 0) by (nonlinear_arith)
            requires
                step > 0,
                k - 1 >= 0,
                step * (k - 1) <= a,
        ;
        let r = a - (k - 1) * step;
        assert(r < step) by (nonlinear_arith)
            requires
                step * k > a,
                r == a - (k - 1) * step,
        ;
        assert(r >= 0) by (nonlinear_arith)
            requires
                step * (k - 1) <= a,
                r == a - (k - 1) * step,
        ;
        lemma_fundamental_div_mod_converse_div(a, step, k - 1, r);
        assert(a / step == k - 1);
    }
}

} // verus!
