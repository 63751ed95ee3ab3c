//! The decode pass: dispatch on the version sentinel, read the header
//! fields and the offset table with the chosen layout, pair adjacent
//! offsets into spans, and cross-validate the declared count against what
//! the table actually yielded.

use vstd::prelude::*;

use crate::index::IndexModel;
use crate::index::StrMap;
use crate::layout::FLAG_MASK;
use crate::layout::avail_offsets;
use crate::layout::be_u32;
use crate::layout::count_pos;
use crate::layout::delim_pos;
use crate::layout::field_step;
use crate::layout::flags_pos;
use crate::layout::header_len;
use crate::layout::lemma_avail_offsets_exact;
use crate::layout::lemma_in_bounds_mono;
use crate::layout::longest_pos;
use crate::layout::offset_at;
use crate::layout::offset_in_bounds;
use crate::layout::padded_of;
use crate::layout::shortest_pos;
use crate::layout::table_pos;
use crate::layout::version_of;

verus! {

/// Why a decode failed.
#[derive(Clone, Copy, Debug, PartialEq, Eq, Structural)]
pub enum DecodeError {
    /// The stream ended before a required header field or the first
    /// offset could be read in full.
    Truncated,
    /// The flags word holds a bit outside the three recognized ones; the
    /// file may be a format variant this decoder does not model.
    UnrecognizedFlags,
    /// The offset table yields a different number of spans than the
    /// header declared; both numbers are carried for diagnostics.
    CountMismatch { declared: u32, actual: u32 },
}

/// Whether the stream holds the whole header of its own layout,
/// delimiter byte included.
pub open spec fn header_ok(s: Seq<u8>) -> bool {
    s.len() >= header_len(padded_of(s))
}

/// The declared record count.
pub open spec fn count_of(s: Seq<u8>) -> u32 {
    be_u32(s, count_pos(padded_of(s)))
}

/// The declared longest record length.
pub open spec fn longest_of(s: Seq<u8>) -> u32 {
    be_u32(s, longest_pos(padded_of(s)))
}

/// The declared shortest record length.
pub open spec fn shortest_of(s: Seq<u8>) -> u32 {
    be_u32(s, shortest_pos(padded_of(s)))
}

/// The flags word.
pub open spec fn flags_of(s: Seq<u8>) -> u32 {
    be_u32(s, flags_pos(padded_of(s)))
}

/// The record delimiter byte.
pub open spec fn delimiter_of(s: Seq<u8>) -> u8 {
    s[delim_pos(padded_of(s))]
}

/// Whether the flags word stays inside the three recognized bits.
pub open spec fn flags_ok(s: Seq<u8>) -> bool {
    flags_of(s) & !FLAG_MASK == 0
}

/// Whether the stream holds all `count + 1` offsets: the last required
/// one sits furthest, so it alone decides.
pub open spec fn table_complete(s: Seq<u8>) -> bool {
    offset_in_bounds(s.len() as int, padded_of(s), count_of(s) as int)
}

/// Whether decoding the stream succeeds.
pub open spec fn decode_ok(s: Seq<u8>) -> bool {
    header_ok(s) && flags_ok(s) && table_complete(s)
}

/// The spans of a successfully decoded stream: adjacent offsets paired in
/// on-disk order, `count` of them.
pub open spec fn spec_spans(s: Seq<u8>) -> Seq<(u32, u32)> {
    Seq::new(
        count_of(s) as nat,
        |i: int| (offset_at(s, padded_of(s), i), offset_at(s, padded_of(s), i + 1)),
    )
}

/// The error a failing decode reports. Meaningful only when
/// `!decode_ok(s)`.
pub open spec fn decode_err(s: Seq<u8>) -> DecodeError {
    if !header_ok(s) {
        DecodeError::Truncated
    } else if !flags_ok(s) {
        DecodeError::UnrecognizedFlags
    } else if !offset_in_bounds(s.len() as int, padded_of(s), 0) {
        DecodeError::Truncated
    } else {
        DecodeError::CountMismatch {
            declared: count_of(s),
            actual: (avail_offsets(s.len() as int, padded_of(s)) - 1) as u32,
        }
    }
}

/// Reads the big-endian 32-bit value at byte position `pos`.
fn read_be_u32(bytes: &[u8], pos: usize) -> (r: u32)
    requires
        pos + 4 <= bytes@.len(),
    ensures
        r == be_u32(bytes@, pos as int),
{
    let b0 = bytes[pos];
    let b1 = bytes[pos + 1];
    let b2 = bytes[pos + 2];
    let b3 = bytes[pos + 3];
    ((b0 as u32) << 24u32) | ((b1 as u32) << 16u32) | ((b2 as u32) << 8u32) | (b3 as u32)
}

/// Reduces a sequence of raw offsets to adjacent pairs: each value after
/// the first closes the span its predecessor opened. The first value
/// opens the first span and yields nothing by itself; the span boundaries
/// are derived, never stored.
pub fn pair_adjacent(values: &Vec<u32>) -> (r: Vec<(u32, u32)>)
    ensures
        r@.len() == if values@.len() == 0 { 0int } else { values@.len() - 1 },
        forall|i: int| 0 <= i < r@.len() ==> r@[i] == (values@[i], values@[i + 1]),
{
    let mut r: Vec<(u32, u32)> = Vec::new();
    if values.len() == 0 {
        return r;
    }
    let mut j: usize = 1;
    while j < values.len()
        invariant
            1 <= j <= values@.len(),
            r@.len() == j - 1,
            forall|i: int| 0 <= i < r@.len() ==> r@[i] == (values@[i], values@[i + 1]),
        decreases values@.len() - j,
    {
        r.push((values[j - 1], values[j]));
        j = j + 1;
    }
    r
}

impl StrMap {
    /// Decodes a strfile index from the raw bytes of a `.dat` file.
    ///
    /// The version sentinel selects the layout for the whole pass; the
    /// header fields are read at that layout's positions, the offset
    /// table is paired into spans, and the declared count must match the
    /// number of spans the table yielded. Success and the exact failure
    /// are both pinned down: the result is `Ok` exactly on streams that
    /// satisfy [`decode_ok`], and a failure reports [`decode_err`].
    pub fn read(bytes: &[u8]) -> (r: Result<StrMap, DecodeError>)
        ensures
            r is Ok <==> decode_ok(bytes@),
            r matches Ok(m) ==> {
                &&& m.wf()
                &&& m@.version == version_of(bytes@)
                &&& m@.count == count_of(bytes@)
                &&& m@.longest == longest_of(bytes@)
                &&& m@.shortest == shortest_of(bytes@)
                &&& m@.flags == flags_of(bytes@)
                &&& m@.delimiter == delimiter_of(bytes@)
                &&& m@.spans == spec_spans(bytes@)
            },
            r matches Err(e) ==> e == decode_err(bytes@),
    {
        let len = bytes.len();
        if len < 4 {
            return Err(DecodeError::Truncated);
        }
        let version = read_be_u32(bytes, 0);
        let padded = version == 1;
        let header: usize = if padded { 41 } else { 21 };
        if len < header {
            return Err(DecodeError::Truncated);
        }
        let count = if padded { read_be_u32(bytes, 8) } else { read_be_u32(bytes, 4) };
        let longest = if padded { read_be_u32(bytes, 16) } else { read_be_u32(bytes, 8) };
        let shortest = if padded { read_be_u32(bytes, 24) } else { read_be_u32(bytes, 12) };
        let flags = if padded { read_be_u32(bytes, 32) } else { read_be_u32(bytes, 16) };
        let delimiter = if padded { bytes[40] } else { bytes[20] };
        if flags & !FLAG_MASK != 0 {
            return Err(DecodeError::UnrecognizedFlags);
        }
        let table: u64 = if padded { 48 } else { 24 };
        let step: u64 = if padded { 8 } else { 4 };
        let mut values: Vec<u32> = Vec::new();
        let mut i: u64 = 0;
        while i <= count as u64 && table + step * i + 4 <= len as u64
            invariant
                len == bytes@.len(),
                padded == padded_of(bytes@),
                count == count_of(bytes@),
                table as int == table_pos(padded),
                step as int == field_step(padded),
                i <= count as u64 + 1,
                values@.len() == i as int,
                forall|j: int| 0 <= j < i as int ==> offset_in_bounds(
                    len as int,
                    padded,
                    j,
                ) && values@[j] == offset_at(bytes@, padded, j),
            decreases count as int + 1 - i as int,
        {
            let pos64 = table + step * i;
            let pos = pos64 as usize;
            let v = read_be_u32(bytes, pos);
            values.push(v);
            i = i + 1;
        }
        if i == count as u64 + 1 {
            let spans = pair_adjacent(&values);
            assert(spans@ =~= spec_spans(bytes@));
            let m = StrMap::assemble(version, count, longest, shortest, flags, delimiter, spans);
            Ok(m)
        } else {
            proof {
                if offset_in_bounds(len as int, padded, count as int) {
                    lemma_in_bounds_mono(len as int, padded, i as int, count as int);
                }
            }
            if i == 0 {
                Err(DecodeError::Truncated)
            } else {
                proof {
                    lemma_avail_offsets_exact(len as int, padded, i as int);
                }
                Err(DecodeError::CountMismatch { declared: count, actual: (i - 1) as u32 })
            }
        }
    }
}

} // verus!
