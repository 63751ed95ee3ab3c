//! Library-wide guarantees of the decoder, stated once over the byte
//! stream. [`StrMap::read`](crate::StrMap::read) pins the decoded index
//! to the same spec functions these laws speak of, so each carries over
//! to every value it returns.

use vstd::prelude::*;

use crate::decode::DecodeError;
use crate::decode::count_of;
use crate::decode::decode_err;
use crate::decode::decode_ok;
use crate::decode::delimiter_of;
use crate::decode::flags_of;
use crate::decode::flags_ok;
use crate::decode::header_ok;
use crate::decode::longest_of;
use crate::decode::shortest_of;
use crate::decode::spec_spans;
use crate::layout::FLAG_MASK;
use crate::layout::avail_offsets;
use crate::layout::lemma_avail_offsets;
use crate::layout::offset_at;
use crate::layout::offset_in_bounds;
use crate::layout::padded_of;

verus! {

/// A successful decode yields exactly the declared number of spans, and
/// adjacent spans share their boundary: span `i` ends where span `i + 1`
/// begins, with no gap or overlap.
pub proof fn lemma_spans_adjacent(s: Seq<u8>)
    requires
        decode_ok(s),
    ensures
        spec_spans(s).len() == count_of(s),
        forall|i: int|
            0 <= i && i + 1 < spec_spans(s).len() ==> (#[trigger] spec_spans(s)[i]).1
                == spec_spans(s)[i + 1].0,
{
}

/// Layout independence: two streams that decode successfully and agree
/// on the declared fields and on every raw offset decode to the same
/// index apart from the stored version — whichever physical layout each
/// of them uses.
pub proof fn lemma_layout_independence(s1: Seq<u8>, s2: Seq<u8>)
    requires
        decode_ok(s1),
        decode_ok(s2),
        count_of(s1) == count_of(s2),
        longest_of(s1) == longest_of(s2),
        shortest_of(s1) == shortest_of(s2),
        flags_of(s1) == flags_of(s2),
        delimiter_of(s1) == delimiter_of(s2),
        forall|i: int| 0 <= i <= count_of(s1) as int ==> offset_at(s1, padded_of(s1), i)
            == offset_at(s2, padded_of(s2), i),
    ensures
        spec_spans(s1) == spec_spans(s2),
{
    assert(spec_spans(s1) =~= spec_spans(s2));
}

/// The offset table decides success: with a whole header and clean
/// flags, decoding succeeds exactly when the stream holds all
/// `count + 1` offsets, and a shortfall fails with `Truncated` (nothing
/// of the table could be read) or `CountMismatch` (it was cut short).
pub proof fn lemma_offsets_decide_success(s: Seq<u8>)
    requires
        header_ok(s),
        flags_ok(s),
    ensures
        decode_ok(s) <==> avail_offsets(s.len() as int, padded_of(s)) >= count_of(s) as int + 1,
        !decode_ok(s) ==> (decode_err(s) == DecodeError::Truncated || decode_err(
            s,
        ) matches DecodeError::CountMismatch { .. }),
{
    lemma_avail_offsets(s.len() as int, padded_of(s), count_of(s) as int);
    if !decode_ok(s) {
        assert(!offset_in_bounds(s.len() as int, padded_of(s), count_of(s) as int));
    }
}

/// A flags word with any bit outside the three recognized ones makes
/// decoding fail with `UnrecognizedFlags`, whatever the other fields and
/// the offset table hold.
pub proof fn lemma_unknown_flags_rejected(s: Seq<u8>)
    requires
        header_ok(s),
        flags_of(s) & !FLAG_MASK != 0,
    ensures
        !decode_ok(s),
        decode_err(s) == DecodeError::UnrecognizedFlags,
{
}

/// A zero-count stream with a whole header, clean flags, and its one
/// trailing offset present decodes successfully to an empty span
/// sequence.
pub proof fn lemma_zero_count(s: Seq<u8>)
    requires
        header_ok(s),
        flags_ok(s),
        count_of(s) == 0,
        offset_in_bounds(s.len() as int, padded_of(s), 0),
    ensures
        decode_ok(s),
        spec_spans(s).len() == 0,
{
}

} // verus!
