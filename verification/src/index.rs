//! The decoded index value: an immutable record of the six header fields
//! plus the derived `(start, end)` spans, and a cursor type for walking
//! the spans in on-disk order.

use vstd::prelude::*;

use crate::layout::FLAG_MASK;
use crate::layout::FLAG_ORDERED;
use crate::layout::FLAG_RANDOM;
use crate::layout::FLAG_ROTATED;

verus! {

/// Mathematical content of a decoded index: the header fields as read and
/// the span sequence derived from the offset table.
pub struct IndexModel {
    pub version: u32,
    pub count: u32,
    pub longest: u32,
    pub shortest: u32,
    pub flags: u32,
    pub delimiter: u8,
    pub spans: Seq<(u32, u32)>,
}

/// A decoded strfile index. Built in one shot by [`StrMap::read`]; never
/// mutated afterwards.
#[derive(Debug)]
pub struct StrMap {
    version: u32,
    count: u32,
    longest: u32,
    shortest: u32,
    flags: u32,
    delimiter: u8,
    offsets: Vec<(u32, u32)>,
}

impl View for StrMap {
    type V = IndexModel;

    closed spec fn view(&self) -> IndexModel {
        IndexModel {
            version: self.version,
            count: self.count,
            longest: self.longest,
            shortest: self.shortest,
            flags: self.flags,
            delimiter: self.delimiter,
            spans: self.offsets@,
        }
    }
}

impl StrMap {
    /// A decoded index carries exactly as many spans as the header
    /// declared, and only recognized flag bits.
    pub open spec fn wf(&self) -> bool {
        &&& self@.spans.len() == self@.count
        &&& self@.flags & !FLAG_MASK == 0
    }

    /// The number of strings contained in the mapped file.
    pub fn len(&self) -> (r: u32)
        ensures
            r == self@.count,
    {
        self.count
    }

    /// The declared length of the longest string in the mapped file.
    pub fn longest(&self) -> (r: u32)
        ensures
            r == self@.longest,
    {
        self.longest
    }

    /// The declared length of the shortest string in the mapped file.
    pub fn shortest(&self) -> (r: u32)
        ensures
            r == self@.shortest,
    {
        self.shortest
    }

    /// The delimiter byte used in the mapped file.
    pub fn delimiter(&self) -> (r: u8)
        ensures
            r == self@.delimiter,
    {
        self.delimiter
    }

    /// The format version field, stored exactly as it was read.
    pub fn version(&self) -> (r: u32)
        ensures
            r == self@.version,
    {
        self.version
    }

    /// Whether the index for this file is randomized.
    pub fn is_random(&self) -> (r: bool)
        ensures
            r == (self@.flags & FLAG_RANDOM != 0),
    {
        self.flags & FLAG_RANDOM != 0
    }

    /// Whether the index for this file is sorted.
    pub fn is_ordered(&self) -> (r: bool)
        ensures
            r == (self@.flags & FLAG_ORDERED != 0),
    {
        self.flags & FLAG_ORDERED != 0
    }

    /// Whether the contents of this file have been rotated via rot13.
    pub fn is_rotated(&self) -> (r: bool)
        ensures
            r == (self@.flags & FLAG_ROTATED != 0),
    {
        self.flags & FLAG_ROTATED != 0
    }

    /// Returns a cursor over the string spans contained in this index, in
    /// on-disk order.
    pub fn iter(&self) -> (it: StrMapIter)
        ensures
            it@.spans == self@.spans,
            it@.pos == 0,
    {
        let mut spans: Vec<(u32, u32)> = Vec::new();
        let mut j: usize = 0;
        while j < self.offsets.len()
            invariant
                j <= self.offsets.len(),
                spans@ =~= self.offsets@.subrange(0, j as int),
            decreases self.offsets.len() - j,
        {
            spans.push(self.offsets[j]);
            j = j + 1;
        }
        assert(spans@ =~= self.offsets@);
        StrMapIter { spans, pos: 0 }
    }

    /// Assembles an index from already-validated parts.
    pub(crate) fn assemble(
        version: u32,
        count: u32,
        longest: u32,
        shortest: u32,
        flags: u32,
        delimiter: u8,
        offsets: Vec<(u32, u32)>,
    ) -> (m: StrMap)
        ensures
            m@ == (IndexModel {
                version,
                count,
                longest,
                shortest,
                flags,
                delimiter,
                spans: offsets@,
            }),
    {
        StrMap { version, count, longest, shortest, flags, delimiter, offsets }
    }
}

/// Mathematical content of a span cursor: the spans it walks and how many
/// it has already handed out.
pub struct IterModel {
    pub spans: Seq<(u32, u32)>,
    pub pos: int,
}

/// A cursor over the spans of a [`StrMap`], front to back.
pub struct StrMapIter {
    spans: Vec<(u32, u32)>,
    pos: usize,
}

impl View for StrMapIter {
    type V = IterModel;

    closed spec fn view(&self) -> IterModel {
        IterModel { spans: self.spans@, pos: self.pos as int }
    }
}

impl StrMapIter {
    /// Hands out the next span, or `None` once every span has been seen.
    pub fn next(&mut self) -> (r: Option<(u32, u32)>)
        ensures
            final(self)@.spans == old(self)@.spans,
            old(self)@.pos < old(self)@.spans.len() ==> {
                &&& r == Some(old(self)@.spans[old(self)@.pos])
                &&& final(self)@.pos == old(self)@.pos + 1
            },
            old(self)@.pos >= old(self)@.spans.len() ==> {
                &&& r is None
                &&& final(self)@.pos == old(self)@.pos
            },
    {
        if self.pos < self.spans.len() {
            let item = self.spans[self.pos];
            self.pos = self.pos + 1;
            Some(item)
        } else {
            None
        }
    }
}

} // verus!
