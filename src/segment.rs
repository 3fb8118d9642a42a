use vstd::prelude::*;

verus! {

/// One loadable segment of an ELF image, as its program header describes it.
#[derive(Clone, Copy, Debug, PartialEq, Eq)]
pub struct Segment {
    /// The physical (load) address of the segment.
    pub address: u64,
    /// Where the segment's bytes start in the file.
    pub file_offset: u64,
    /// The size of the segment in memory.
    pub mem_size: u64,
    /// The number of bytes of the segment that the file holds.
    pub file_size: u64,
}

impl Segment {
    /// The part of the segment that is both loaded and backed by the file.
    pub open spec fn size(self) -> int {
        if self.mem_size <= self.file_size {
            self.mem_size as int
        } else {
            self.file_size as int
        }
    }

    /// One past the last address of the file-backed part.
    pub open spec fn end(self) -> int {
        self.address + self.size()
    }

    /// Whether the address range `[a, a + n)` lies wholly inside the segment.
    pub open spec fn covers(self, a: int, n: int) -> bool {
        self.address <= a && a + n <= self.end()
    }

    /// Whether the file-backed part of the segment lies inside a file of `len` bytes.
    pub open spec fn within(self, len: int) -> bool {
        self.file_offset + self.size() <= len
    }

    /// The bytes of `buf` that hold the address range `[a, a + n)` of this segment.
    pub open spec fn bytes_at(self, buf: Seq<u8>, a: int, n: int) -> Seq<u8> {
        let start = self.file_offset + (a - self.address);
        buf.subrange(start, start + n)
    }

    /// The size of the file-backed part: the smaller of the memory and file sizes.
    pub fn effective_size(&self) -> (r: u64)
        ensures
            r == self.size(),
    {
        if self.mem_size <= self.file_size {
            self.mem_size
        } else {
            self.file_size
        }
    }
}

/// Every segment of `segs` lies inside a file of `len` bytes.
pub open spec fn segments_within(segs: Seq<Segment>, len: int) -> bool {
    forall|i: int| 0 <= i < segs.len() ==> #[trigger] segs[i].within(len)
}

/// Whether every segment of `segments` lies inside a file of `len` bytes.
pub fn all_within(segments: &[Segment], len: usize) -> (r: bool)
    ensures
        r == segments_within(segments@, len as int),
{
    let mut i: usize = 0;
    while i < segments.len()
        invariant
            0 <= i <= segments@.len(),
            forall|j: int| 0 <= j < i ==> #[trigger] segments@[j].within(len as int),
        decreases segments@.len() - i,
    {
        let seg = &segments[i];
        let size = seg.effective_size();
        if seg.file_offset > len as u64 || size > len as u64 - seg.file_offset {
            assert(!segments@[i as int].within(len as int));
            return false;
        }
        i = i + 1;
    }
    true
}

/// No two segments of `segs` share an address.
pub open spec fn non_overlapping(segs: Seq<Segment>) -> bool {
    forall|i: int, j: int|
        0 <= i < segs.len() && 0 <= j < segs.len() && i != j ==> #[trigger] segs[i].end()
            <= #[trigger] segs[j].address || segs[j].end() <= segs[i].address
}

/// The bytes for `[a, a + n)` taken from the first segment at index `i` or later that covers
/// the whole range, if there is one.
pub open spec fn window_from(segs: Seq<Segment>, buf: Seq<u8>, a: int, n: int, i: int) -> Option<
    Seq<u8>,
>
    decreases segs.len() - i,
{
    if i < 0 || i >= segs.len() {
        None
    } else if segs[i].covers(a, n) {
        Some(segs[i].bytes_at(buf, a, n))
    } else {
        window_from(segs, buf, a, n, i + 1)
    }
}

/// The bytes for `[a, a + n)` taken from the first segment that covers the whole range.
pub open spec fn window(segs: Seq<Segment>, buf: Seq<u8>, a: int, n: int) -> Option<Seq<u8>> {
    window_from(segs, buf, a, n, 0)
}

/// The contents of a window handed out as a slice.
pub open spec fn window_view(r: Option<&[u8]>) -> Option<Seq<u8>> {
    match r {
        Some(w) => Some(w@),
        None => None,
    }
}

proof fn lemma_window_from_first(segs: Seq<Segment>, buf: Seq<u8>, a: int, n: int, i: int, k: int)
    requires
        0 <= i <= k < segs.len(),
        segs[k].covers(a, n),
        forall|j: int| i <= j < k ==> !#[trigger] segs[j].covers(a, n),
    ensures
        window_from(segs, buf, a, n, i) == Some(segs[k].bytes_at(buf, a, n)),
    decreases k - i,
{
    if i < k {
        lemma_window_from_first(segs, buf, a, n, i + 1, k);
    }
}

proof fn lemma_window_from_none(segs: Seq<Segment>, buf: Seq<u8>, a: int, n: int, i: int)
    requires
        0 <= i,
        forall|j: int| i <= j < segs.len() ==> !#[trigger] segs[j].covers(a, n),
    ensures
        window_from(segs, buf, a, n, i) is None,
    decreases segs.len() - i,
{
    if i < segs.len() {
        lemma_window_from_none(segs, buf, a, n, i + 1);
    }
}

/// A window taken from segments that lie inside the file has the length asked for.
pub proof fn lemma_window_len(segs: Seq<Segment>, buf: Seq<u8>, a: int, n: int, i: int)
    requires
        segments_within(segs, buf.len() as int),
        n >= 0,
    ensures
        window_from(segs, buf, a, n, i) matches Some(w) ==> w.len() == n,
    decreases segs.len() - i,
{
    if 0 <= i < segs.len() {
        assert(segs[i].within(buf.len() as int));
        lemma_window_len(segs, buf, a, n, i + 1);
    }
}

/// A range that lies wholly inside one segment of a table of non-overlapping segments is
/// resolved to the bytes at that segment's file offset plus the distance of the range from the
/// segment's start, as many as the range is long.
pub proof fn lemma_range_inside_segment(
    segs: Seq<Segment>,
    buf: Seq<u8>,
    a: int,
    n: int,
    k: int,
)
    requires
        non_overlapping(segs),
        0 <= k < segs.len(),
        n > 0,
        segs[k].covers(a, n),
    ensures
        window(segs, buf, a, n) == Some(
            buf.subrange(
                segs[k].file_offset + (a - segs[k].address),
                segs[k].file_offset + (a - segs[k].address) + n,
            ),
        ),
{
    assert forall|j: int| 0 <= j < k implies !#[trigger] segs[j].covers(a, n) by {
        if segs[j].covers(a, n) {
            assert(segs[j].end() <= segs[k].address || segs[k].end() <= segs[j].address);
        }
    }
    lemma_window_from_first(segs, buf, a, n, 0, k);
}

/// A non-empty range that meets no segment at all is not resolved.
pub proof fn lemma_range_outside_segments(segs: Seq<Segment>, buf: Seq<u8>, a: int, n: int)
    requires
        n > 0,
        forall|j: int|
            0 <= j < segs.len() ==> #[trigger] segs[j].end() <= a || a + n <= segs[j].address,
    ensures
        window(segs, buf, a, n) is None,
{
    assert forall|j: int| 0 <= j < segs.len() implies !#[trigger] segs[j].covers(a, n) by {
        assert(segs[j].end() <= a || a + n <= segs[j].address);
    }
    lemma_window_from_none(segs, buf, a, n, 0);
}

/// In a table of non-overlapping segments, a range that starts in one non-empty segment and
/// runs on into the segment that follows it directly is not resolved: no single segment covers
/// it.
pub proof fn lemma_range_across_adjacent_segments(
    segs: Seq<Segment>,
    buf: Seq<u8>,
    a: int,
    n: int,
    k1: int,
    k2: int,
)
    requires
        non_overlapping(segs),
        0 <= k1 < segs.len(),
        0 <= k2 < segs.len(),
        segs[k1].size() > 0,
        segs[k1].end() == segs[k2].address,
        segs[k1].address <= a < segs[k1].end() < a + n,
    ensures
        window(segs, buf, a, n) is None,
{
    assert forall|j: int| 0 <= j < segs.len() implies !#[trigger] segs[j].covers(a, n) by {
        if segs[j].covers(a, n) && j != k1 {
            assert(segs[j].end() <= segs[k1].address || segs[k1].end() <= segs[j].address);
        }
    }
    lemma_window_from_none(segs, buf, a, n, 0);
}

/// Resolving the same range twice against the same segments and bytes gives the same result.
pub proof fn lemma_resolve_deterministic(
    segs: Seq<Segment>,
    buf: Seq<u8>,
    a: int,
    n: int,
    first: Option<Seq<u8>>,
    second: Option<Seq<u8>>,
)
    requires
        first == window(segs, buf, a, n),
        second == window(segs, buf, a, n),
    ensures
        first == second,
{
}

} // verus!
