//! Splitting a resource of known size into contiguous byte ranges.

use vstd::prelude::*;

verus! {

/// Number of bytes in every segment but the last.
pub open spec fn segment_size(total: nat, segments: nat) -> nat {
    total / segments
}

/// Offset of the first byte of segment `i`.
pub open spec fn segment_start(total: nat, segments: nat, i: nat) -> nat {
    i * segment_size(total, segments)
}

/// Number of bytes in segment `i`; the last segment absorbs the remainder.
pub open spec fn segment_len(total: nat, segments: nat, i: nat) -> nat {
    if i + 1 == segments {
        (total - (segments - 1) * segment_size(total, segments)) as nat
    } else {
        segment_size(total, segments)
    }
}

/// Offset one past the last byte of segment `i`.
pub open spec fn segment_end(total: nat, segments: nat, i: nat) -> nat {
    segment_start(total, segments, i) + segment_len(total, segments, i)
}

/// A contiguous run of bytes `[start, start + len)` fetched by one worker.
#[derive(Debug, Clone, Copy, PartialEq, Eq, Structural)]
pub struct SegmentRange {
    /// Position of the segment among the segments of its task.
    pub index: usize,
    /// Offset of the first byte.
    pub start: u64,
    /// Number of bytes; zero when the resource is smaller than the segment count.
    pub len: u64,
}

impl SegmentRange {
    /// Offset one past the last byte.
    pub open spec fn end(self) -> nat {
        (self.start + self.len) as nat
    }

    /// Whether byte offset `b` belongs to the range.
    pub open spec fn contains(self, b: nat) -> bool {
        self.start <= b < self.end()
    }

    pub fn is_empty(&self) -> (r: bool)
        ensures
            r == (self.len == 0),
    {
        self.len == 0
    }

    /// Offset of the last byte, inclusive, as a range request names it.
    pub fn last_byte(&self) -> (r: Option<u64>)
        requires
            self.end() <= u64::MAX,
        ensures
            self.len == 0 ==> r is None,
            self.len > 0 ==> r == Some((self.start + self.len - 1) as u64),
    {
        if self.len == 0 {
            None
        } else {
            Some(self.start + (self.len - 1))
        }
    }
}

/// The range that the plan assigns to segment `i`.
pub open spec fn planned_range(total: u64, segments: usize, i: int) -> SegmentRange {
    SegmentRange {
        index: i as usize,
        start: segment_start(total as nat, segments as nat, i as nat) as u64,
        len: segment_len(total as nat, segments as nat, i as nat) as u64,
    }
}

/// The whole plan: one range for each segment, in order.
pub open spec fn planned_ranges(total: u64, segments: usize) -> Seq<SegmentRange> {
    Seq::new(segments as nat, |i: int| planned_range(total, segments, i))
}

/// The equal-sized segments before the last never reach past the total.
pub proof fn lemma_segments_fit(total: nat, segments: nat, i: nat)
    requires
        segments >= 1,
        i < segments,
    ensures
        segment_start(total, segments, i) <= (segments - 1) * segment_size(total, segments),
        (segments - 1) * segment_size(total, segments) <= total,
        segment_end(total, segments, i) <= total,
        i + 1 < segments ==> segment_end(total, segments, i) == segment_start(
            total,
            segments,
            i + 1,
        ),
        i + 1 == segments ==> segment_end(total, segments, i) == total,
{
    let q = total / segments;
    assert(segments * q <= total) by (nonlinear_arith)
        requires
            segments >= 1,
            q == total / segments,
    ;
    assert((segments - 1) * q <= segments * q) by (nonlinear_arith)
        requires
            segments >= 1,
            q >= 0,
    ;
    assert(i * q <= (segments - 1) * q) by (nonlinear_arith)
        requires
            i <= segments - 1,
            q >= 0,
    ;
    assert((i + 1) * q == i * q + q) by (nonlinear_arith);
    if i + 1 < segments {
        assert((i + 1) * q <= (segments - 1) * q) by (nonlinear_arith)
            requires
                i + 1 <= segments - 1,
                q >= 0,
        ;
    }
}

/// Whether byte offset `b` falls into segment `i` of the plan.
pub open spec fn segment_contains(total: nat, segments: nat, i: nat, b: nat) -> bool {
    segment_start(total, segments, i) <= b < segment_end(total, segments, i)
}

/// The segment that holds byte offset `b`.
pub open spec fn segment_of(total: nat, segments: nat, b: nat) -> nat {
    let q = segment_size(total, segments);
    if q == 0 || b / q >= segments {
        (segments - 1) as nat
    } else {
        b / q
    }
}

/// The plan tiles `[0, total)`: the first segment starts at offset zero,
/// each segment ends where the next one starts, the last one ends at
/// `total` and has `total - (segments - 1) * (total / segments)` bytes, and
/// every byte offset below `total` lies in exactly one segment.
pub proof fn lemma_plan_partitions(total: nat, segments: nat)
    requires
        segments >= 1,
    ensures
        segment_start(total, segments, 0) == 0,
        forall|i: nat|
            i + 1 < segments ==> #[trigger] segment_end(total, segments, i) == segment_start(
                total,
                segments,
                i + 1,
            ),
        segment_end(total, segments, (segments - 1) as nat) == total,
        segment_len(total, segments, (segments - 1) as nat) == total - (segments - 1) * (total
            / segments),
        forall|b: nat|
            b < total ==> segment_of(total, segments, b) < segments && #[trigger] segment_contains(
                total,
                segments,
                segment_of(total, segments, b),
                b,
            ),
        forall|b: nat, i: nat, j: nat|
            i < segments && j < segments && #[trigger] segment_contains(total, segments, i, b)
                && #[trigger] segment_contains(total, segments, j, b) ==> i == j,
{
    let q = segment_size(total, segments);
    let last = (segments - 1) as nat;
    assert(0 * q == 0) by (nonlinear_arith);
    lemma_segments_fit(total, segments, last);
    assert forall|i: nat| i + 1 < segments implies #[trigger] segment_end(total, segments, i)
        == segment_start(total, segments, i + 1) by {
        lemma_segments_fit(total, segments, i);
    }
    assert forall|b: nat| b < total implies segment_of(total, segments, b) < segments
        && #[trigger] segment_contains(total, segments, segment_of(total, segments, b), b) by {
        let k = segment_of(total, segments, b);
        lemma_segments_fit(total, segments, k);
        if q == 0 {
            assert(last * q == 0) by (nonlinear_arith)
                requires
                    q == 0,
            ;
        } else {
            let d = b / q;
            assert(d * q <= b < d * q + q) by (nonlinear_arith)
                requires
                    q > 0,
                    d == b / q,
            ;
            if d >= segments {
                assert(last * q <= d * q) by (nonlinear_arith)
                    requires
                        last <= d,
                        q >= 0,
                ;
            } else if d + 1 == segments {
            } else {
                assert((d + 1) * q == d * q + q) by (nonlinear_arith);
            }
        }
    }
    assert forall|b: nat, i: nat, j: nat|
        i < segments && j < segments && #[trigger] segment_contains(total, segments, i, b)
            && #[trigger] segment_contains(total, segments, j, b) implies i == j by {
        if i < j {
            lemma_segments_ordered(total, segments, i, j);
        } else if j < i {
            lemma_segments_ordered(total, segments, j, i);
        }
    }
}

/// An earlier segment ends no later than a later one starts.
pub proof fn lemma_segments_ordered(total: nat, segments: nat, i: nat, j: nat)
    requires
        segments >= 1,
        i < j < segments,
    ensures
        segment_end(total, segments, i) <= segment_start(total, segments, j),
{
    let q = segment_size(total, segments);
    lemma_segments_fit(total, segments, i);
    assert((i + 1) * q <= j * q) by (nonlinear_arith)
        requires
            i + 1 <= j,
            q >= 0,
    ;
}

/// Splits `[0, total)` into `segments` contiguous ranges: all of
/// `total / segments` bytes but the last, which takes what is left.
pub fn plan_segments(total: u64, segments: usize) -> (ranges: Vec<SegmentRange>)
    requires
        segments >= 1,
    ensures
        ranges@ == planned_ranges(total, segments),
        forall|i: int| 0 <= i < segments ==> (#[trigger] ranges@[i]).end() <= total,
{
    let count: u64 = segments as u64;
    let size: u64 = total / count;
    let mut ranges: Vec<SegmentRange> = Vec::new();
    let mut i: usize = 0;
    while i < segments
        invariant
            segments >= 1,
            count == segments,
            size == segment_size(total as nat, segments as nat),
            i <= segments,
            ranges@.len() == i,
            forall|k: int| 0 <= k < i ==> #[trigger] ranges@[k] == planned_range(total, segments, k),
        decreases segments - i,
    {
        proof {
            lemma_segments_fit(total as nat, segments as nat, i as nat);
        }
        let start: u64 = (i as u64) * size;
        let len: u64 = if i == segments - 1 {
            total - start
        } else {
            size
        };
        ranges.push(SegmentRange { index: i, start, len });
        i = i + 1;
    }
    proof {
        assert(ranges@ =~= planned_ranges(total, segments));
        lemma_planned_ranges_tile(total, segments);
    }
    ranges
}

/// The ranges of a plan, as the workers get them, tile `[0, total)`: they
/// are numbered in order, the first starts at offset zero, each ends
/// where the next one starts, the last ends at `total`, and every byte
/// offset below `total` lies in exactly one of them.
pub proof fn lemma_planned_ranges_tile(total: u64, segments: usize)
    requires
        segments >= 1,
    ensures
        planned_ranges(total, segments).len() == segments,
        forall|i: int|
            0 <= i < segments ==> (#[trigger] planned_ranges(total, segments)[i]).index == i,
        forall|i: int|
            0 <= i < segments ==> (#[trigger] planned_ranges(total, segments)[i]).end() <= total,
        planned_ranges(total, segments)[0].start == 0,
        forall|i: int|
            0 <= i < segments - 1 ==> (#[trigger] planned_ranges(total, segments)[i]).end()
                == planned_ranges(total, segments)[i + 1].start,
        planned_ranges(total, segments)[segments - 1].end() == total,
        planned_ranges(total, segments)[segments - 1].len == total - (segments - 1) * (total
            / (segments as u64)),
        forall|b: nat|
            b < total ==> 0 <= segment_of(total as nat, segments as nat, b) < segments
                && #[trigger] planned_ranges(total, segments)[segment_of(
                total as nat,
                segments as nat,
                b,
            ) as int].contains(b),
        forall|b: nat, i: int, j: int|
            0 <= i < segments && 0 <= j < segments && #[trigger] planned_ranges(
                total,
                segments,
            )[i].contains(b) && #[trigger] planned_ranges(total, segments)[j].contains(b) ==> i
                == j,
{
    let t = total as nat;
    let s = segments as nat;
    let ranges = planned_ranges(total, segments);
    lemma_plan_partitions(t, s);
    assert forall|i: int| 0 <= i < segments implies {
        &&& (#[trigger] ranges[i]).start == segment_start(t, s, i as nat)
        &&& ranges[i].len == segment_len(t, s, i as nat)
        &&& ranges[i].end() == segment_end(t, s, i as nat)
        &&& ranges[i].end() <= total
        &&& ranges[i].index == i
    } by {
        lemma_segments_fit(t, s, i as nat);
    }
    assert forall|i: int| 0 <= i < segments - 1 implies (#[trigger] ranges[i]).end() == ranges[i
        + 1].start by {
        lemma_segments_fit(t, s, i as nat);
        assert(ranges[i + 1].start == segment_start(t, s, (i + 1) as nat));
    }
    assert forall|b: nat| b < total implies 0 <= segment_of(t, s, b) < segments
        && #[trigger] ranges[segment_of(t, s, b) as int].contains(b) by {
        assert(segment_contains(t, s, segment_of(t, s, b), b));
    }
    assert forall|b: nat, i: int, j: int|
        0 <= i < segments && 0 <= j < segments && #[trigger] ranges[i].contains(b)
            && #[trigger] ranges[j].contains(b) implies i == j by {
        assert(segment_contains(t, s, i as nat, b));
        assert(segment_contains(t, s, j as nat, b));
    }
}

} // verus!
