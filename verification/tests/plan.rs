use novacl::download::plan::plan_segments;
use novacl::download::SegmentRange;

fn bounds(ranges: &[SegmentRange]) -> Vec<(usize, u64, u64)> {
    ranges.iter().map(|r| (r.index, r.start, r.len)).collect()
}

/// Checks on concrete values what the plan promises: numbered in order,
/// contiguous from zero to the total, the last segment taking the rest.
fn assert_tiles(total: u64, segments: usize) {
    let ranges = plan_segments(total, segments);
    assert_eq!(ranges.len(), segments);
    let size = total / segments as u64;
    let mut next = 0u64;
    for (i, r) in ranges.iter().enumerate() {
        assert_eq!(r.index, i);
        assert_eq!(r.start, next);
        if i + 1 < segments {
            assert_eq!(r.len, size);
        } else {
            assert_eq!(r.len, total - (segments as u64 - 1) * size);
        }
        next = r.start + r.len;
    }
    assert_eq!(next, total);
}

#[test]
fn plan_of_four_segments_over_thousand_bytes() {
    let ranges = plan_segments(1000, 4);
    let inclusive: Vec<(u64, Option<u64>)> =
        ranges.iter().map(|r| (r.start, r.last_byte())).collect();
    assert_eq!(
        inclusive,
        vec![(0, Some(249)), (250, Some(499)), (500, Some(749)), (750, Some(999))]
    );
}

#[test]
fn last_segment_absorbs_the_remainder() {
    let ranges = plan_segments(1003, 4);
    assert_eq!(bounds(&ranges), vec![(0, 0, 250), (1, 250, 250), (2, 500, 250), (3, 750, 253)]);
    assert_eq!(ranges[3].last_byte(), Some(1002));
}

#[test]
fn single_segment_is_the_whole_resource() {
    let ranges = plan_segments(77, 1);
    assert_eq!(bounds(&ranges), vec![(0, 0, 77)]);
    assert_eq!(ranges[0].last_byte(), Some(76));
}

#[test]
fn resource_smaller_than_segment_count_goes_to_the_last_segment() {
    let ranges = plan_segments(3, 5);
    assert_eq!(bounds(&ranges), vec![(0, 0, 0), (1, 0, 0), (2, 0, 0), (3, 0, 0), (4, 0, 3)]);
    assert!(ranges[0].is_empty());
    assert_eq!(ranges[0].last_byte(), None);
    assert!(!ranges[4].is_empty());
    assert_eq!(ranges[4].last_byte(), Some(2));
}

#[test]
fn empty_resource_gives_empty_segments() {
    let ranges = plan_segments(0, 3);
    assert_eq!(bounds(&ranges), vec![(0, 0, 0), (1, 0, 0), (2, 0, 0)]);
    assert!(ranges.iter().all(|r| r.is_empty()));
}

#[test]
fn largest_resource_is_planned_without_overflow() {
    let ranges = plan_segments(u64::MAX, 4);
    let size = u64::MAX / 4;
    assert_eq!(
        bounds(&ranges),
        vec![(0, 0, size), (1, size, size), (2, 2 * size, size), (3, 3 * size, size + 3)]
    );
    assert_eq!(ranges[3].last_byte(), Some(u64::MAX - 1));
}

#[test]
fn plans_tile_the_resource() {
    for &(total, segments) in &[
        (0u64, 1usize),
        (1, 1),
        (1, 2),
        (10, 3),
        (999, 4),
        (1000, 4),
        (1001, 4),
        (4096, 16),
        (5, 8),
        (123_456_789, 7),
    ] {
        assert_tiles(total, segments);
    }
}

#[test]
fn every_byte_lies_in_exactly_one_segment() {
    let total = 103u64;
    let ranges = plan_segments(total, 10);
    for b in 0..total {
        let holders = ranges.iter().filter(|r| r.start <= b && b < r.start + r.len).count();
        assert_eq!(holders, 1);
    }
}
