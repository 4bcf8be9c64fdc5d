use orchestrator::bands::{band_stride, div_ceil, Band};

fn bands(workers: usize, height: usize) -> Vec<Band> {
    (0..workers).map(|i| Band::of(i, workers, height)).collect()
}

#[test]
fn div_ceil_rounds_up() {
    assert_eq!(div_ceil(0, 3), 0);
    assert_eq!(div_ceil(3, 3), 1);
    assert_eq!(div_ceil(4, 3), 2);
    assert_eq!(div_ceil(7, 2), 4);
    assert_eq!(div_ceil(1, 5), 1);
    assert_eq!(div_ceil(usize::MAX, 1), usize::MAX);
    assert_eq!(div_ceil(usize::MAX, 2), usize::MAX / 2 + 1);
}

#[test]
fn bands_cover_every_row_once() {
    for height in 1..40usize {
        for workers in 1..=height {
            let mut owners = vec![0usize; height];
            for b in bands(workers, height) {
                assert!(b.first <= b.end && b.end <= height);
                for y in b.first..b.end {
                    owners[y] += 1;
                }
            }
            assert!(owners.iter().all(|&n| n == 1), "h={} n={}", height, workers);
        }
    }
}

#[test]
fn bands_are_contiguous_in_worker_order() {
    let bs = bands(3, 10);
    assert_eq!(bs, vec![Band { first: 0, end: 4 }, Band { first: 4, end: 8 }, Band { first: 8, end: 10 }]);
}

#[test]
fn single_worker_band_is_whole_frame() {
    assert_eq!(Band::of(0, 1, 1), Band { first: 0, end: 1 });
    assert_eq!(Band::of(0, 1, 480), Band { first: 0, end: 480 });
}

#[test]
fn as_many_workers_as_rows_gives_one_row_each() {
    let bs = bands(7, 7);
    for (i, b) in bs.iter().enumerate() {
        assert_eq!(*b, Band { first: i, end: i + 1 });
    }
}

#[test]
fn surplus_workers_get_empty_bands() {
    let bs = bands(5, 3);
    assert_eq!(bs[0], Band { first: 0, end: 1 });
    assert_eq!(bs[2], Band { first: 2, end: 3 });
    assert_eq!(bs[3], Band { first: 3, end: 3 });
    assert_eq!(bs[4], Band { first: 3, end: 3 });
}

#[test]
fn trailing_worker_empty_when_bands_run_out() {
    // four rows, three workers: bands of two rows, the third worker has none
    let bs = bands(3, 4);
    assert_eq!(bs, vec![Band { first: 0, end: 2 }, Band { first: 2, end: 4 }, Band { first: 4, end: 4 }]);
}

#[test]
fn last_band_holds_the_remainder() {
    // three rows, two workers: band height 2, the last band holds 3 % 2 = 1 row
    let bs = bands(2, 3);
    assert_eq!(bs[1], Band { first: 2, end: 3 });
    assert_eq!(2 - (bs[1].end - bs[1].first), 3 % 2);
    // five rows, two workers: band height 3, the last band holds 5 % 3 = 2 rows
    let bs = bands(2, 5);
    assert_eq!(bs[1], Band { first: 3, end: 5 });
    assert_eq!(bs[1].end - bs[1].first, 5 % 3);
}

#[test]
fn stride_is_one_band_of_bytes() {
    assert_eq!(band_stride(128, 4, 2), 768);
    assert_eq!(band_stride(64, 3, 2), 384);
    assert_eq!(band_stride(64, 1, 1), 192);
    assert_eq!(band_stride(64, 3, 5), 192);
}

#[test]
fn each_byte_lies_in_one_slice() {
    let (width, height, workers) = (64usize, 5usize, 3usize);
    let stride = band_stride(width, height, workers);
    let total = width * height * 3;
    let frame = vec![0u8; total];
    let chunks: Vec<&[u8]> = frame.chunks(stride).collect();
    for (i, chunk) in chunks.iter().enumerate() {
        let b = Band::of(i, workers, height);
        assert_eq!(chunk.len(), (b.end - b.first) * width * 3);
    }
    assert_eq!(chunks.iter().map(|c| c.len()).sum::<usize>(), total);
}
