use stochasticsampling::strands::{chunk_size, strand_bounds, strand_of_sample};

#[test]
fn test_chunk_size() {
    // one more than the floored share, as the driver splits its buffer
    assert_eq!(chunk_size(10, 3), 4);
    assert_eq!(chunk_size(10, 5), 3);
    assert_eq!(chunk_size(1, 4), 1);
    assert_eq!(chunk_size(0, 2), 1);
}

#[test]
fn test_chunks_cover_buffer() {
    for n in 0..40usize {
        for w in 1..6usize {
            let c = chunk_size(n, w);
            assert!(c * w >= n);
        }
    }
}

#[test]
fn test_strand_bounds() {
    let n = 10;
    let w = 3;
    let c = chunk_size(n, w); // 4
    assert_eq!(strand_bounds(0, c, n), (0, 4));
    assert_eq!(strand_bounds(1, c, n), (4, 8));
    assert_eq!(strand_bounds(2, c, n), (8, 10));
}

#[test]
fn test_strand_of_sample_matches_bounds() {
    // every slot belongs to exactly the strand whose bounds hold it
    let n = 23;
    let w = 4;
    let c = chunk_size(n, w);
    let mut owner = vec![usize::MAX; n];
    let mut s = 0;
    while s * c < n {
        let (lo, hi) = strand_bounds(s, c, n);
        for i in lo..hi {
            assert_eq!(owner[i], usize::MAX);
            owner[i] = s;
        }
        s += 1;
    }
    for i in 0..n {
        assert_eq!(owner[i], strand_of_sample(i, c));
    }
}
