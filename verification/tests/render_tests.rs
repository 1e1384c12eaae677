use ray_tracing::render::{assemble_chunks, scanline_partition};

#[test]
fn partition_even() {
    let parts = scanline_partition(12, 4);
    assert_eq!(parts, vec![(0, 3), (3, 6), (6, 9), (9, 12)]);
}

#[test]
fn partition_remainder() {
    // 10 rows over 3 workers: one band of 4 rows, then two of 3.
    let parts = scanline_partition(10, 3);
    assert_eq!(parts, vec![(0, 4), (4, 7), (7, 10)]);
}

#[test]
fn partition_single_thread() {
    let parts = scanline_partition(5, 1);
    assert_eq!(parts, vec![(0, 5)]);
}

#[test]
fn partition_zero_height() {
    let parts = scanline_partition(0, 3);
    assert_eq!(parts, vec![(0, 0), (0, 0), (0, 0)]);
}

#[test]
fn partition_more_threads_than_rows() {
    let parts = scanline_partition(5, 8);
    assert_eq!(
        parts,
        vec![(0, 1), (1, 2), (2, 3), (3, 4), (4, 5), (5, 5), (5, 5), (5, 5)]
    );
}

#[test]
fn partition_balanced_sizes() {
    for height in [0usize, 1, 7, 100, 1080] {
        for threads in 1usize..10 {
            let parts = scanline_partition(height, threads);
            assert_eq!(parts.len(), threads);
            let low = height / threads;
            for &(start, end) in &parts {
                let w = end - start;
                assert!(w == low || w == low + 1);
            }
        }
    }
}

#[test]
fn assemble_chunks_reverses() {
    let chunks = vec![vec![1u8, 2], vec![3u8], vec![4u8]];
    assert_eq!(assemble_chunks(chunks), vec![4, 3, 1, 2]);
}

#[test]
fn assembled_rows_independent_of_thread_count() {
    // Render each row to one byte holding its own index; with each worker's
    // band reversed and the bands joined last worker first, every thread
    // count must assemble the rows as height-1 down to 0.
    let height = 9usize;
    let expected: Vec<u8> = (0..height).rev().map(|j| j as u8).collect();
    for threads in 1..=height + 2 {
        let parts = scanline_partition(height, threads);
        let chunks: Vec<Vec<u8>> = parts
            .iter()
            .map(|&(start, end)| (start..end).rev().map(|j| j as u8).collect())
            .collect();
        assert_eq!(assemble_chunks(chunks), expected, "threads = {}", threads);
    }
}
