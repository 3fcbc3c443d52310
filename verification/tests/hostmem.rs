use vmm_io::hostmem::{
    iov_from_buf_direct, iov_to_buf_direct, mem_from_buf, mem_to_buf, Iovec, MemError,
};

const BASE: u64 = 0x4000;

fn window(len: usize) -> Vec<u8> {
    (0..len).map(|i| (i % 251) as u8).collect()
}

#[test]
fn mem_from_buf_writes_inside_the_window() {
    let mut mem = vec![0u8; 16];
    assert_eq!(mem_from_buf(&mut mem, BASE, &[1, 2, 3], BASE + 5), Ok(()));
    assert_eq!(mem, vec![0, 0, 0, 0, 0, 1, 2, 3, 0, 0, 0, 0, 0, 0, 0, 0]);
    // Up to the last byte.
    assert_eq!(mem_from_buf(&mut mem, BASE, &[9, 9], BASE + 14), Ok(()));
    assert_eq!(&mem[14..], &[9, 9]);
}

#[test]
fn mem_from_buf_refuses_what_leaves_the_window() {
    let mut mem = vec![7u8; 8];
    assert_eq!(
        mem_from_buf(&mut mem, BASE, &[1, 2], BASE + 7),
        Err(MemError::Unmapped { hva: BASE + 7, len: 2 })
    );
    assert_eq!(
        mem_from_buf(&mut mem, BASE, &[1], BASE - 1),
        Err(MemError::Unmapped { hva: BASE - 1, len: 1 })
    );
    assert_eq!(
        mem_from_buf(&mut mem, BASE, &[1], u64::MAX),
        Err(MemError::Unmapped { hva: u64::MAX, len: 1 })
    );
    assert_eq!(mem, vec![7u8; 8]);
    // Nothing to write is never refused.
    assert_eq!(mem_from_buf(&mut mem, BASE, &[], 0), Ok(()));
    assert_eq!(mem, vec![7u8; 8]);
}

#[test]
fn mem_to_buf_reads_inside_the_window() {
    let mem = window(32);
    let mut buf = [0u8; 4];
    assert_eq!(mem_to_buf(&mem, BASE, &mut buf, BASE + 10), Ok(()));
    assert_eq!(buf, [10, 11, 12, 13]);
    assert_eq!(
        mem_to_buf(&mem, BASE, &mut buf, BASE + 29),
        Err(MemError::Unmapped { hva: BASE + 29, len: 4 })
    );
    assert_eq!(buf, [10, 11, 12, 13]);
}

#[test]
fn scatter_stops_at_the_shorter_of_buffer_and_ranges() {
    let iovecs = [
        Iovec { iov_base: BASE + 2, iov_len: 3 },
        Iovec { iov_base: BASE + 10, iov_len: 4 },
    ];
    // The buffer is longer than the ranges: they are filled and the rest is left.
    let mut mem = vec![0u8; 16];
    assert_eq!(iov_from_buf_direct(&mut mem, BASE, &iovecs, &[1, 2, 3, 4, 5, 6, 7, 8, 9]), Ok(7));
    assert_eq!(mem, vec![0, 0, 1, 2, 3, 0, 0, 0, 0, 0, 4, 5, 6, 7, 0, 0]);
    // The buffer is shorter than the ranges: the second range gets a part.
    let mut mem = vec![0u8; 16];
    assert_eq!(iov_from_buf_direct(&mut mem, BASE, &iovecs, &[1, 2, 3, 4]), Ok(4));
    assert_eq!(mem, vec![0, 0, 1, 2, 3, 0, 0, 0, 0, 0, 4, 0, 0, 0, 0, 0]);
    // The buffer ends with the first range: the second is not touched.
    let mut mem = vec![0u8; 16];
    assert_eq!(iov_from_buf_direct(&mut mem, BASE, &iovecs, &[1, 2, 3]), Ok(3));
    assert_eq!(mem, vec![0, 0, 1, 2, 3, 0, 0, 0, 0, 0, 0, 0, 0, 0, 0, 0]);
}

#[test]
fn scatter_with_nothing_to_do() {
    let mut mem = vec![5u8; 4];
    assert_eq!(iov_from_buf_direct(&mut mem, BASE, &[], &[1, 2, 3]), Ok(0));
    assert_eq!(
        iov_from_buf_direct(&mut mem, BASE, &[Iovec { iov_base: BASE, iov_len: 4 }], &[]),
        Ok(0)
    );
    // An empty buffer touches no range, wherever the ranges point.
    assert_eq!(
        iov_from_buf_direct(&mut mem, BASE, &[Iovec { iov_base: 1, iov_len: 4 }], &[]),
        Ok(0)
    );
    assert_eq!(mem, vec![5u8; 4]);
}

#[test]
fn scatter_skips_empty_ranges() {
    let iovecs = [
        Iovec { iov_base: BASE, iov_len: 0 },
        Iovec { iov_base: BASE + 1, iov_len: 2 },
        Iovec { iov_base: 0, iov_len: 0 },
        Iovec { iov_base: BASE + 4, iov_len: 2 },
    ];
    let mut mem = vec![0u8; 8];
    assert_eq!(iov_from_buf_direct(&mut mem, BASE, &iovecs, &[1, 2, 3, 4, 5]), Ok(4));
    assert_eq!(mem, vec![0, 1, 2, 0, 3, 4, 0, 0]);
}

#[test]
fn scatter_reports_the_first_range_outside_the_window() {
    let iovecs = [
        Iovec { iov_base: BASE, iov_len: 2 },
        Iovec { iov_base: BASE + 7, iov_len: 4 },
        Iovec { iov_base: BASE + 4, iov_len: 2 },
    ];
    let mut mem = vec![0u8; 8];
    // The second range takes three bytes of this buffer, which do not fit.
    assert_eq!(
        iov_from_buf_direct(&mut mem, BASE, &iovecs, &[1, 2, 3, 4, 5]),
        Err(MemError::Unmapped { hva: BASE + 7, len: 3 })
    );
    // The range before it was written, the one after it was not.
    assert_eq!(mem, vec![1, 2, 0, 0, 0, 0, 0, 0]);
    // With a shorter buffer the second range takes one byte, which fits.
    let mut mem = vec![0u8; 8];
    assert_eq!(iov_from_buf_direct(&mut mem, BASE, &iovecs, &[1, 2, 3]), Ok(3));
    assert_eq!(mem, vec![1, 2, 0, 0, 0, 0, 0, 3]);
}

#[test]
fn later_ranges_overwrite_earlier_ones() {
    let iovecs = [
        Iovec { iov_base: BASE, iov_len: 4 },
        Iovec { iov_base: BASE + 2, iov_len: 4 },
    ];
    let mut mem = vec![0u8; 8];
    assert_eq!(iov_from_buf_direct(&mut mem, BASE, &iovecs, &[1, 2, 3, 4, 5, 6, 7, 8]), Ok(8));
    assert_eq!(mem, vec![1, 2, 5, 6, 7, 8, 0, 0]);
}

#[test]
fn gather_is_the_dual_of_scatter() {
    let mem = window(64);
    let iovecs = [
        Iovec { iov_base: BASE + 40, iov_len: 3 },
        Iovec { iov_base: BASE + 8, iov_len: 2 },
    ];
    let mut buf = [0xaau8; 8];
    assert_eq!(iov_to_buf_direct(&mem, BASE, &iovecs, &mut buf), Ok(5));
    assert_eq!(buf, [40, 41, 42, 8, 9, 0xaa, 0xaa, 0xaa]);
    let mut short = [0u8; 4];
    assert_eq!(iov_to_buf_direct(&mem, BASE, &iovecs, &mut short), Ok(4));
    assert_eq!(short, [40, 41, 42, 8]);
    let mut none: [u8; 0] = [];
    assert_eq!(iov_to_buf_direct(&mem, BASE, &iovecs, &mut none), Ok(0));
}

#[test]
fn gather_reports_the_first_range_outside_the_window() {
    let mem = window(16);
    let iovecs = [
        Iovec { iov_base: BASE + 1, iov_len: 2 },
        Iovec { iov_base: BASE + 15, iov_len: 2 },
    ];
    let mut buf = [0u8; 8];
    assert_eq!(
        iov_to_buf_direct(&mem, BASE, &iovecs, &mut buf),
        Err(MemError::Unmapped { hva: BASE + 15, len: 2 })
    );
    assert_eq!(buf, [1, 2, 0, 0, 0, 0, 0, 0]);
}

#[test]
fn scatter_then_gather_gives_the_bytes_back() {
    let iovecs = [
        Iovec { iov_base: BASE + 3, iov_len: 5 },
        Iovec { iov_base: BASE + 20, iov_len: 7 },
        Iovec { iov_base: BASE + 9, iov_len: 1 },
    ];
    let data: Vec<u8> = (100..113).collect();
    let mut mem = vec![0u8; 32];
    assert_eq!(iov_from_buf_direct(&mut mem, BASE, &iovecs, &data), Ok(13));
    let mut back = vec![0u8; 13];
    assert_eq!(iov_to_buf_direct(&mem, BASE, &iovecs, &mut back), Ok(13));
    assert_eq!(back, data);
}
