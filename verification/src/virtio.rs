//! What the console device shares with every virtio device: feature words,
//! the read-only configuration space, and the descriptor chains that the
//! guest posts.

use crate::hostmem::{
    copy_result, first_unmapped, gathered, iov_prefix_len, iov_to_buf_direct, iov_total_len,
    lemma_prefix_len_grows, lemma_served_at, locate, piece_len, pieces_mapped, served, Iovec,
    MemError,
};
use vstd::prelude::*;

verus! {

/// The device complies with version 1 of the standard.
pub const VIRTIO_F_VERSION_1: u32 = 32;

/// The console tells its size in the configuration space.
pub const VIRTIO_CONSOLE_F_SIZE: u32 = 0;

/// The console has several ports and the two control queues.
pub const VIRTIO_CONSOLE_F_MULTIPORT: u32 = 1;

/// Device type of a console.
pub const VIRTIO_TYPE_CONSOLE: u32 = 3;

/// Number of descriptors in a queue unless configured otherwise.
pub const DEFAULT_VIRTQUEUE_SIZE: u16 = 256;

/// Why the device turned something down.
#[derive(Debug, Clone, Copy, PartialEq, Eq)]
pub enum VirtioError {
    /// The transport brought another number of queues than the device has.
    IncorrectQueueNum { expected: u64, actual: u64 },
    /// An access to the configuration space reaches beyond its end.
    DevConfigOverflow { offset: u64, len: u64, size: u64 },
    /// The configuration space cannot be written.
    ConfigWriteUnsupported,
    /// A message is shorter than it must be, or the buffers for it are.
    InvalidLength { got: u64, expected: u64 },
    /// A descriptor points outside guest memory.
    Mem(MemError),
    /// A saved device state has the wrong size.
    BadState { got: u64, expected: u64 },
    /// A descriptor reaches beyond the end of the address space.
    BadDescriptor,
}

/// One buffer of a descriptor chain: `len` bytes of guest memory from `addr`
/// on.
#[derive(Debug, Clone, Copy, PartialEq, Eq)]
pub struct ElemIovec {
    pub addr: u64,
    pub len: u32,
}

/// A descriptor chain that the guest made available: the buffers that the
/// device reads (`out_iovec`) and those that it writes (`in_iovec`). A chain
/// with `desc_num` zero stands for an empty queue.
#[derive(Debug, Clone, PartialEq, Eq)]
pub struct Element {
    pub index: u16,
    pub desc_num: u16,
    pub out_iovec: Vec<ElemIovec>,
    pub in_iovec: Vec<ElemIovec>,
}

/// What every virtio device keeps.
#[derive(Debug, Clone, Copy, PartialEq, Eq)]
pub struct VirtioBase {
    pub device_type: u32,
    pub queue_num: u64,
    pub queue_size_max: u16,
    /// Features that the device offers.
    pub device_features: u64,
    /// Features that device and driver agreed on.
    pub driver_features: u64,
    /// Set once the device met an error it cannot recover from.
    pub broken: bool,
}

impl VirtioBase {
    pub fn new(device_type: u32, queue_num: u64, queue_size_max: u16) -> (base: Self)
        ensures
            base == (VirtioBase {
                device_type,
                queue_num,
                queue_size_max,
                device_features: 0,
                driver_features: 0,
                broken: false,
            }),
    {
        VirtioBase {
            device_type,
            queue_num,
            queue_size_max,
            device_features: 0,
            driver_features: 0,
            broken: false,
        }
    }
}

/// The 32 feature bits on page `page` of a feature word: page 0 holds the
/// low half, page 1 the high half, and every other page is empty.
pub open spec fn feature_page(features: u64, page: u32) -> u32 {
    if page == 0 {
        (features % 0x1_0000_0000) as u32
    } else if page == 1 {
        (features / 0x1_0000_0000) as u32
    } else {
        0
    }
}

/// The feature word with the low half `low` and the high half `high`.
pub open spec fn feature_word(low: u32, high: u32) -> u64 {
    (high * 0x1_0000_0000 + low) as u64
}

/// The driver's features after it acknowledged `value` on page `page`: the
/// acknowledged bits that the device offers on that page replace the low half
/// for page 0 and the high half for any other page; the other half stays.
pub open spec fn acknowledged(device: u64, driver: u64, page: u32, value: u32) -> u64 {
    let agreed = value & feature_page(device, page);
    if page == 0 {
        feature_word(agreed, feature_page(driver, 1))
    } else {
        feature_word(feature_page(driver, 0), agreed)
    }
}

/// Reads one page of a feature word.
pub fn read_u32(value: u64, page: u32) -> (r: u32)
    ensures
        r == feature_page(value, page),
{
    if page == 0 {
        (value % 0x1_0000_0000) as u32
    } else if page == 1 {
        (value / 0x1_0000_0000) as u32
    } else {
        0
    }
}

/// Puts two pages together to a feature word.
pub fn write_u64(low: u32, high: u32) -> (r: u64)
    ensures
        r == feature_word(low, high),
        feature_page(r, 0) == low,
        feature_page(r, 1) == high,
{
    (high as u64) * 0x1_0000_0000 + (low as u64)
}

/// Copies the part of the configuration space `config` that starts at
/// `offset` and is as long as `data` into `data`. A part that reaches beyond
/// the end of the space is refused, and `data` stays as it is.
pub fn read_config_default(config: &[u8], offset: u64, data: &mut [u8]) -> (r: Result<
    (),
    VirtioError,
>)
    ensures
        offset + old(data)@.len() <= config@.len() ==> r is Ok && final(data)@
            == config@.subrange(offset as int, offset + old(data)@.len()),
        offset + old(data)@.len() > config@.len() ==> final(data)@ == old(data)@ && r == Err::<
            (),
            VirtioError,
        >(
            VirtioError::DevConfigOverflow {
                offset,
                len: old(data)@.len() as u64,
                size: config@.len() as u64,
            },
        ),
{
    let size: usize = config.len();
    let n: usize = data.len();
    if offset > size as u64 || n > size - (offset as usize) {
        return Err(
            VirtioError::DevConfigOverflow { offset, len: n as u64, size: size as u64 },
        );
    }
    let from: usize = offset as usize;
    let mut k: usize = 0;
    while k < n
        invariant
            k <= n,
            n == data@.len(),
            from + n <= size,
            size == config@.len(),
            forall|i: int| 0 <= i < k ==> data@[i] == config@[from + i],
        decreases n - k,
    {
        data[k] = config[from + k];
        k += 1;
    }
    proof {
        assert(data@ =~= config@.subrange(offset as int, offset + old(data)@.len()));
    }
    Ok(())
}

/// The buffers of a chain as ranges of memory.
pub open spec fn as_iovecs(iovec: Seq<ElemIovec>) -> Seq<Iovec> {
    Seq::new(iovec.len(), |i: int| Iovec { iov_base: iovec[i].addr, iov_len: iovec[i].len as u64 })
}

/// Number of bytes in the buffers of a chain.
pub open spec fn chain_len(iovec: Seq<ElemIovec>) -> nat {
    iov_total_len(as_iovecs(iovec))
}

/// The buffers of a chain as ranges of memory.
pub fn host_iovecs(iovec: &[ElemIovec]) -> (r: Vec<Iovec>)
    ensures
        r@ == as_iovecs(iovec@),
{
    let n: usize = iovec.len();
    let mut r: Vec<Iovec> = Vec::new();
    let mut i: usize = 0;
    while i < n
        invariant
            i <= n,
            n == iovec@.len(),
            r@ == as_iovecs(iovec@.take(i as int)),
        decreases n - i,
    {
        r.push(Iovec { iov_base: iovec[i].addr, iov_len: iovec[i].len as u64 });
        i += 1;
        proof {
            assert(r@ =~= as_iovecs(iovec@.take(i as int)));
        }
    }
    proof {
        assert(iovec@.take(n as int) =~= iovec@);
    }
    r
}

/// Number of bytes in the buffers of a chain; of a chain with more bytes than
/// a 64-bit integer can count, the largest such integer.
pub fn iovec_size(iovec: &[ElemIovec]) -> (r: u64)
    ensures
        r == (if chain_len(iovec@) <= u64::MAX {
            chain_len(iovec@)
        } else {
            u64::MAX as nat
        }),
{
    let n: usize = iovec.len();
    let mut sum: u64 = 0;
    let mut i: usize = 0;
    while i < n
        invariant
            i <= n,
            n == iovec@.len(),
            sum == (if iov_prefix_len(as_iovecs(iovec@), i as nat) <= u64::MAX {
                iov_prefix_len(as_iovecs(iovec@), i as nat)
            } else {
                u64::MAX as nat
            }),
        decreases n - i,
    {
        let len: u64 = iovec[i].len as u64;
        proof {
            assert(iov_prefix_len(as_iovecs(iovec@), (i + 1) as nat) == iov_prefix_len(
                as_iovecs(iovec@),
                i as nat,
            ) + as_iovecs(iovec@)[i as int].iov_len);
        }
        sum = if len > u64::MAX - sum {
            u64::MAX
        } else {
            sum + len
        };
        i += 1;
    }
    sum
}

/// Resolves the buffers of a chain to ranges of memory and adds up their
/// lengths. Fails, with the first of them, if a buffer lies outside guest
/// memory.
pub fn gpa_hva_iovec_map(mem_size: usize, base: u64, iovec: &[ElemIovec]) -> (r: Result<
    (u64, Vec<Iovec>),
    VirtioError,
>)
    ensures
        match copy_result(mem_size as nat, base, as_iovecs(iovec@), chain_len(iovec@)) {
            Ok(_) => r is Ok && r->Ok_0.1@ == as_iovecs(iovec@) && r->Ok_0.0 == (if chain_len(
                iovec@,
            ) <= u64::MAX {
                chain_len(iovec@)
            } else {
                u64::MAX as nat
            }),
            Err(e) => r == Err::<(u64, Vec<Iovec>), VirtioError>(VirtioError::Mem(e)),
        },
{
    let ranges: Vec<Iovec> = host_iovecs(iovec);
    let n: usize = ranges.len();
    let ghost total = chain_len(iovec@);
    let mut i: usize = 0;
    while i < n
        invariant
            i <= n,
            n == ranges@.len(),
            ranges@ == as_iovecs(iovec@),
            total == iov_total_len(ranges@),
            pieces_mapped(mem_size as nat, base, ranges@, total, i as nat),
        decreases n - i,
    {
        let iov: Iovec = ranges[i];
        proof {
            lemma_prefix_len_grows(ranges@, i as nat, n as nat);
            lemma_prefix_len_grows(ranges@, (i + 1) as nat, n as nat);
            assert(iov_prefix_len(ranges@, (i + 1) as nat) == iov_prefix_len(ranges@, i as nat)
                + iov.iov_len);
            assert(piece_len(ranges@, i as nat, total) == iov.iov_len);
        }
        match locate(mem_size, base, iov.iov_base, iov.iov_len as usize) {
            Some(_) => {},
            None => {
                proof {
                    assert(first_unmapped(mem_size as nat, base, ranges@, total, i as nat));
                    lemma_served_at(
                        mem_size as nat,
                        base,
                        ranges@,
                        total,
                        i as nat,
                    );
                }
                return Err(
                    VirtioError::Mem(MemError::Unmapped { hva: iov.iov_base, len: iov.iov_len }),
                );
            },
        }
        i += 1;
    }
    let size: u64 = iovec_size(iovec);
    Ok((size, ranges))
}

/// Gathers the buffers of a chain, in order, into `buf` until the buffer or
/// the chain is used up, and returns how many bytes were read.
pub fn iov_to_buf(mem: &[u8], base: u64, iovec: &[ElemIovec], buf: &mut [u8]) -> (r: Result<
    usize,
    VirtioError,
>)
    ensures
        match copy_result(mem@.len(), base, as_iovecs(iovec@), old(buf)@.len()) {
            Ok(n) => r == Ok::<usize, VirtioError>(n),
            Err(e) => r == Err::<usize, VirtioError>(VirtioError::Mem(e)),
        },
        final(buf)@ == gathered(
            mem@,
            base,
            as_iovecs(iovec@),
            old(buf)@,
            served(mem@.len(), base, as_iovecs(iovec@), old(buf)@.len()),
        ),
{
    let ranges: Vec<Iovec> = host_iovecs(iovec);
    match iov_to_buf_direct(mem, base, ranges.as_slice(), buf) {
        Ok(n) => Ok(n),
        Err(e) => Err(VirtioError::Mem(e)),
    }
}

} // verus!
