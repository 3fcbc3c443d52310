//! Requests that direct I/O would reject go through a bounce buffer: an
//! aligned buffer that the kernel accepts, filled from or emptied into the
//! ranges of the request.

use crate::aio::{AioCb, AioError, OpCode};
use crate::hostmem::{
    copy_result, gathered, iov_from_buf_direct, iov_to_buf_direct, lemma_copy_keeps_len,
    scattered, served, Iovec,
};
use vstd::prelude::*;

verus! {

/// Whether some range starts or ends off a multiple of `sector_size`.
pub open spec fn misaligned(iovec: Seq<Iovec>, sector_size: u64) -> bool {
    exists|i: int|
        0 <= i < iovec.len() && (#[trigger] iovec[i].iov_base % sector_size != 0
            || iovec[i].iov_len % sector_size != 0)
}

pub(crate) fn is_misaligned(iovec: &Vec<Iovec>, sector_size: u64) -> (r: bool)
    requires
        sector_size > 0,
    ensures
        r == misaligned(iovec@, sector_size),
{
    let n: usize = iovec.len();
    let mut i: usize = 0;
    while i < n
        invariant
            i <= n,
            n == iovec@.len(),
            sector_size > 0,
            forall|j: int|
                0 <= j < i ==> (#[trigger] iovec@[j].iov_base % sector_size == 0
                    && iovec@[j].iov_len % sector_size == 0),
        decreases n - i,
    {
        if iovec[i].iov_base % sector_size != 0 || iovec[i].iov_len % sector_size != 0 {
            return true;
        }
        i += 1;
    }
    false
}

/// How a misaligned read ends once the aligned read into the bounce buffer
/// has returned `got`: a failed read fails the request; the bytes of a
/// successful one are scattered over the request's ranges, which must take
/// exactly the announced number of bytes.
pub open spec fn misaligned_read_result<T>(
    size: nat,
    base: u64,
    cb: AioCb<T>,
    got: Result<Vec<u8>, i32>,
) -> Result<(), AioError> {
    match got {
        Err(errno) => Err(AioError::Os(errno)),
        Ok(data) => match copy_result(size, base, cb.iovec@, data@.len()) {
            Err(e) => Err(AioError::Mem(e)),
            Ok(n) => if n == cb.nbytes {
                Ok(())
            } else {
                Err(AioError::ShortCopy)
            },
        },
    }
}

/// The memory window after a misaligned read whose aligned read returned
/// `got`.
pub open spec fn misaligned_read_mem<T>(
    mem: Seq<u8>,
    base: u64,
    cb: AioCb<T>,
    got: Result<Vec<u8>, i32>,
) -> Seq<u8> {
    match got {
        Err(_) => mem,
        Ok(data) => scattered(
            mem,
            base,
            cb.iovec@,
            data@,
            served(mem.len(), base, cb.iovec@, data@.len()),
        ),
    }
}

/// Finishes a misaligned read: scatters what the aligned read delivered.
pub fn finish_misaligned_read<T>(
    mem: &mut [u8],
    base: u64,
    cb: &AioCb<T>,
    got: Result<Vec<u8>, i32>,
) -> (r: Result<(), AioError>)
    ensures
        r == misaligned_read_result(old(mem)@.len(), base, *cb, got),
        final(mem)@ == misaligned_read_mem(old(mem)@, base, *cb, got),
{
    match got {
        Err(errno) => Err(AioError::Os(errno)),
        Ok(data) => match iov_from_buf_direct(mem, base, cb.iovec.as_slice(), data.as_slice()) {
            Err(e) => Err(AioError::Mem(e)),
            Ok(n) => if n as u64 == cb.nbytes {
                Ok(())
            } else {
                Err(AioError::ShortCopy)
            },
        },
    }
}

/// What is gathered for a misaligned write before anything is written: the
/// bounce buffer with the bytes of the request's ranges, which must be
/// exactly as many as the request announces, or why the request fails at
/// once.
pub open spec fn misaligned_write_bounce<T>(mem: Seq<u8>, base: u64, cb: AioCb<T>) -> Result<
    Seq<u8>,
    AioError,
> {
    let blank = Seq::new(cb.nbytes as nat, |i: int| 0u8);
    match copy_result(mem.len(), base, cb.iovec@, cb.nbytes as nat) {
        Err(e) => Err(AioError::Mem(e)),
        Ok(n) => if n == cb.nbytes {
            Ok(gathered(mem, base, cb.iovec@, blank, cb.iovec@.len()))
        } else {
            Err(AioError::ShortCopy)
        },
    }
}

/// A write that announces as many bytes as its ranges hold is gathered in
/// full, unless a range lies outside the window: its bounce buffer never
/// comes out short.
pub proof fn lemma_sound_write_gathers<T>(mem: Seq<u8>, base: u64, cb: AioCb<T>)
    requires
        cb.wf(),
        cb.opcode is Pwritev,
        cb.nbytes <= usize::MAX,
    ensures
        misaligned_write_bounce(mem, base, cb) != Err::<Seq<u8>, AioError>(AioError::ShortCopy),
        misaligned_write_bounce(mem, base, cb) matches Ok(bytes) ==> bytes.len() == cb.nbytes,
{
    lemma_copy_keeps_len(
        mem,
        base,
        cb.iovec@,
        Seq::new(cb.nbytes as nat, |i: int| 0u8),
        cb.iovec@.len(),
    );
}

/// A buffer of `n` zero bytes, if there is memory for it. A buffer of no
/// bytes needs no memory and is always had; for any other the allocator
/// decides.
fn blank_buffer(n: usize) -> (r: Option<Vec<u8>>)
    ensures
        r matches Some(buffer) ==> buffer@ == Seq::new(n as nat, |i: int| 0u8),
        n == 0 ==> r is Some,
{
    let mut buffer: Vec<u8> = Vec::new();
    if n == 0 {
        proof {
            assert(buffer@ =~= Seq::new(0nat, |i: int| 0u8));
        }
        return Some(buffer);
    }
    if buffer.try_reserve(n).is_err() {
        return None;
    }
    let mut filled: usize = 0;
    while filled < n
        invariant
            filled <= n,
            buffer@ == Seq::new(filled as nat, |i: int| 0u8),
        decreases n - filled,
    {
        buffer.push(0u8);
        filled += 1;
        proof {
            assert(buffer@ =~= Seq::new(filled as nat, |i: int| 0u8));
        }
    }
    Some(buffer)
}

/// Gathers the bytes of a misaligned write into the bounce buffer `bounce`,
/// which is blank and as large as the request.
pub fn gather_misaligned_write<T>(mem: &[u8], base: u64, cb: &AioCb<T>, bounce: Vec<u8>) -> (r:
    Result<Vec<u8>, AioError>)
    requires
        bounce@ == Seq::new(cb.nbytes as nat, |i: int| 0u8),
    ensures
        match misaligned_write_bounce(mem@, base, *cb) {
            Ok(bytes) => r is Ok && r->Ok_0@ == bytes,
            Err(e) => r == Err::<Vec<u8>, AioError>(e),
        },
{
    let mut bounce = bounce;
    let n: usize = bounce.len();
    match iov_to_buf_direct(mem, base, cb.iovec.as_slice(), bounce.as_mut_slice()) {
        Err(e) => Err(AioError::Mem(e)),
        Ok(copied) => if copied == n {
            Ok(bounce)
        } else {
            Err(AioError::ShortCopy)
        },
    }
}

/// How a misaligned write ends once the aligned write of the bounce buffer
/// has returned `sent`.
pub open spec fn misaligned_write_result(sent: Result<i64, i32>) -> Result<(), AioError> {
    match sent {
        Ok(_) => Ok(()),
        Err(errno) => Err(AioError::Os(errno)),
    }
}

/// Finishes a misaligned write.
pub fn finish_misaligned_write(sent: Result<i64, i32>) -> (r: Result<(), AioError>)
    ensures
        r == misaligned_write_result(sent),
{
    match sent {
        Ok(_) => Ok(()),
        Err(errno) => Err(AioError::Os(errno)),
    }
}

/// Whether a request that goes through the bounce buffer may take the memory
/// window from `mem0` to `mem1` and end in `r`. A read larger than a buffer
/// can be fails at once; any other read ends as its aligned read decides. A
/// write leaves the window as it is; it fails at once where it is larger
/// than a buffer can be, where it has bytes and there is no memory for the
/// bounce buffer, and where its bytes cannot be gathered, and else ends as
/// the aligned write of those bytes decides. Anything but a read or a write
/// fails at once.
pub open spec fn bounced<T, Rd, Wr>(
    mem0: Seq<u8>,
    mem1: Seq<u8>,
    base: u64,
    cb: AioCb<T>,
    read_aligned: Rd,
    write_aligned: Wr,
    r: Result<(), AioError>,
) -> bool where
    Rd: Fn(i32, usize, usize) -> Result<Vec<u8>, i32>,
    Wr: Fn(i32, Vec<u8>, usize) -> Result<i64, i32>,
 {
    match cb.opcode {
        OpCode::Preadv => if cb.nbytes > usize::MAX {
            r == Err::<(), AioError>(AioError::TooLarge) && mem1 == mem0
        } else {
            exists|got: Result<Vec<u8>, i32>|
                {
                    &&& call_ensures(read_aligned, (cb.file_fd, cb.nbytes as usize, cb.offset), got)
                    &&& r == misaligned_read_result(mem0.len(), base, cb, got)
                    &&& mem1 == misaligned_read_mem(mem0, base, cb, got)
                }
        },
        OpCode::Pwritev => mem1 == mem0 && if cb.nbytes > usize::MAX {
            r == Err::<(), AioError>(AioError::TooLarge)
        } else {
            (cb.nbytes > 0 && r == Err::<(), AioError>(AioError::NoMemory))
                || match misaligned_write_bounce(mem0, base, cb) {
                Err(e) => r == Err::<(), AioError>(e),
                Ok(bytes) => exists|data: Vec<u8>, sent: Result<i64, i32>|
                    {
                        &&& data@ == bytes
                        &&& call_ensures(write_aligned, (cb.file_fd, data, cb.offset), sent)
                        &&& r == misaligned_write_result(sent)
                    },
            }
        },
        _ => r == Err::<(), AioError>(AioError::UnknownOpcode) && mem1 == mem0,
    }
}

/// Carries out a request whose ranges direct I/O would reject, through a
/// bounce buffer: a read is done by `read_aligned` in one piece and then
/// scattered over the ranges; a write is gathered from the ranges and then
/// done by `write_aligned` in one piece. The ranges themselves are never
/// handed to the kernel.
pub fn handle_misaligned_rw<T, Rd, Wr>(
    mem: &mut [u8],
    base: u64,
    cb: &AioCb<T>,
    read_aligned: Rd,
    write_aligned: Wr,
) -> (r: Result<(), AioError>) where
    Rd: Fn(i32, usize, usize) -> Result<Vec<u8>, i32>,
    Wr: Fn(i32, Vec<u8>, usize) -> Result<i64, i32>,

    requires
        forall|fd: i32, size: usize, offset: usize| call_requires(read_aligned, (fd, size, offset)),
        forall|fd: i32, data: Vec<u8>, offset: usize|
            call_requires(write_aligned, (fd, data, offset)),
    ensures
        bounced(old(mem)@, final(mem)@, base, *cb, read_aligned, write_aligned, r),
{
    match cb.opcode {
        OpCode::Preadv => {
            if cb.nbytes > usize::MAX as u64 {
                return Err(AioError::TooLarge);
            }
            let got = read_aligned(cb.file_fd, cb.nbytes as usize, cb.offset);
            finish_misaligned_read(mem, base, cb, got)
        },
        OpCode::Pwritev => {
            if cb.nbytes > usize::MAX as u64 {
                return Err(AioError::TooLarge);
            }
            let blank = match blank_buffer(cb.nbytes as usize) {
                Some(blank) => blank,
                None => {
                    return Err(AioError::NoMemory);
                },
            };
            let bounce = match gather_misaligned_write(&*mem, base, cb, blank) {
                Ok(bounce) => bounce,
                Err(e) => {
                    return Err(e);
                },
            };
            let sent = write_aligned(cb.file_fd, bounce, cb.offset);
            finish_misaligned_write(sent)
        },
        _ => Err(AioError::UnknownOpcode),
    }
}

} // verus!
