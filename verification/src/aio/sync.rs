//! The paths on which the engine waits for the kernel: reads and writes
//! that are carried out range by range, and flushes.

use crate::aio::{Aio, AioCb, AioContext, Completion, OpCode};
use crate::hostmem::{iov_prefix_len, iov_total_len, lemma_prefix_len_grows, Iovec};
use vstd::prelude::*;

verus! {

/// What a system call counts for: the value it returned, or -1 when it
/// failed.
pub open spec fn transfer_value(ret: Result<i64, i32>) -> i64 {
    match ret {
        Ok(n) => n,
        Err(_) => -1i64,
    }
}

fn value_or_fail(ret: Result<i64, i32>) -> (v: i64)
    ensures
        v == transfer_value(ret),
{
    match ret {
        Ok(n) => n,
        Err(_) => -1,
    }
}

/// Whether `ret` is what the raw transfer for range `k` of the synchronous
/// request `cb` returned: the transfer of that range at the request's file
/// offset plus the lengths of the ranges before it.
pub open spec fn sync_transfer_returns<T, R, W>(
    raw_read: R,
    raw_write: W,
    cb: AioCb<T>,
    k: int,
    ret: Result<i64, i32>,
) -> bool where
    R: Fn(i32, u64, usize, usize) -> Result<i64, i32>,
    W: Fn(i32, u64, usize, usize) -> Result<i64, i32>,
 {
    let iov = cb.iovec@[k];
    let args = (
        cb.file_fd,
        iov.iov_base,
        iov.iov_len as usize,
        (cb.offset + iov_prefix_len(cb.iovec@, k as nat)) as usize,
    );
    match cb.opcode {
        OpCode::Preadv => call_ensures(raw_read, args, ret),
        OpCode::Pwritev => call_ensures(raw_write, args, ret),
        _ => false,
    }
}

/// Whether `res` is the outcome of the synchronous request `cb`: -1 for a
/// request that is neither a read nor a write, 0 for one without ranges, and
/// else the value of the last transfer made, where the ranges are transferred
/// in order and the first transfer with a negative value is the last.
pub open spec fn sync_outcome<T, R, W>(raw_read: R, raw_write: W, cb: AioCb<T>, res: i64) -> bool where
    R: Fn(i32, u64, usize, usize) -> Result<i64, i32>,
    W: Fn(i32, u64, usize, usize) -> Result<i64, i32>,
 {
    if !(cb.opcode is Preadv || cb.opcode is Pwritev) {
        res == -1
    } else if cb.iovec@.len() == 0 {
        res == 0
    } else {
        exists|rets: Seq<Result<i64, i32>>|
            {
                &&& 0 < rets.len() <= cb.iovec@.len()
                &&& forall|k: int|
                    0 <= k < rets.len() ==> sync_transfer_returns(
                        raw_read,
                        raw_write,
                        cb,
                        k,
                        #[trigger] rets[k],
                    )
                &&& forall|k: int|
                    0 <= k < rets.len() - 1 ==> transfer_value(#[trigger] rets[k]) >= 0
                &&& rets.len() < cb.iovec@.len() ==> transfer_value(rets.last()) < 0
                &&& res == transfer_value(rets.last())
            }
    }
}

impl<T, C: AioContext<T>> Aio<T, C> {
    /// Carries out a read or write at once, range by range: each range is
    /// transferred at the file offset where the one before it ended, and the
    /// first transfer that returns a negative value ends the request. The
    /// request comes back with the value of the last transfer made.
    pub fn rw_sync<R, W>(&self, cb: AioCb<T>, raw_read: R, raw_write: W) -> (done: Completion<T>) where
        R: Fn(i32, u64, usize, usize) -> Result<i64, i32>,
        W: Fn(i32, u64, usize, usize) -> Result<i64, i32>,

        requires
            cb.offset + iov_total_len(cb.iovec@) <= usize::MAX,
            forall|fd: i32, hva: u64, size: usize, offset: usize|
                call_requires(raw_read, (fd, hva, size, offset)),
            forall|fd: i32, hva: u64, size: usize, offset: usize|
                call_requires(raw_write, (fd, hva, size, offset)),
        ensures
            done.cb == cb,
            sync_outcome(raw_read, raw_write, cb, done.res),
    {
        let is_write: bool = match cb.opcode {
            OpCode::Preadv => false,
            OpCode::Pwritev => true,
            _ => {
                return Completion { cb, res: -1 };
            },
        };
        let n: usize = cb.iovec.len();
        let mut r: i64 = 0;
        let mut off: usize = cb.offset;
        let mut i: usize = 0;
        let ghost mut rets: Seq<Result<i64, i32>> = Seq::empty();
        proof {
            lemma_prefix_len_grows(cb.iovec@, 0, n as nat);
        }
        while i < n && r >= 0
            invariant
                i <= n,
                n == cb.iovec@.len(),
                cb.opcode is Preadv || cb.opcode is Pwritev,
                is_write == (cb.opcode is Pwritev),
                cb.offset + iov_total_len(cb.iovec@) <= usize::MAX,
                off == cb.offset + iov_prefix_len(cb.iovec@, i as nat) || r < 0,
                forall|fd: i32, hva: u64, size: usize, offset: usize|
                    call_requires(raw_read, (fd, hva, size, offset)),
                forall|fd: i32, hva: u64, size: usize, offset: usize|
                    call_requires(raw_write, (fd, hva, size, offset)),
                rets.len() == i,
                i == 0 ==> r == 0,
                i > 0 ==> r == transfer_value(rets.last()),
                forall|k: int|
                    0 <= k < rets.len() ==> sync_transfer_returns(
                        raw_read,
                        raw_write,
                        cb,
                        k,
                        #[trigger] rets[k],
                    ),
                forall|k: int| 0 <= k < rets.len() - 1 ==> transfer_value(#[trigger] rets[k]) >= 0,
            decreases n - i,
        {
            let iov: Iovec = cb.iovec[i];
            proof {
                lemma_prefix_len_grows(cb.iovec@, (i + 1) as nat, n as nat);
                assert(iov_prefix_len(cb.iovec@, (i + 1) as nat) == iov_prefix_len(
                    cb.iovec@,
                    i as nat,
                ) + iov.iov_len);
            }
            let size: usize = iov.iov_len as usize;
            let ret = if is_write {
                raw_write(cb.file_fd, iov.iov_base, size, off)
            } else {
                raw_read(cb.file_fd, iov.iov_base, size, off)
            };
            r = value_or_fail(ret);
            proof {
                rets = rets.push(ret);
            }
            if r >= 0 {
                off = off + size;
            }
            i += 1;
        }
        Completion { cb, res: r }
    }

    /// Flushes the file of the request to disk and hands the request back
    /// with what the flush returned, or -1 when it failed.
    pub fn flush_sync<F>(&self, cb: AioCb<T>, raw_datasync: F) -> (done: Completion<T>) where
        F: Fn(i32) -> Result<i64, i32>,

        requires
            forall|fd: i32| call_requires(raw_datasync, (fd,)),
        ensures
            done.cb == cb,
            exists|ret: Result<i64, i32>|
                call_ensures(raw_datasync, (cb.file_fd,), ret) && done.res == transfer_value(ret),
    {
        let ret = raw_datasync(cb.file_fd);
        let res: i64 = value_or_fail(ret);
        Completion { cb, res }
    }
}

} // verus!
