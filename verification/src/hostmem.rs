//! A window of host memory and the scatter/gather copies between it and flat
//! buffers.
//!
//! A window is a byte slice together with the host virtual address of its
//! first byte. An [`Iovec`] names a range of addresses; a copy succeeds when
//! every range it touches lies inside the window, and reports the first
//! range that does not.

use vstd::prelude::*;
use vstd::slice::slice_subrange;

verus! {

/// A range of host memory: `iov_len` bytes from address `iov_base` on.
#[derive(Debug, Clone, Copy, PartialEq, Eq)]
pub struct Iovec {
    pub iov_base: u64,
    pub iov_len: u64,
}

/// A copy touched addresses outside the window.
#[derive(Debug, Clone, Copy, PartialEq, Eq)]
pub enum MemError {
    /// The `len` bytes from `hva` on are not all inside the window.
    Unmapped { hva: u64, len: u64 },
}

/// Whether the `len` bytes from `hva` on lie inside a window of `size` bytes
/// that starts at `base`. An empty range lies inside every window.
pub open spec fn mapped(size: nat, base: u64, hva: u64, len: nat) -> bool {
    len == 0 || (base <= hva && (hva - base) + len <= size)
}

/// `mem` with `data` written over the bytes from index `at` on.
pub open spec fn store(mem: Seq<u8>, at: int, data: Seq<u8>) -> Seq<u8> {
    Seq::new(
        mem.len(),
        |i: int|
            if at <= i < at + data.len() {
                data[i - at]
            } else {
                mem[i]
            },
    )
}

/// The `len` bytes of `mem` from index `at` on.
pub open spec fn load(mem: Seq<u8>, at: int, len: nat) -> Seq<u8> {
    Seq::new(len, |i: int| mem[at + i])
}

/// Sum of the lengths of the first `k` ranges.
pub open spec fn iov_prefix_len(iovec: Seq<Iovec>, k: nat) -> nat
    decreases k,
{
    if k == 0 {
        0
    } else {
        iov_prefix_len(iovec, (k - 1) as nat) + iovec[k - 1].iov_len as nat
    }
}

/// Sum of the lengths of all ranges.
pub open spec fn iov_total_len(iovec: Seq<Iovec>) -> nat {
    iov_prefix_len(iovec, iovec.len())
}

/// Where in a flat buffer of `buf_len` bytes the share of range `k` begins:
/// the ranges take their shares one after the other until the buffer ends.
pub open spec fn piece_start(iovec: Seq<Iovec>, k: nat, buf_len: nat) -> nat {
    if iov_prefix_len(iovec, k) <= buf_len {
        iov_prefix_len(iovec, k)
    } else {
        buf_len
    }
}

/// How many bytes of a flat buffer of `buf_len` bytes fall to range `k`.
pub open spec fn piece_len(iovec: Seq<Iovec>, k: nat, buf_len: nat) -> nat {
    (piece_start(iovec, k + 1, buf_len) - piece_start(iovec, k, buf_len)) as nat
}

/// Whether each of the first `k` ranges can take its share of the buffer.
pub open spec fn pieces_mapped(
    size: nat,
    base: u64,
    iovec: Seq<Iovec>,
    buf_len: nat,
    k: nat,
) -> bool {
    forall|i: int|
        0 <= i < k ==> mapped(
            size,
            base,
            #[trigger] iovec[i].iov_base,
            piece_len(iovec, i as nat, buf_len),
        )
}

/// The window after the first `k` ranges received their shares of `buf`, in
/// order.
pub open spec fn scattered(mem: Seq<u8>, base: u64, iovec: Seq<Iovec>, buf: Seq<u8>, k: nat) -> Seq<
    u8,
>
    decreases k,
{
    if k == 0 {
        mem
    } else {
        let j = (k - 1) as nat;
        store(
            scattered(mem, base, iovec, buf, j),
            iovec[j as int].iov_base - base,
            buf.subrange(
                piece_start(iovec, j, buf.len()) as int,
                piece_start(iovec, k, buf.len()) as int,
            ),
        )
    }
}

/// The buffer after the first `k` ranges delivered their shares from the
/// window `mem`, in order.
pub open spec fn gathered(mem: Seq<u8>, base: u64, iovec: Seq<Iovec>, buf: Seq<u8>, k: nat) -> Seq<
    u8,
>
    decreases k,
{
    if k == 0 {
        buf
    } else {
        let j = (k - 1) as nat;
        store(
            gathered(mem, base, iovec, buf, j),
            piece_start(iovec, j, buf.len()) as int,
            load(mem, iovec[j as int].iov_base - base, piece_len(iovec, j, buf.len())),
        )
    }
}

/// Decides whether the `len` bytes from `hva` on lie inside the window, and
/// if so where in the window they start.
pub(crate) fn locate(size: usize, base: u64, hva: u64, len: usize) -> (r: Option<usize>)
    ensures
        r is Some <==> mapped(size as nat, base, hva, len as nat),
        r matches Some(at) ==> len == 0 || at == hva - base,
        r matches Some(at) ==> at + len <= size,
{
    if len == 0 {
        return Some(0);
    }
    if hva < base {
        return None;
    }
    let off: u64 = hva - base;
    if off > size as u64 {
        return None;
    }
    let at: usize = off as usize;
    if len > size - at {
        return None;
    }
    Some(at)
}

/// Writes `buf` into the window at address `hva`.
pub fn mem_from_buf(mem: &mut [u8], base: u64, buf: &[u8], hva: u64) -> (r: Result<(), MemError>)
    ensures
        r is Ok <==> mapped(old(mem)@.len(), base, hva, buf@.len()),
        r is Ok ==> final(mem)@ == store(old(mem)@, hva - base, buf@),
        r is Err ==> final(mem)@ == old(mem)@ && r == Err::<(), MemError>(
            MemError::Unmapped { hva, len: buf@.len() as u64 },
        ),
{
    let n: usize = buf.len();
    let size: usize = mem.len();
    let at: usize = match locate(size, base, hva, n) {
        Some(at) => at,
        None => {
            return Err(MemError::Unmapped { hva, len: n as u64 });
        },
    };
    let mut k: usize = 0;
    while k < n
        invariant
            k <= n,
            n == buf@.len(),
            at + n <= size,
            size == mem@.len(),
            mem@.len() == old(mem)@.len(),
            forall|i: int|
                0 <= i < mem@.len() ==> mem@[i] == (if at <= i < at + k {
                    buf@[i - at]
                } else {
                    old(mem)@[i]
                }),
        decreases n - k,
    {
        mem[at + k] = buf[k];
        k += 1;
    }
    proof {
        assert(mem@ =~= store(old(mem)@, hva - base, buf@));
    }
    Ok(())
}

/// Copies the `len` bytes of the window from index `at` on into `buf` from
/// index `start` on.
fn load_into(mem: &[u8], at: usize, buf: &mut [u8], start: usize, len: usize)
    requires
        at + len <= mem@.len(),
        start + len <= old(buf)@.len(),
    ensures
        final(buf)@ == store(old(buf)@, start as int, load(mem@, at as int, len as nat)),
{
    let size: usize = mem.len();
    let room: usize = buf.len();
    let mut k: usize = 0;
    while k < len
        invariant
            k <= len,
            at + len <= size,
            size == mem@.len(),
            start + len <= room,
            room == buf@.len(),
            buf@.len() == old(buf)@.len(),
            forall|i: int|
                0 <= i < buf@.len() ==> buf@[i] == (if start <= i < start + k {
                    mem@[at + (i - start)]
                } else {
                    old(buf)@[i]
                }),
        decreases len - k,
    {
        buf[start + k] = mem[at + k];
        k += 1;
    }
    proof {
        assert(buf@ =~= store(old(buf)@, start as int, load(mem@, at as int, len as nat)));
    }
}

/// Fills `buf` from the window at address `hva`.
pub fn mem_to_buf(mem: &[u8], base: u64, buf: &mut [u8], hva: u64) -> (r: Result<(), MemError>)
    ensures
        r is Ok <==> mapped(mem@.len(), base, hva, old(buf)@.len()),
        r is Ok ==> final(buf)@ == load(mem@, hva - base, old(buf)@.len()),
        r is Err ==> final(buf)@ == old(buf)@ && r == Err::<(), MemError>(
            MemError::Unmapped { hva, len: old(buf)@.len() as u64 },
        ),
{
    let n: usize = buf.len();
    let at: usize = match locate(mem.len(), base, hva, n) {
        Some(at) => at,
        None => {
            return Err(MemError::Unmapped { hva, len: n as u64 });
        },
    };
    load_into(mem, at, buf, 0, n);
    proof {
        assert(buf@ =~= load(mem@, hva - base, old(buf)@.len()));
    }
    Ok(())
}

/// Whether range `k` is the first that cannot take its share of the buffer.
pub open spec fn first_unmapped(
    size: nat,
    base: u64,
    iovec: Seq<Iovec>,
    buf_len: nat,
    k: nat,
) -> bool {
    &&& k < iovec.len()
    &&& pieces_mapped(size, base, iovec, buf_len, k)
    &&& !mapped(size, base, iovec[k as int].iov_base, piece_len(iovec, k, buf_len))
}

/// How many ranges a copy serves: all of them, or those before the first one
/// that leaves the window.
pub open spec fn served(size: nat, base: u64, iovec: Seq<Iovec>, buf_len: nat) -> nat {
    if pieces_mapped(size, base, iovec, buf_len, iovec.len()) {
        iovec.len()
    } else {
        choose|k: nat| first_unmapped(size, base, iovec, buf_len, k)
    }
}

/// What a copy between a buffer of `buf_len` bytes and the ranges reports:
/// the number of bytes copied, which is the length of the shorter of the two,
/// or the share of the first range that leaves the window.
pub open spec fn copy_result(size: nat, base: u64, iovec: Seq<Iovec>, buf_len: nat) -> Result<
    usize,
    MemError,
> {
    if pieces_mapped(size, base, iovec, buf_len, iovec.len()) {
        Ok(piece_start(iovec, iovec.len(), buf_len) as usize)
    } else {
        let k = served(size, base, iovec, buf_len);
        Err(
            MemError::Unmapped {
                hva: iovec[k as int].iov_base,
                len: piece_len(iovec, k, buf_len) as u64,
            },
        )
    }
}

/// The first range that leaves the window is the only one to be the first.
pub proof fn lemma_served_at(size: nat, base: u64, iovec: Seq<Iovec>, buf_len: nat, k: nat)
    requires
        first_unmapped(size, base, iovec, buf_len, k),
    ensures
        !pieces_mapped(size, base, iovec, buf_len, iovec.len()),
        served(size, base, iovec, buf_len) == k,
{
    assert(!mapped(size, base, iovec[k as int].iov_base, piece_len(iovec, k, buf_len)));
    let c = served(size, base, iovec, buf_len);
    assert(first_unmapped(size, base, iovec, buf_len, c));
    if c < k {
        assert(mapped(size, base, iovec[c as int].iov_base, piece_len(iovec, c, buf_len)));
    }
    if k < c {
        assert(mapped(size, base, iovec[k as int].iov_base, piece_len(iovec, k, buf_len)));
    }
}

/// The lengths of the first ranges add up to no more than those of more
/// ranges, and a range that is among the more but not among the first is one
/// of those that make the difference.
pub proof fn lemma_prefix_len_grows(iovec: Seq<Iovec>, k: nat, n: nat)
    requires
        k <= n,
    ensures
        iov_prefix_len(iovec, k) <= iov_prefix_len(iovec, n),
        k < n ==> iov_prefix_len(iovec, k) + iovec[k as int].iov_len <= iov_prefix_len(iovec, n),
    decreases n - k,
{
    if k < n {
        lemma_prefix_len_grows(iovec, k, (n - 1) as nat);
        if k == n - 1 {
            assert(iov_prefix_len(iovec, n) == iov_prefix_len(iovec, k) + iovec[k as int].iov_len);
        }
    }
}

/// A copy changes no lengths: the window stays as large as it was, and so
/// does the buffer.
pub proof fn lemma_copy_keeps_len(
    mem: Seq<u8>,
    base: u64,
    iovec: Seq<Iovec>,
    buf: Seq<u8>,
    k: nat,
)
    ensures
        scattered(mem, base, iovec, buf, k).len() == mem.len(),
        gathered(mem, base, iovec, buf, k).len() == buf.len(),
    decreases k,
{
    if k > 0 {
        lemma_copy_keeps_len(mem, base, iovec, buf, (k - 1) as nat);
    }
}

/// Once the buffer is used up, the ranges that follow get nothing and leave
/// window and buffer as they are.
proof fn lemma_exhausted(
    mem: Seq<u8>,
    base: u64,
    iovec: Seq<Iovec>,
    buf: Seq<u8>,
    from: nat,
    to: nat,
)
    requires
        from <= to,
        piece_start(iovec, from, buf.len()) == buf.len(),
    ensures
        piece_start(iovec, to, buf.len()) == buf.len(),
        forall|i: nat| from <= i < to ==> #[trigger] piece_len(iovec, i, buf.len()) == 0,
        scattered(mem, base, iovec, buf, to) == scattered(mem, base, iovec, buf, from),
        gathered(mem, base, iovec, buf, to) == gathered(mem, base, iovec, buf, from),
    decreases to - from,
{
    if from < to {
        let j = (to - 1) as nat;
        lemma_exhausted(mem, base, iovec, buf, from, j);
        assert(iov_prefix_len(iovec, to) == iov_prefix_len(iovec, j) + iovec[j as int].iov_len);
        assert(piece_len(iovec, j, buf.len()) == 0);
        let before = scattered(mem, base, iovec, buf, j);
        assert(scattered(mem, base, iovec, buf, to) =~= before);
        let filled = gathered(mem, base, iovec, buf, j);
        assert(gathered(mem, base, iovec, buf, to) =~= filled);
    }
}

/// Scatters `buf` over the ranges of `iovec`, in order, until the buffer or
/// the ranges are used up, and returns how many bytes were written: the
/// length of the shorter of the two. Stops at the first range that leaves the
/// window, with the ranges before it written.
pub fn iov_from_buf_direct(mem: &mut [u8], base: u64, iovec: &[Iovec], buf: &[u8]) -> (r: Result<
    usize,
    MemError,
>)
    ensures
        r == copy_result(old(mem)@.len(), base, iovec@, buf@.len()),
        final(mem)@ == scattered(
            old(mem)@,
            base,
            iovec@,
            buf@,
            served(old(mem)@.len(), base, iovec@, buf@.len()),
        ),
{
    let n: usize = iovec.len();
    let total: usize = buf.len();
    let mut start: usize = 0;
    let mut i: usize = 0;
    let mut done: bool = false;
    while i < n && !done
        invariant
            i <= n,
            n == iovec@.len(),
            total == buf@.len(),
            start == piece_start(iovec@, i as nat, total as nat),
            done ==> start == total,
            mem@.len() == old(mem)@.len(),
            pieces_mapped(mem@.len(), base, iovec@, total as nat, i as nat),
            mem@ == scattered(old(mem)@, base, iovec@, buf@, i as nat),
        decreases n - i,
    {
        let iov: Iovec = iovec[i];
        let left: usize = total - start;
        let take: usize = if iov.iov_len < left as u64 {
            iov.iov_len as usize
        } else {
            left
        };
        let end: usize = start + take;
        proof {
            assert(iov_prefix_len(iovec@, (i + 1) as nat) == iov_prefix_len(iovec@, i as nat)
                + iovec@[i as int].iov_len);
            assert(end == piece_start(iovec@, (i + 1) as nat, total as nat));
            assert(take == piece_len(iovec@, i as nat, total as nat));
        }
        match mem_from_buf(mem, base, slice_subrange(buf, start, end), iov.iov_base) {
            Ok(()) => {},
            Err(e) => {
                proof {
                    lemma_served_at(old(mem)@.len(), base, iovec@, buf@.len(), i as nat);
                }
                return Err(e);
            },
        }
        start = end;
        i += 1;
        if start >= total {
            done = true;
        }
    }
    proof {
        if i < n {
            lemma_exhausted(old(mem)@, base, iovec@, buf@, i as nat, n as nat);
        }
    }
    Ok(start)
}

/// Gathers the ranges of `iovec`, in order, into `buf` until the buffer or
/// the ranges are used up, and returns how many bytes were read: the length
/// of the shorter of the two. Stops at the first range that leaves the
/// window, with the ranges before it read.
pub fn iov_to_buf_direct(mem: &[u8], base: u64, iovec: &[Iovec], buf: &mut [u8]) -> (r: Result<
    usize,
    MemError,
>)
    ensures
        r == copy_result(mem@.len(), base, iovec@, old(buf)@.len()),
        final(buf)@ == gathered(
            mem@,
            base,
            iovec@,
            old(buf)@,
            served(mem@.len(), base, iovec@, old(buf)@.len()),
        ),
{
    let n: usize = iovec.len();
    let total: usize = buf.len();
    let size: usize = mem.len();
    let mut start: usize = 0;
    let mut i: usize = 0;
    let mut done: bool = false;
    while i < n && !done
        invariant
            i <= n,
            n == iovec@.len(),
            total == buf@.len(),
            size == mem@.len(),
            buf@.len() == old(buf)@.len(),
            start == piece_start(iovec@, i as nat, total as nat),
            done ==> start == total,
            pieces_mapped(mem@.len(), base, iovec@, total as nat, i as nat),
            buf@ == gathered(mem@, base, iovec@, old(buf)@, i as nat),
        decreases n - i,
    {
        let iov: Iovec = iovec[i];
        let left: usize = total - start;
        let take: usize = if iov.iov_len < left as u64 {
            iov.iov_len as usize
        } else {
            left
        };
        let end: usize = start + take;
        proof {
            assert(iov_prefix_len(iovec@, (i + 1) as nat) == iov_prefix_len(iovec@, i as nat)
                + iovec@[i as int].iov_len);
            assert(end == piece_start(iovec@, (i + 1) as nat, total as nat));
            assert(take == piece_len(iovec@, i as nat, total as nat));
        }
        match locate(size, base, iov.iov_base, take) {
            Some(at) => {
                load_into(mem, at, buf, start, take);
                proof {
                    assert(load(mem@, at as int, take as nat) =~= load(
                        mem@,
                        iov.iov_base - base,
                        take as nat,
                    ));
                }
            },
            None => {
                proof {
                    lemma_served_at(mem@.len(), base, iovec@, old(buf)@.len(), i as nat);
                }
                return Err(MemError::Unmapped { hva: iov.iov_base, len: take as u64 });
            },
        }
        start = end;
        i += 1;
        if start >= total {
            done = true;
        }
    }
    proof {
        if i < n {
            lemma_exhausted(mem@, base, iovec@, old(buf)@, i as nat, n as nat);
        }
    }
    Ok(start)
}

} // verus!
