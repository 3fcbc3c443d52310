//! The data path of one port: bytes from the character device go into the
//! buffers that the guest posted for receiving, and the bytes that the guest
//! posted for sending go to the character device, in pieces of at most
//! `BUF_SIZE` bytes.

use crate::hostmem::{
    copy_result, gathered, iov_from_buf_direct, iov_prefix_len, lemma_copy_keeps_len, load,
    piece_len, piece_start, scattered, served, store, Iovec,
};
use crate::serial::SerialPort;
use crate::virtio::{
    as_iovecs, chain_len, host_iovecs, iov_to_buf, Element, ElemIovec, VirtioError,
};
use vstd::prelude::*;
use vstd::slice::slice_to_vec;

verus! {

/// Size of the pieces in which bytes travel between the guest and the
/// character device.
pub const BUF_SIZE: usize = 4096;

/// How many bytes the port takes from the character device at once.
pub fn get_remain_space_size() -> (n: usize)
    ensures
        n == BUF_SIZE,
{
    BUF_SIZE
}

/// Whether `count` bytes from the character device are to be delivered: not
/// if there are none, and not if the queue has a port that the guest has
/// not opened.
pub open spec fn input_wanted(port: Option<SerialPort>, count: nat) -> bool {
    count != 0 && !(port matches Some(p) && !p.guest_connected)
}

/// Decides whether bytes from the character device are to be delivered at
/// all, before any chain is taken from the queue.
pub fn wants_input(port: Option<&SerialPort>, buffer: &[u8]) -> (wanted: bool)
    ensures
        wanted == input_wanted(
            match port {
                Some(p) => Some(*p),
                None => None,
            },
            buffer@.len(),
        ),
{
    if buffer.len() == 0 {
        return false;
    }
    match port {
        Some(p) => p.guest_connected,
        None => true,
    }
}

/// What became of one chain of the receive queue.
#[derive(Debug, Clone, Copy, PartialEq, Eq)]
pub struct InputStep {
    /// Number of bytes that were written to the chain, with which it is to
    /// be marked as used.
    pub used_len: u32,
    /// Whether the chain took the whole input, so that no further chain is
    /// needed.
    pub done: bool,
}

/// How delivering `count` bytes into the buffers of `elem` ends: with an
/// empty queue nothing happens; a buffer outside guest memory is a failure;
/// otherwise the chain takes as many bytes as it has room for.
pub open spec fn input_result(size: nat, base: u64, elem: Element, count: nat) -> Result<
    Option<InputStep>,
    VirtioError,
> {
    if elem.desc_num == 0 {
        Ok(None)
    } else {
        match copy_result(size, base, as_iovecs(elem.in_iovec@), count) {
            Err(e) => Err(VirtioError::Mem(e)),
            Ok(n) => Ok(Some(InputStep { used_len: n as u32, done: n >= count })),
        }
    }
}

/// Guest memory after delivering `buffer` into the buffers of `elem`.
pub open spec fn input_mem(mem: Seq<u8>, base: u64, elem: Element, buffer: Seq<u8>) -> Seq<u8> {
    if elem.desc_num == 0 {
        mem
    } else {
        scattered(
            mem,
            base,
            as_iovecs(elem.in_iovec@),
            buffer,
            served(mem.len(), base, as_iovecs(elem.in_iovec@), buffer.len()),
        )
    }
}

/// Delivers bytes from the character device into one chain `elem` of the
/// receive queue. The bytes fill the buffers of the chain in order, from the
/// first byte of `buffer` on, until the bytes or the buffers are used up.
/// The chain is to be marked as used with the number of bytes written, which
/// is the smaller of the number of bytes and the room in the chain.
pub fn input_handle_internal(mem: &mut [u8], base: u64, elem: &Element, buffer: &[u8]) -> (r:
    Result<Option<InputStep>, VirtioError>)
    requires
        buffer@.len() <= u32::MAX,
    ensures
        r == input_result(old(mem)@.len(), base, *elem, buffer@.len()),
        final(mem)@ == input_mem(old(mem)@, base, *elem, buffer@),
        r matches Ok(Some(step)) ==> step.used_len == (if buffer@.len() <= chain_len(
            elem.in_iovec@,
        ) {
            buffer@.len()
        } else {
            chain_len(elem.in_iovec@)
        }),
{
    if elem.desc_num == 0 {
        return Ok(None);
    }
    let ranges: Vec<Iovec> = host_iovecs(elem.in_iovec.as_slice());
    match iov_from_buf_direct(mem, base, ranges.as_slice(), buffer) {
        Ok(written) => Ok(Some(InputStep { used_len: written as u32, done: written >= buffer.len() })),
        Err(e) => Err(VirtioError::Mem(e)),
    }
}

/// Whether what the guest sends on the queue is forwarded: only if the queue
/// has a port and the host side of the port is open. Anything else is taken
/// from the queue and thrown away.
pub open spec fn output_wanted(port: Option<SerialPort>) -> bool {
    port matches Some(p) && p.host_connected
}

/// Decides whether what the guest sends on the queue is forwarded.
pub fn wants_output(port: Option<&SerialPort>) -> (wanted: bool)
    ensures
        wanted == output_wanted(
            match port {
                Some(p) => Some(*p),
                None => None,
            },
        ),
{
    match port {
        Some(p) => p.host_connected,
        None => false,
    }
}

/// Whether every buffer of a chain ends within the 64-bit address space.
pub open spec fn chain_wf(iovec: Seq<ElemIovec>) -> bool {
    forall|i: int|
        0 <= i < iovec.len() ==> (#[trigger] iovec[i]).addr + iovec[i].len
            <= 0x1_0000_0000_0000_0000
}

/// The bytes of the first `k` buffers of a chain, one buffer after the
/// other.
pub open spec fn chain_prefix_bytes(mem: Seq<u8>, base: u64, iovec: Seq<ElemIovec>, k: nat) -> Seq<
    u8,
>
    decreases k,
{
    if k == 0 {
        Seq::empty()
    } else {
        chain_prefix_bytes(mem, base, iovec, (k - 1) as nat) + load(
            mem,
            iovec[k - 1].addr - base,
            iovec[k - 1].len as nat,
        )
    }
}

/// The bytes of a chain: those of its buffers, one buffer after the other.
pub open spec fn chain_bytes(mem: Seq<u8>, base: u64, iovec: Seq<ElemIovec>) -> Seq<u8> {
    chain_prefix_bytes(mem, base, iovec, iovec.len())
}

/// A chain without its first `size` bytes: the buffers that lie within those
/// bytes are gone, and the buffer that they end in starts later.
pub open spec fn discarded(iovec: Seq<ElemIovec>, size: nat) -> Seq<ElemIovec>
    decreases iovec.len(),
{
    if iovec.len() == 0 {
        Seq::empty()
    } else if iovec[0].len > size {
        seq![
            ElemIovec { addr: (iovec[0].addr + size) as u64, len: (iovec[0].len - size) as u32 },
        ] + iovec.skip(1)
    } else {
        discarded(iovec.skip(1), (size - iovec[0].len) as nat)
    }
}

/// The bytes of the first buffers of a chain are as many as the buffers are
/// long.
pub proof fn lemma_chain_prefix_len(mem: Seq<u8>, base: u64, iovec: Seq<ElemIovec>, k: nat)
    requires
        k <= iovec.len(),
    ensures
        chain_prefix_bytes(mem, base, iovec, k).len() == iov_prefix_len(as_iovecs(iovec), k),
    decreases k,
{
    if k > 0 {
        lemma_chain_prefix_len(mem, base, iovec, (k - 1) as nat);
    }
}

/// The bytes of a chain are those of its first buffer and then those of the
/// rest.
proof fn lemma_chain_prefix_front(mem: Seq<u8>, base: u64, iovec: Seq<ElemIovec>, k: nat)
    requires
        k < iovec.len(),
    ensures
        chain_prefix_bytes(mem, base, iovec, k + 1) == load(
            mem,
            iovec[0].addr - base,
            iovec[0].len as nat,
        ) + chain_prefix_bytes(mem, base, iovec.skip(1), k),
    decreases k,
{
    let first = load(mem, iovec[0].addr - base, iovec[0].len as nat);
    if k == 0 {
        assert(chain_prefix_bytes(mem, base, iovec, 0) =~= Seq::<u8>::empty());
        assert(chain_prefix_bytes(mem, base, iovec, 1) =~= first);
        assert(first + chain_prefix_bytes(mem, base, iovec.skip(1), 0) =~= first);
    } else {
        lemma_chain_prefix_front(mem, base, iovec, (k - 1) as nat);
        let last = load(mem, iovec[k as int].addr - base, iovec[k as int].len as nat);
        assert(iovec.skip(1)[k - 1] == iovec[k as int]);
        assert(chain_prefix_bytes(mem, base, iovec, k + 1) == chain_prefix_bytes(
            mem,
            base,
            iovec,
            k,
        ) + last);
        assert(chain_prefix_bytes(mem, base, iovec.skip(1), k) == chain_prefix_bytes(
            mem,
            base,
            iovec.skip(1),
            (k - 1) as nat,
        ) + last);
        assert((first + chain_prefix_bytes(mem, base, iovec.skip(1), (k - 1) as nat)) + last
            =~= first + (chain_prefix_bytes(mem, base, iovec.skip(1), (k - 1) as nat) + last));
    }
}

/// A chain without its first bytes holds the bytes that follow them, and a
/// chain of sound buffers stays one.
pub proof fn lemma_discarded_bytes(mem: Seq<u8>, base: u64, iovec: Seq<ElemIovec>, size: nat)
    requires
        size <= chain_bytes(mem, base, iovec).len(),
        chain_wf(iovec),
    ensures
        chain_bytes(mem, base, discarded(iovec, size)) == chain_bytes(mem, base, iovec).skip(
            size as int,
        ),
        chain_wf(discarded(iovec, size)),
    decreases iovec.len(),
{
    if iovec.len() == 0 {
        assert(chain_bytes(mem, base, iovec).skip(size as int) =~= Seq::<u8>::empty());
    } else {
        let n = (iovec.len() - 1) as nat;
        let first = load(mem, iovec[0].addr - base, iovec[0].len as nat);
        let tail = iovec.skip(1);
        lemma_chain_prefix_front(mem, base, iovec, n);
        assert(chain_bytes(mem, base, iovec) == first + chain_bytes(mem, base, tail));
        if iovec[0].len > size {
            let head = ElemIovec {
                addr: (iovec[0].addr + size) as u64,
                len: (iovec[0].len - size) as u32,
            };
            let rest = seq![head] + tail;
            assert(rest == discarded(iovec, size));
            assert(rest.skip(1) =~= tail);
            lemma_chain_prefix_front(mem, base, rest, n);
            assert(load(mem, head.addr - base, head.len as nat) =~= first.skip(size as int));
            assert(chain_bytes(mem, base, rest) =~= (first + chain_bytes(mem, base, tail)).skip(
                size as int,
            ));
            assert forall|i: int| 0 <= i < rest.len() implies (#[trigger] rest[i]).addr
                + rest[i].len <= 0x1_0000_0000_0000_0000 by {
                if i > 0 {
                    assert(rest[i] == iovec[i]);
                } else {
                    assert(rest[0] == head);
                    assert(iovec[0].addr + iovec[0].len <= 0x1_0000_0000_0000_0000);
                }
            }
        } else {
            let less = (size - iovec[0].len) as nat;
            assert forall|i: int| 0 <= i < tail.len() implies (#[trigger] tail[i]).addr
                + tail[i].len <= 0x1_0000_0000_0000_0000 by {
                assert(tail[i] == iovec[i + 1]);
            }
            lemma_discarded_bytes(mem, base, tail, less);
            assert((first + chain_bytes(mem, base, tail)).skip(size as int) =~= chain_bytes(
                mem,
                base,
                tail,
            ).skip(less as int));
        }
    }
}

/// What is gathered from a chain into a buffer is the beginning of the bytes
/// of the chain.
pub proof fn lemma_gathered_is_prefix(
    mem: Seq<u8>,
    base: u64,
    iovec: Seq<ElemIovec>,
    buf: Seq<u8>,
    k: nat,
)
    requires
        k <= iovec.len(),
    ensures
        gathered(mem, base, as_iovecs(iovec), buf, k).take(
            piece_start(as_iovecs(iovec), k, buf.len()) as int,
        ) == chain_prefix_bytes(mem, base, iovec, k).take(
            piece_start(as_iovecs(iovec), k, buf.len()) as int,
        ),
    decreases k,
{
    let ranges = as_iovecs(iovec);
    let end = piece_start(ranges, k, buf.len());
    lemma_copy_keeps_len(mem, base, ranges, buf, k);
    lemma_chain_prefix_len(mem, base, iovec, k);
    if k == 0 {
        assert(gathered(mem, base, ranges, buf, k).take(end as int) =~= chain_prefix_bytes(
            mem,
            base,
            iovec,
            k,
        ).take(end as int));
    } else {
        let j = (k - 1) as nat;
        let start = piece_start(ranges, j, buf.len());
        lemma_gathered_is_prefix(mem, base, iovec, buf, j);
        lemma_copy_keeps_len(mem, base, ranges, buf, j);
        lemma_chain_prefix_len(mem, base, iovec, j);
        assert(iov_prefix_len(ranges, k) == iov_prefix_len(ranges, j) + ranges[j as int].iov_len);
        let before = gathered(mem, base, ranges, buf, j);
        let now = gathered(mem, base, ranges, buf, k);
        let bytes_before = chain_prefix_bytes(mem, base, iovec, j);
        let bytes_now = chain_prefix_bytes(mem, base, iovec, k);
        let piece = load(mem, ranges[j as int].iov_base - base, piece_len(ranges, j, buf.len()));
        let whole = load(mem, iovec[j as int].addr - base, iovec[j as int].len as nat);
        assert(now == store(before, start as int, piece));
        assert(bytes_now == bytes_before + whole);
        assert forall|i: int| 0 <= i < end implies now.take(end as int)[i] == bytes_now.take(
            end as int,
        )[i] by {
            if i < start {
                assert(now[i] == before[i]);
                assert(before.take(start as int)[i] == bytes_before.take(start as int)[i]);
            } else {
                assert(start == iov_prefix_len(ranges, j));
                assert(now[i] == piece[i - start]);
                assert(bytes_now[i] == whole[i - start]);
            }
        }
        assert(now.take(end as int) =~= bytes_now.take(end as int));
    }
}

/// Decides whether every buffer of a chain ends within the address space.
pub fn chain_fits(iovec: &[ElemIovec]) -> (fits: bool)
    ensures
        fits == chain_wf(iovec@),
{
    let n: usize = iovec.len();
    let mut i: usize = 0;
    while i < n
        invariant
            i <= n,
            n == iovec@.len(),
            forall|j: int|
                0 <= j < i ==> (#[trigger] iovec@[j]).addr + iovec@[j].len
                    <= 0x1_0000_0000_0000_0000,
        decreases n - i,
    {
        let iov: ElemIovec = iovec[i];
        if iov.len as u64 > 0 && iov.addr > u64::MAX - (iov.len as u64 - 1) {
            assert(iovec@[i as int].addr + iovec@[i as int].len > 0x1_0000_0000_0000_0000);
            return false;
        }
        i += 1;
    }
    true
}

/// Drops the first `size` bytes from a chain.
pub fn iov_discard_front(iovec: &[ElemIovec], size: u64) -> (rest: Vec<ElemIovec>)
    requires
        chain_wf(iovec@),
    ensures
        rest@ == discarded(iovec@, size as nat),
{
    let n: usize = iovec.len();
    let mut left: u64 = size;
    let mut i: usize = 0;
    proof {
        assert(iovec@.skip(0) =~= iovec@);
    }
    while i < n && iovec[i].len as u64 <= left
        invariant
            i <= n,
            n == iovec@.len(),
            discarded(iovec@, size as nat) == discarded(iovec@.skip(i as int), left as nat),
        decreases n - i,
    {
        proof {
            assert(iovec@.skip(i as int)[0] == iovec@[i as int]);
            assert(iovec@.skip(i as int).skip(1) =~= iovec@.skip(i as int + 1));
        }
        left = left - iovec[i].len as u64;
        i += 1;
    }
    let mut rest: Vec<ElemIovec> = Vec::new();
    if i < n {
        let iov: ElemIovec = iovec[i];
        proof {
            assert(iovec@.skip(i as int)[0] == iovec@[i as int]);
            assert(iovec@[i as int].addr + iovec@[i as int].len <= 0x1_0000_0000_0000_0000);
        }
        rest.push(ElemIovec { addr: iov.addr + left, len: (iov.len as u64 - left) as u32 });
        let ghost head = rest@;
        let mut j: usize = i + 1;
        while j < n
            invariant
                i < j <= n,
                n == iovec@.len(),
                head.len() == 1,
                rest@ == head + iovec@.subrange(i as int + 1, j as int),
            decreases n - j,
        {
            rest.push(iovec[j]);
            j += 1;
            proof {
                assert(rest@ =~= head + iovec@.subrange(i as int + 1, j as int));
            }
        }
        proof {
            assert(iovec@.subrange(i as int + 1, n as int) =~= iovec@.skip(i as int).skip(1));
        }
    }
    rest
}

/// How taking the next piece from a chain ends: a chain with a buffer that
/// does not end within the address space is refused, and so is one where a
/// buffer that the piece comes from lies outside guest memory; otherwise the
/// piece is as long as the chain, and `BUF_SIZE` bytes at most.
pub open spec fn chunk_result(size: nat, base: u64, iovec: Seq<ElemIovec>) -> Result<
    usize,
    VirtioError,
> {
    if !chain_wf(iovec) {
        Err(VirtioError::BadDescriptor)
    } else {
        match copy_result(size, base, as_iovecs(iovec), BUF_SIZE as nat) {
            Err(e) => Err(VirtioError::Mem(e)),
            Ok(n) => Ok(n),
        }
    }
}

/// Takes the next piece from the chain `iovec` of the transmit queue: the
/// first bytes of the chain, `BUF_SIZE` at most. Returns the piece and the
/// chain without it. An empty piece says that the chain is used up.
pub fn output_chunk(mem: &[u8], base: u64, iovec: &[ElemIovec]) -> (r: Result<
    (Vec<u8>, Vec<ElemIovec>),
    VirtioError,
>)
    ensures
        match chunk_result(mem@.len(), base, iovec@) {
            Err(e) => r == Err::<(Vec<u8>, Vec<ElemIovec>), VirtioError>(e),
            Ok(n) => {
                &&& r is Ok
                &&& r->Ok_0.0@ == chain_bytes(mem@, base, iovec@).take(n as int)
                &&& r->Ok_0.1@ == discarded(iovec@, n as nat)
                &&& n == (if chain_len(iovec@) <= BUF_SIZE {
                    chain_len(iovec@)
                } else {
                    BUF_SIZE as nat
                })
            },
        },
{
    if !chain_fits(iovec) {
        return Err(VirtioError::BadDescriptor);
    }
    let mut buffer: Vec<u8> = vec![0u8; BUF_SIZE];
    let ghost blank = buffer@;
    let n: usize = match iov_to_buf(mem, base, iovec, buffer.as_mut_slice()) {
        Ok(n) => n,
        Err(e) => {
            return Err(e);
        },
    };
    proof {
        lemma_gathered_is_prefix(mem@, base, iovec@, blank, iovec@.len());
        lemma_copy_keeps_len(mem@, base, as_iovecs(iovec@), blank, iovec@.len());
        lemma_chain_prefix_len(mem@, base, iovec@, iovec@.len());
    }
    buffer.truncate(n);
    let rest: Vec<ElemIovec> = iov_discard_front(iovec, n as u64);
    proof {
        assert(buffer@ =~= chain_bytes(mem@, base, iovec@).take(n as int));
    }
    Ok((buffer, rest))
}

/// All the bytes of several pieces, one piece after the other.
pub open spec fn joined(pieces: Seq<Vec<u8>>) -> Seq<u8>
    decreases pieces.len(),
{
    if pieces.len() == 0 {
        Seq::empty()
    } else {
        joined(pieces.drop_last()) + pieces.last()@
    }
}

/// Whether `pieces` is what forwarding a chain hands to the character
/// device: every piece went through `write_chardev`, none is empty or longer
/// than `BUF_SIZE`, and together they are the bytes `bytes`.
pub open spec fn forwarded<W: Fn(Vec<u8>)>(
    write_chardev: W,
    pieces: Seq<Vec<u8>>,
    bytes: Seq<u8>,
) -> bool {
    &&& joined(pieces) == bytes
    &&& forall|i: int|
        0 <= i < pieces.len() ==> {
            &&& 0 < (#[trigger] pieces[i])@.len() <= BUF_SIZE
            &&& call_ensures(write_chardev, (pieces[i],), ())
        }
}

/// How forwarding the chain `iovec` ends: piece after piece is taken from
/// the chain until a piece cannot be taken, which fails the chain, or the
/// chain is used up.
pub open spec fn forward_result(size: nat, base: u64, iovec: Seq<ElemIovec>) -> Result<
    (),
    VirtioError,
>
    decreases chain_len(iovec),
    via forward_result_terminates
{
    match chunk_result(size, base, iovec) {
        Err(e) => Err(e),
        Ok(n) => if n == 0 {
            Ok(())
        } else {
            forward_result(size, base, discarded(iovec, n as nat))
        },
    }
}

/// The bytes that forwarding the chain `iovec` hands on: those of the pieces
/// that are taken before forwarding ends.
pub open spec fn forward_bytes(mem: Seq<u8>, base: u64, iovec: Seq<ElemIovec>) -> Seq<u8>
    decreases chain_len(iovec),
    via forward_bytes_terminates
{
    match chunk_result(mem.len(), base, iovec) {
        Err(_) => Seq::empty(),
        Ok(n) => if n == 0 {
            Seq::empty()
        } else {
            chain_bytes(mem, base, iovec).take(n as int) + forward_bytes(
                mem,
                base,
                discarded(iovec, n as nat),
            )
        },
    }
}

/// A chain from which a piece was taken is shorter than before.
pub proof fn lemma_piece_shortens(size: nat, base: u64, iovec: Seq<ElemIovec>)
    requires
        chunk_result(size, base, iovec) matches Ok(n) && n > 0,
    ensures
        chain_len(discarded(iovec, chunk_result(size, base, iovec)->Ok_0 as nat)) < chain_len(
            iovec,
        ),
        chain_wf(discarded(iovec, chunk_result(size, base, iovec)->Ok_0 as nat)),
{
    let n = chunk_result(size, base, iovec)->Ok_0 as nat;
    let mem = Seq::<u8>::empty();
    lemma_chain_prefix_len(mem, base, iovec, iovec.len());
    lemma_discarded_bytes(mem, base, iovec, n);
    lemma_chain_prefix_len(mem, base, discarded(iovec, n), discarded(iovec, n).len());
}

#[via_fn]
proof fn forward_result_terminates(size: nat, base: u64, iovec: Seq<ElemIovec>) {
    if chunk_result(size, base, iovec) matches Ok(n) && n > 0 {
        lemma_piece_shortens(size, base, iovec);
    }
}

#[via_fn]
proof fn forward_bytes_terminates(mem: Seq<u8>, base: u64, iovec: Seq<ElemIovec>) {
    if chunk_result(mem.len(), base, iovec) matches Ok(n) && n > 0 {
        lemma_piece_shortens(mem.len(), base, iovec);
    }
}

/// Forwarding hands on every byte of a chain, unless it fails: the number of
/// bytes that reach the character device is the length of the buffers of the
/// chain.
pub proof fn lemma_forward_all(mem: Seq<u8>, base: u64, iovec: Seq<ElemIovec>)
    requires
        forward_result(mem.len(), base, iovec) is Ok,
    ensures
        forward_bytes(mem, base, iovec) == chain_bytes(mem, base, iovec),
        forward_bytes(mem, base, iovec).len() == chain_len(iovec),
    decreases chain_len(iovec),
{
    lemma_chain_prefix_len(mem, base, iovec, iovec.len());
    let all = chain_bytes(mem, base, iovec);
    match chunk_result(mem.len(), base, iovec) {
        Err(_) => {},
        Ok(n) => {
            if n == 0 {
                assert(all =~= Seq::<u8>::empty());
            } else {
                let rest = discarded(iovec, n as nat);
                lemma_piece_shortens(mem.len(), base, iovec);
                lemma_discarded_bytes(mem, base, iovec, n as nat);
                lemma_forward_all(mem, base, rest);
                assert(all.take(n as int) + all.skip(n as int) =~= all);
            }
        },
    }
}

/// Deals with one chain `elem` of the transmit queue. If what the guest
/// sends is wanted, the bytes of the chain go to `write_chardev`, in order
/// and in pieces of at most `BUF_SIZE` bytes: as many bytes as the buffers of
/// the chain are long, unless a piece cannot be read, which fails the chain
/// after the pieces before it have gone out. If what the guest sends is not
/// wanted, nothing is done with the chain. Returns the length with which the
/// chain is then to be marked as used, which is 0 either way, or nothing
/// where the queue was empty.
pub fn output_handle_internal<W: Fn(Vec<u8>)>(
    port: Option<&SerialPort>,
    mem: &[u8],
    base: u64,
    elem: &Element,
    write_chardev: W,
) -> (r: Result<Option<u32>, VirtioError>)
    requires
        forall|piece: Vec<u8>| call_requires(write_chardev, (piece,)),
    ensures
        elem.desc_num == 0 ==> r == Ok::<Option<u32>, VirtioError>(None),
        elem.desc_num != 0 && !output_wanted(
            match port {
                Some(p) => Some(*p),
                None => None,
            },
        ) ==> r == Ok::<Option<u32>, VirtioError>(Some(0u32)),
        elem.desc_num != 0 && output_wanted(
            match port {
                Some(p) => Some(*p),
                None => None,
            },
        ) ==> {
            &&& r == (match forward_result(mem@.len(), base, elem.out_iovec@) {
                Ok(_) => Ok::<Option<u32>, VirtioError>(Some(0u32)),
                Err(e) => Err::<Option<u32>, VirtioError>(e),
            })
            &&& exists|pieces: Seq<Vec<u8>>|
                forwarded(write_chardev, pieces, forward_bytes(mem@, base, elem.out_iovec@))
            &&& r is Ok ==> forward_bytes(mem@, base, elem.out_iovec@).len() == chain_len(
                elem.out_iovec@,
            )
        },
{
    if elem.desc_num == 0 {
        return Ok(None);
    }
    if !wants_output(port) {
        return Ok(Some(0));
    }
    let ghost size = mem@.len();
    let ghost mut pieces: Seq<Vec<u8>> = Seq::empty();
    let mut iovec: Vec<ElemIovec> = match output_chunk_start(elem) {
        Some(iovec) => iovec,
        None => {
            proof {
                assert(joined(pieces) =~= Seq::<u8>::empty());
                assert(forwarded(write_chardev, pieces, forward_bytes(mem@, base, elem.out_iovec@)));
            }
            return Err(VirtioError::BadDescriptor);
        },
    };
    proof {
        assert(joined(pieces) + forward_bytes(mem@, base, iovec@) =~= forward_bytes(
            mem@,
            base,
            elem.out_iovec@,
        ));
    }
    loop
        invariant
            elem.desc_num != 0,
            output_wanted(
                match port {
                    Some(p) => Some(*p),
                    None => None,
                },
            ),
            size == mem@.len(),
            forall|piece: Vec<u8>| call_requires(write_chardev, (piece,)),
            forward_result(size, base, iovec@) == forward_result(size, base, elem.out_iovec@),
            joined(pieces) + forward_bytes(mem@, base, iovec@) == forward_bytes(
                mem@,
                base,
                elem.out_iovec@,
            ),
            forall|i: int|
                0 <= i < pieces.len() ==> {
                    &&& 0 < (#[trigger] pieces[i])@.len() <= BUF_SIZE
                    &&& call_ensures(write_chardev, (pieces[i],), ())
                },
        ensures
            forward_result(size, base, elem.out_iovec@) is Ok,
            forwarded(write_chardev, pieces, forward_bytes(mem@, base, elem.out_iovec@)),
        decreases chain_len(iovec@),
    {
        let (piece, rest) = match output_chunk(mem, base, iovec.as_slice()) {
            Ok(got) => got,
            Err(e) => {
                proof {
                    assert(joined(pieces) + Seq::<u8>::empty() =~= joined(pieces));
                    assert(forwarded(
                        write_chardev,
                        pieces,
                        forward_bytes(mem@, base, elem.out_iovec@),
                    ));
                }
                return Err(e);
            },
        };
        proof {
            lemma_chain_prefix_len(mem@, base, iovec@, iovec@.len());
        }
        if piece.len() == 0 {
            proof {
                assert(forward_result(size, base, iovec@) is Ok);
                assert(forward_bytes(mem@, base, iovec@) =~= Seq::<u8>::empty());
                assert(joined(pieces) + Seq::<u8>::empty() =~= joined(pieces));
            }
            break ;
        }
        proof {
            lemma_piece_shortens(size, base, iovec@);
            let ghost before = pieces;
            pieces = pieces.push(piece);
            assert(pieces.drop_last() =~= before);
            assert(joined(pieces) == joined(before) + piece@);
            assert((joined(before) + piece@) + forward_bytes(mem@, base, rest@) =~= joined(before)
                + (piece@ + forward_bytes(mem@, base, rest@)));
        }
        write_chardev(piece);
        iovec = rest;
    }
    proof {
        lemma_forward_all(mem@, base, elem.out_iovec@);
    }
    Ok(Some(0))
}

/// The buffers of a chain that the guest sends, if each of them ends within
/// the address space.
fn output_chunk_start(elem: &Element) -> (r: Option<Vec<ElemIovec>>)
    ensures
        match r {
            Some(iovec) => iovec@ == elem.out_iovec@ && chain_wf(iovec@),
            None => !chain_wf(elem.out_iovec@),
        },
{
    if !chain_fits(elem.out_iovec.as_slice()) {
        return None;
    }
    Some(slice_to_vec(elem.out_iovec.as_slice()))
}

} // verus!
