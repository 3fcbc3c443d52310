//! An asynchronous I/O engine with a bounded number of requests in flight.
//!
//! Requests wait in a pending queue until the backend takes them; the engine
//! never has more than `max_events` of them in flight. What the kernel does is
//! reached through a backend ([`AioContext`]) and, on the synchronous paths,
//! through functions that the caller hands in. Whenever a request is
//! finished, the engine hands it back as a [`Completion`] together with the
//! value for its completion callback: each request comes back exactly once.
//!
//! The engine itself is here; [`model`] says what its operations do to the
//! two queues, [`bounce`] holds the path for requests that direct I/O would
//! reject, and [`sync`] the paths that wait for the kernel.

pub mod bounce;
pub mod model;
pub mod sync;

use crate::aio::bounce::{bounced, handle_misaligned_rw, is_misaligned, misaligned};
use crate::aio::model::{
    any_success, completion_cbs, conserved, drain_after, drain_ran, drain_run, drained, goes_on,
    handled, has_id, id_after, lemma_drain_drained, lemma_drain_prefix, lemma_drained_conserves,
    lemma_place_of_id, lemma_reaped_conserves, lemma_round, place_of_id, reaped_completions,
    reaped_in_flight, round_begins, settled_failure, settled_in_flight, settled_pending,
    staged_count, stalls, stamped,
};
use crate::hostmem::{iov_prefix_len, iov_total_len, lemma_prefix_len_grows, Iovec, MemError};
use std::collections::VecDeque;
use vstd::prelude::*;
use vstd::seq_lib::lemma_multiset_commutative;
use vstd::slice::slice_subrange;
use vstd::utf8::encode_utf8_decode_utf8;

verus! {

/// Name that selects the ring-based backend.
pub const AIO_IOURING: &'static str = "io_uring";

/// Name of the classic backend, which is also the default.
pub const AIO_NATIVE: &'static str = "native";

/// What a request asks for.
#[derive(Debug, Clone, Copy, PartialEq, Eq)]
pub enum OpCode {
    Noop,
    Preadv,
    Pwritev,
    Fdsync,
}

/// What the kernel reports of one finished request.
#[derive(Debug, Clone, Copy, PartialEq, Eq)]
pub struct AioEvent {
    pub user_data: u64,
    pub status: i64,
    pub res: i64,
}

/// A request: its own description and what the caller wants back with the
/// completion.
#[derive(Debug, Clone, PartialEq, Eq)]
pub struct AioCb<T> {
    pub last_aio: bool,
    pub file_fd: i32,
    pub opcode: OpCode,
    pub iovec: Vec<Iovec>,
    pub offset: usize,
    pub nbytes: u64,
    pub user_data: u64,
    pub iocompletecb: T,
}

impl<T> AioCb<T> {
    /// What is expected of a request: it announces no more bytes than a
    /// result can count, and a read or write announces as many bytes as its
    /// ranges hold.
    pub open spec fn wf(&self) -> bool {
        &&& self.nbytes <= i64::MAX
        &&& (self.opcode is Preadv || self.opcode is Pwritev) ==> iov_total_len(self.iovec@)
            == self.nbytes
    }

    /// Decides whether the request is as expected.
    pub fn is_wf(&self) -> (r: bool)
        ensures
            r == self.wf(),
    {
        if self.nbytes > i64::MAX as u64 {
            return false;
        }
        match self.opcode {
            OpCode::Preadv | OpCode::Pwritev => {},
            _ => {
                return true;
            },
        }
        let n: usize = self.iovec.len();
        let mut sum: u64 = 0;
        let mut i: usize = 0;
        while i < n
            invariant
                i <= n,
                n == self.iovec@.len(),
                self.opcode is Preadv || self.opcode is Pwritev,
                self.nbytes <= i64::MAX,
                sum == iov_prefix_len(self.iovec@, i as nat),
                sum <= self.nbytes,
            decreases n - i,
        {
            let len: u64 = self.iovec[i].iov_len;
            proof {
                lemma_prefix_len_grows(self.iovec@, (i + 1) as nat, n as nat);
                assert(iov_prefix_len(self.iovec@, (i + 1) as nat) == iov_prefix_len(
                    self.iovec@,
                    i as nat,
                ) + len);
            }
            if len > self.nbytes - sum {
                return false;
            }
            sum = sum + len;
            i += 1;
        }
        sum == self.nbytes
    }

    /// Whether the request can be carried out range by range: its file
    /// offset and the lengths of its ranges add up to an offset that exists.
    pub fn sync_fits(&self) -> (fits: bool)
        ensures
            fits == (self.offset + iov_total_len(self.iovec@) <= usize::MAX),
    {
        let n: usize = self.iovec.len();
        let mut end: usize = self.offset;
        let mut i: usize = 0;
        while i < n
            invariant
                i <= n,
                n == self.iovec@.len(),
                end == self.offset + iov_prefix_len(self.iovec@, i as nat),
            decreases n - i,
        {
            let len: u64 = self.iovec[i].iov_len;
            proof {
                lemma_prefix_len_grows(self.iovec@, (i + 1) as nat, n as nat);
                assert(iov_prefix_len(self.iovec@, (i + 1) as nat) == iov_prefix_len(
                    self.iovec@,
                    i as nat,
                ) + len);
            }
            if len > (usize::MAX - end) as u64 {
                return false;
            }
            end = end + len as usize;
            i += 1;
        }
        true
    }
}

/// A finished request with the value for its completion callback: the number
/// of bytes transferred, or -1.
#[derive(Debug, Clone, PartialEq, Eq)]
pub struct Completion<T> {
    pub cb: AioCb<T>,
    pub res: i64,
}

/// What dealing with the backend's events brought: the finished requests,
/// and whether one of them succeeded.
#[derive(Debug, Clone, PartialEq, Eq)]
pub struct Handled<T> {
    pub done: bool,
    pub completions: Vec<Completion<T>>,
}

/// Why a request could not be carried out.
#[derive(Debug, Clone, Copy, PartialEq, Eq)]
pub enum AioError {
    /// A system call failed with this error number.
    Os(i32),
    /// A range of the request lies outside the memory window.
    Mem(MemError),
    /// The ranges of the request hold fewer bytes than it announces.
    ShortCopy,
    /// The request is neither a read nor a write.
    UnknownOpcode,
    /// The request is larger than any buffer can be.
    TooLarge,
    /// There is no memory for the bounce buffer.
    NoMemory,
}

/// The kernel interface that takes requests and reports finished ones.
pub trait AioContext<T> {
    /// Hands `iocbp` to the kernel, which may take only the first few of
    /// them, and returns how many it took.
    fn submit(&mut self, iocbp: &[AioCb<T>]) -> Result<usize, AioError>
        requires
            iocbp@.len() > 0,
    ;

    /// The requests that finished since the last call.
    fn get_events(&mut self) -> Vec<AioEvent>;
}

/// Which kernel interface an engine is to use.
#[derive(Debug, Clone, Copy, PartialEq, Eq)]
pub enum AioEngine {
    Native,
    IoUring,
}

fn bytes_equal(a: &[u8], b: &[u8]) -> (r: bool)
    ensures
        r <==> a@ == b@,
{
    if a.len() != b.len() {
        return false;
    }
    let n: usize = a.len();
    let mut i: usize = 0;
    while i < n
        invariant
            i <= n,
            n == a@.len(),
            n == b@.len(),
            forall|j: int| 0 <= j < i ==> a@[j] == b@[j],
        decreases n - i,
    {
        if a[i] != b[i] {
            return false;
        }
        i += 1;
    }
    proof {
        assert(a@ =~= b@);
    }
    true
}

/// Picks the kernel interface by its configured name: the ring-based one for
/// `"io_uring"`, the classic one for any other name and for none.
pub fn aio_engine(engine: Option<&str>) -> (r: AioEngine)
    ensures
        r == (if engine matches Some(name) && name@ == AIO_IOURING@ {
            AioEngine::IoUring
        } else {
            AioEngine::Native
        }),
{
    match engine {
        Some(name) => {
            proof {
                encode_utf8_decode_utf8(name@);
                encode_utf8_decode_utf8(AIO_IOURING@);
            }
            if bytes_equal(name.as_bytes(), AIO_IOURING.as_bytes()) {
                AioEngine::IoUring
            } else {
                AioEngine::Native
            }
        },
        None => AioEngine::Native,
    }
}

fn has_success<T>(done: &Vec<Completion<T>>) -> (r: bool)
    ensures
        r == any_success(done@),
{
    let n: usize = done.len();
    let mut i: usize = 0;
    while i < n
        invariant
            i <= n,
            n == done@.len(),
            forall|j: int| 0 <= j < i ==> (#[trigger] done@[j]).res < 0,
        decreases n - i,
    {
        if done[i].res >= 0 {
            return true;
        }
        i += 1;
    }
    false
}

/// The engine: requests that wait, requests that the backend has taken, and
/// the backend itself.
pub struct Aio<T, C: AioContext<T>> {
    ctx: C,
    aio_in_queue: VecDeque<AioCb<T>>,
    aio_in_flight: Vec<AioCb<T>>,
    max_events: usize,
    next_id: u64,
}

impl<T, C: AioContext<T>> Aio<T, C> {
    /// The requests that wait for the backend, from the head of the queue,
    /// where new requests enter, to its tail, where the backend is served
    /// from.
    pub closed spec fn pending(&self) -> Seq<AioCb<T>> {
        self.aio_in_queue@
    }

    /// The requests that the backend has taken and not yet reported, in the
    /// order in which it took them.
    pub closed spec fn in_flight(&self) -> Seq<AioCb<T>> {
        self.aio_in_flight@
    }

    /// How many requests may be in flight at once.
    pub closed spec fn capacity(&self) -> nat {
        self.max_events as nat
    }

    /// The identifier that the next queued request is stamped with.
    pub closed spec fn next_id(&self) -> u64 {
        self.next_id
    }

    /// What holds of every engine at all times: no more requests are in
    /// flight than the capacity allows.
    pub open spec fn wf(&self) -> bool {
        self.in_flight().len() <= self.capacity()
    }

    /// An engine on the backend `ctx`, with nothing queued and room for 128
    /// requests in flight.
    pub fn new(ctx: C) -> (aio: Self)
        ensures
            aio.wf(),
            aio.pending() == Seq::<AioCb<T>>::empty(),
            aio.in_flight() == Seq::<AioCb<T>>::empty(),
            aio.capacity() == 128,
            aio.next_id() == 0,
    {
        Aio {
            ctx,
            aio_in_queue: VecDeque::new(),
            aio_in_flight: Vec::new(),
            max_events: 128,
            next_id: 0,
        }
    }

    /// How many requests may be in flight at once.
    pub fn max_events(&self) -> (n: usize)
        ensures
            n == self.capacity(),
    {
        self.max_events
    }

    /// Number of requests that wait.
    pub fn pending_len(&self) -> (n: usize)
        ensures
            n == self.pending().len(),
    {
        self.aio_in_queue.len()
    }

    /// Number of requests in flight.
    pub fn in_flight_len(&self) -> (n: usize)
        ensures
            n == self.in_flight().len(),
    {
        self.aio_in_flight.len()
    }

    /// The waiting request at place `i`, counted from the head of the queue.
    pub fn pending_at(&self, i: usize) -> (cb: &AioCb<T>)
        requires
            i < self.pending().len(),
        ensures
            *cb == self.pending()[i as int],
    {
        &self.aio_in_queue[i]
    }

    /// The request in flight at place `i`, counted from the one taken first.
    pub fn in_flight_at(&self, i: usize) -> (cb: &AioCb<T>)
        requires
            i < self.in_flight().len(),
        ensures
            *cb == self.in_flight()[i as int],
    {
        &self.aio_in_flight[i]
    }

    /// Begins a round of a drain: moves requests from the tail of the pending
    /// queue into flight, one by one, until none waits or no more may be in
    /// flight, and tells how many. They are the last requests in flight, in
    /// the order in which the backend is to get them.
    pub fn stage_batch(&mut self) -> (k: usize)
        requires
            old(self).wf(),
        ensures
            final(self).wf(),
            final(self).capacity() == old(self).capacity(),
            final(self).next_id() == old(self).next_id(),
            k == staged_count(
                old(self).pending().len(),
                old(self).in_flight().len(),
                old(self).capacity(),
            ),
            final(self).pending() == old(self).pending().take(old(self).pending().len() - k),
            final(self).in_flight() == old(self).in_flight() + old(self).pending().skip(
                old(self).pending().len() - k,
            ).reverse(),
    {
        let room: usize = self.max_events - self.aio_in_flight.len();
        let mut k: usize = 0;
        while k < room && self.aio_in_queue.len() > 0
            invariant
                k <= room,
                self.max_events == old(self).max_events,
                self.next_id == old(self).next_id,
                room == old(self).max_events - old(self).aio_in_flight@.len(),
                k <= old(self).aio_in_queue@.len(),
                self.aio_in_queue@ == old(self).aio_in_queue@.take(old(self).aio_in_queue@.len() - k),
                self.aio_in_flight@ == old(self).aio_in_flight@ + old(self).aio_in_queue@.skip(
                    old(self).aio_in_queue@.len() - k,
                ).reverse(),
            decreases room - k,
        {
            let ghost queue = self.aio_in_queue@;
            let ghost flying = self.aio_in_flight@;
            match self.aio_in_queue.pop_back() {
                Some(cb) => {
                    self.aio_in_flight.push(cb);
                },
                None => {},
            }
            k += 1;
            proof {
                let all = old(self).aio_in_queue@;
                assert(self.aio_in_queue@ =~= all.take(all.len() - k));
                assert(self.aio_in_flight@ =~= old(self).aio_in_flight@ + all.skip(
                    all.len() - k,
                ).reverse());
            }
        }
        k
    }

    /// Puts the last `back` requests that went into flight back at the tail of
    /// the pending queue, the latest first.
    fn unstage(&mut self, back: usize)
        requires
            old(self).wf(),
            back <= old(self).in_flight().len(),
        ensures
            final(self).wf(),
            final(self).capacity() == old(self).capacity(),
            final(self).next_id() == old(self).next_id(),
            final(self).in_flight() == old(self).in_flight().take(
                old(self).in_flight().len() - back,
            ),
            final(self).pending() == old(self).pending() + old(self).in_flight().skip(
                old(self).in_flight().len() - back,
            ).reverse(),
    {
        let mut moved: usize = 0;
        while moved < back
            invariant
                moved <= back,
                back <= old(self).aio_in_flight@.len(),
                self.max_events == old(self).max_events,
                self.next_id == old(self).next_id,
                self.aio_in_flight@.len() <= self.max_events,
                self.aio_in_flight@ == old(self).aio_in_flight@.take(
                    old(self).aio_in_flight@.len() - moved,
                ),
                self.aio_in_queue@ == old(self).aio_in_queue@ + old(self).aio_in_flight@.skip(
                    old(self).aio_in_flight@.len() - moved,
                ).reverse(),
            decreases back - moved,
        {
            match self.aio_in_flight.pop() {
                Some(cb) => {
                    self.aio_in_queue.push_back(cb);
                },
                None => {},
            }
            moved += 1;
            proof {
                let all = old(self).aio_in_flight@;
                assert(self.aio_in_flight@ =~= all.take(all.len() - moved));
                assert(self.aio_in_queue@ =~= old(self).aio_in_queue@ + all.skip(
                    all.len() - moved,
                ).reverse());
            }
        }
    }

    /// Ends a round of a drain, in which `staged` requests went into flight
    /// and the backend answered `answer`. Of the staged requests the backend
    /// has taken the first few: as many as it says, none if it failed. The
    /// others return to the tail of the pending queue, where they came from,
    /// in their old order. If the backend failed, the request at the tail is
    /// taken from the queue and handed back with -1.
    pub fn settle_batch(&mut self, staged: usize, answer: Result<usize, AioError>) -> (lost: Option<
        Completion<T>,
    >)
        requires
            old(self).wf(),
            staged <= old(self).in_flight().len(),
        ensures
            final(self).wf(),
            final(self).capacity() == old(self).capacity(),
            final(self).next_id() == old(self).next_id(),
            final(self).in_flight() == settled_in_flight(
                old(self).in_flight(),
                staged as nat,
                answer,
            ),
            final(self).pending() == settled_pending(
                old(self).pending(),
                old(self).in_flight(),
                staged as nat,
                answer,
            ),
            lost == settled_failure(
                old(self).pending(),
                old(self).in_flight(),
                staged as nat,
                answer,
            ),
    {
        let (taken, is_err): (usize, bool) = match answer {
            Ok(nr) => (
                if nr < staged {
                    nr
                } else {
                    staged
                },
                false,
            ),
            Err(_) => (0, true),
        };
        self.unstage(staged - taken);
        if is_err {
            match self.aio_in_queue.pop_back() {
                Some(cb) => Some(Completion { cb, res: -1 }),
                None => None,
            }
        } else {
            None
        }
    }

    /// Serves the backend from the pending queue for as long as requests wait
    /// and fewer than the capacity are in flight. Each round hands the backend
    /// the requests at the tail of the queue, as many as may still go into
    /// flight; those that it does not take return to the tail in their old
    /// order. A round in which the backend fails costs the request at the tail:
    /// it comes back with -1, so that a request that the backend cannot
    /// digest does not block the queue. A round in which the backend takes
    /// nothing without failing ends the drain.
    pub fn process_list(&mut self) -> (failed: Vec<Completion<T>>)
        requires
            old(self).wf(),
        ensures
            final(self).wf(),
            final(self).capacity() == old(self).capacity(),
            final(self).next_id() == old(self).next_id(),
            drain_ran(
                old(self).pending(),
                old(self).in_flight(),
                old(self).capacity(),
                final(self).pending(),
                final(self).in_flight(),
                failed@,
            ),
            drained(
                old(self).pending(),
                old(self).in_flight(),
                old(self).capacity(),
                final(self).pending(),
                final(self).in_flight(),
                failed@,
            ),
    {
        let mut failed: Vec<Completion<T>> = Vec::new();
        let ghost pending0 = self.aio_in_queue@;
        let ghost in_flight0 = self.aio_in_flight@;
        let ghost capacity = self.max_events as nat;
        let ghost mut answers: Seq<Result<usize, AioError>> = Seq::empty();
        while self.aio_in_queue.len() > 0 && self.aio_in_flight.len() < self.max_events
            invariant_except_break
                forall|j: int| 0 <= j < answers.len() ==> !stalls(#[trigger] answers[j]),
            invariant
                self.max_events == old(self).max_events,
                self.next_id == old(self).next_id,
                capacity == self.max_events,
                self.aio_in_flight@.len() <= self.max_events,
                self.aio_in_queue@ == drain_after(
                    pending0,
                    in_flight0,
                    capacity,
                    answers,
                    answers.len(),
                ).0,
                self.aio_in_flight@ == drain_after(
                    pending0,
                    in_flight0,
                    capacity,
                    answers,
                    answers.len(),
                ).1,
                failed@ == drain_after(pending0, in_flight0, capacity, answers, answers.len()).2,
                forall|j: nat|
                    j < answers.len() ==> #[trigger] round_begins(
                        pending0,
                        in_flight0,
                        capacity,
                        answers,
                        j,
                    ),
            ensures
                forall|j: int| 0 <= j < answers.len() - 1 ==> !stalls(#[trigger] answers[j]),
                (answers.len() > 0 && stalls(answers.last())) || !goes_on(
                    self.aio_in_queue@.len(),
                    self.aio_in_flight@.len(),
                    capacity,
                ),
            decreases self.aio_in_queue@.len(),
        {
            let ghost queue = self.aio_in_queue@;
            let ghost flying = self.aio_in_flight@;
            let ghost lost_before = failed@;
            let ghost answered = answers;
            let first: usize = self.aio_in_flight.len();
            let k: usize = self.stage_batch();
            let answer = self.ctx.submit(
                slice_subrange(self.aio_in_flight.as_slice(), first, first + k),
            );
            let stalled: bool = match answer {
                Ok(nr) => nr == 0,
                Err(_) => false,
            };
            let lost = self.settle_batch(k, answer);
            match lost {
                Some(done) => {
                    failed.push(done);
                },
                None => {},
            }
            proof {
                lemma_round(queue, flying, capacity, answer);
                answers = answered.push(answer);
                assert forall|j: nat| j <= answered.len() implies drain_after(
                    pending0,
                    in_flight0,
                    capacity,
                    answers,
                    j,
                ) == drain_after(pending0, in_flight0, capacity, answered, j) by {
                    lemma_drain_prefix(pending0, in_flight0, capacity, answered, answer, j);
                }
                assert(answers[answers.len() - 1] == answer);
                assert(drain_after(pending0, in_flight0, capacity, answers, answered.len()) == (
                    queue,
                    flying,
                    lost_before,
                ));
                assert forall|j: nat| j < answers.len() implies #[trigger] round_begins(
                    pending0,
                    in_flight0,
                    capacity,
                    answers,
                    j,
                ) by {
                    if j < answered.len() {
                        assert(round_begins(pending0, in_flight0, capacity, answered, j));
                    }
                }
                assert forall|j: int| 0 <= j < answers.len() - 1 implies !stalls(
                    #[trigger] answers[j],
                ) by {
                    assert(answers[j] == answered[j]);
                }
            }
            if stalled {
                break ;
            }
            proof {
                assert forall|j: int| 0 <= j < answers.len() implies !stalls(
                    #[trigger] answers[j],
                ) by {
                    if j < answered.len() {
                        assert(answers[j] == answered[j]);
                    }
                }
            }
        }
        proof {
            assert(drain_run(
                pending0,
                in_flight0,
                capacity,
                answers,
                self.aio_in_queue@,
                self.aio_in_flight@,
                failed@,
            ));
            lemma_drain_drained(pending0, in_flight0, capacity, answers, answers.len());
        }
        failed
    }

    /// Queues a request, or carries it out at once where direct I/O would
    /// reject its ranges.
    ///
    /// With `direct` set, a request with a range that starts or ends off a
    /// multiple of `sector_size` goes through the bounce buffer and comes back
    /// at once, with 0 if that went well and -1 if not. Any other request is
    /// stamped with the next identifier and enters the pending queue at its
    /// head. If it is the last of its batch, or as many requests wait or are
    /// in flight as may be in flight, the queue is drained.
    pub fn rw_aio<Rd, Wr>(
        &mut self,
        mem: &mut [u8],
        base: u64,
        cb: AioCb<T>,
        sector_size: u64,
        direct: bool,
        read_aligned: Rd,
        write_aligned: Wr,
    ) -> (done: Vec<Completion<T>>) where
        Rd: Fn(i32, usize, usize) -> Result<Vec<u8>, i32>,
        Wr: Fn(i32, Vec<u8>, usize) -> Result<i64, i32>,

        requires
            old(self).wf(),
            direct ==> sector_size > 0,
            forall|fd: i32, size: usize, offset: usize|
                call_requires(read_aligned, (fd, size, offset)),
            forall|fd: i32, data: Vec<u8>, offset: usize|
                call_requires(write_aligned, (fd, data, offset)),
        ensures
            final(self).wf(),
            final(self).capacity() == old(self).capacity(),
            if direct && misaligned(cb.iovec@, sector_size) {
                &&& final(self).pending() == old(self).pending()
                &&& final(self).in_flight() == old(self).in_flight()
                &&& final(self).next_id() == old(self).next_id()
                &&& done@.len() == 1
                &&& done@[0].cb == cb
                &&& exists|r: Result<(), AioError>|
                    {
                        &&& bounced(
                            old(mem)@,
                            final(mem)@,
                            base,
                            cb,
                            read_aligned,
                            write_aligned,
                            r,
                        )
                        &&& done@[0].res == (if r is Ok {
                            0i64
                        } else {
                            -1i64
                        })
                    }
            } else {
                let queued = seq![stamped(cb, old(self).next_id())] + old(self).pending();
                &&& final(mem)@ == old(mem)@
                &&& final(self).next_id() == id_after(old(self).next_id())
                &&& if cb.last_aio || queued.len() + old(self).in_flight().len() >= old(
                    self,
                ).capacity() {
                    &&& drain_ran(
                        queued,
                        old(self).in_flight(),
                        old(self).capacity(),
                        final(self).pending(),
                        final(self).in_flight(),
                        done@,
                    )
                    &&& drained(
                        queued,
                        old(self).in_flight(),
                        old(self).capacity(),
                        final(self).pending(),
                        final(self).in_flight(),
                        done@,
                    )
                } else {
                    &&& final(self).pending() == queued
                    &&& final(self).in_flight() == old(self).in_flight()
                    &&& done@.len() == 0
                }
            },
    {
        if direct && is_misaligned(&cb.iovec, sector_size) {
            let res: i64 = match handle_misaligned_rw(mem, base, &cb, read_aligned, write_aligned) {
                Ok(()) => 0,
                Err(_) => -1,
            };
            let mut done: Vec<Completion<T>> = Vec::new();
            done.push(Completion { cb, res });
            return done;
        }
        let last_aio: bool = cb.last_aio;
        let mut cb = cb;
        cb.user_data = self.next_id;
        self.next_id = if self.next_id == u64::MAX {
            0
        } else {
            self.next_id + 1
        };
        self.aio_in_queue.push_front(cb);
        if last_aio || self.aio_in_queue.len() >= self.max_events - self.aio_in_flight.len() {
            self.process_list()
        } else {
            Vec::new()
        }
    }

    /// Takes the request that `evt` reports out of flight: the first one with
    /// the event's identifier.
    fn take_in_flight(&mut self, evt: &AioEvent) -> (found: Option<AioCb<T>>)
        requires
            old(self).wf(),
        ensures
            final(self).wf(),
            final(self).capacity() == old(self).capacity(),
            final(self).next_id() == old(self).next_id(),
            final(self).pending() == old(self).pending(),
            match found {
                Some(cb) => {
                    &&& has_id(old(self).in_flight(), evt.user_data)
                    &&& cb == old(self).in_flight()[place_of_id(
                        old(self).in_flight(),
                        evt.user_data,
                    )]
                    &&& final(self).in_flight() == old(self).in_flight().remove(
                        place_of_id(old(self).in_flight(), evt.user_data),
                    )
                },
                None => {
                    &&& !has_id(old(self).in_flight(), evt.user_data)
                    &&& final(self).in_flight() == old(self).in_flight()
                },
            },
    {
        let n: usize = self.aio_in_flight.len();
        let mut i: usize = 0;
        while i < n
            invariant
                i <= n,
                n == self.aio_in_flight@.len(),
                old(self).wf(),
                self.aio_in_flight@ == old(self).aio_in_flight@,
                self.aio_in_queue@ == old(self).aio_in_queue@,
                self.max_events == old(self).max_events,
                self.next_id == old(self).next_id,
                forall|j: int|
                    0 <= j < i ==> (#[trigger] self.aio_in_flight@[j]).user_data != evt.user_data,
            decreases n - i,
        {
            if self.aio_in_flight[i].user_data == evt.user_data {
                proof {
                    lemma_place_of_id(self.aio_in_flight@, evt.user_data, i as int);
                }
                let cb = self.aio_in_flight.remove(i);
                return Some(cb);
            }
            i += 1;
        }
        None
    }

    /// Deals with what the kernel reports: every event takes the request that
    /// it answers out of flight and hands it back, with the number of bytes if
    /// the request did all it announced and with -1 otherwise.
    pub fn reap(&mut self, events: &[AioEvent]) -> (done: Vec<Completion<T>>)
        requires
            old(self).wf(),
        ensures
            final(self).wf(),
            final(self).capacity() == old(self).capacity(),
            final(self).next_id() == old(self).next_id(),
            final(self).pending() == old(self).pending(),
            final(self).in_flight() == reaped_in_flight(
                old(self).in_flight(),
                events@,
                events@.len(),
            ),
            done@ == reaped_completions(old(self).in_flight(), events@, events@.len()),
    {
        let mut done: Vec<Completion<T>> = Vec::new();
        let n: usize = events.len();
        let mut k: usize = 0;
        while k < n
            invariant
                k <= n,
                n == events@.len(),
                self.wf(),
                self.max_events == old(self).max_events,
                self.next_id == old(self).next_id,
                self.aio_in_queue@ == old(self).aio_in_queue@,
                self.aio_in_flight@ == reaped_in_flight(old(self).aio_in_flight@, events@, k as nat),
                done@ == reaped_completions(old(self).aio_in_flight@, events@, k as nat),
            decreases n - k,
        {
            let evt: AioEvent = events[k];
            match self.take_in_flight(&evt) {
                Some(cb) => {
                    let res: i64 = if evt.status == 0 && evt.res >= 0 && evt.res as u64
                        == cb.nbytes {
                        evt.res
                    } else {
                        -1
                    };
                    done.push(Completion { cb, res });
                },
                None => {},
            }
            k += 1;
        }
        done
    }

    /// Fetches the events of the backend, deals with them, and then drains the
    /// pending queue into the room that the finished requests left. Hands
    /// back the finished requests, those that the events report first, and
    /// tells whether one of them succeeded.
    pub fn handle(&mut self) -> (r: Handled<T>)
        requires
            old(self).wf(),
        ensures
            final(self).wf(),
            final(self).capacity() == old(self).capacity(),
            final(self).next_id() == old(self).next_id(),
            exists|events: Seq<AioEvent>|
                handled(
                    old(self).pending(),
                    old(self).in_flight(),
                    old(self).capacity(),
                    events,
                    final(self).pending(),
                    final(self).in_flight(),
                    r.completions@,
                ),
            r.done == any_success(r.completions@),
            forall|i: int|
                0 <= i < r.completions@.len() ==> {
                    let c = #[trigger] r.completions@[i];
                    c.res == -1 || c.res == c.cb.nbytes
                },
            conserved(
                old(self).pending(),
                old(self).in_flight(),
                final(self).pending(),
                final(self).in_flight(),
                r.completions@,
            ),
    {
        let ghost pending0 = self.aio_in_queue@;
        let ghost in_flight0 = self.aio_in_flight@;
        let events: Vec<AioEvent> = self.ctx.get_events();
        let mut completions: Vec<Completion<T>> = self.reap(events.as_slice());
        let ghost reaped = completions@;
        let ghost left = self.aio_in_flight@;
        let mut failed: Vec<Completion<T>> = self.process_list();
        let ghost lost = failed@;
        completions.append(&mut failed);
        let done: bool = has_success(&completions);
        proof {
            assert(completions@.take(reaped.len() as int) =~= reaped);
            assert(completions@.skip(reaped.len() as int) =~= lost);
            lemma_reaped_conserves(in_flight0, events@, events@.len());
            lemma_drained_conserves(
                pending0,
                left,
                self.max_events as nat,
                self.aio_in_queue@,
                self.aio_in_flight@,
                lost,
            );
            assert(completion_cbs(completions@) =~= completion_cbs(reaped) + completion_cbs(lost));
            lemma_multiset_commutative(completion_cbs(reaped), completion_cbs(lost));
            let before = pending0.to_multiset().add(in_flight0.to_multiset());
            let after = self.aio_in_queue@.to_multiset().add(self.aio_in_flight@.to_multiset()).add(
                completion_cbs(completions@).to_multiset(),
            );
            let midway = pending0.to_multiset().add(left.to_multiset());
            assert forall|cb: AioCb<T>| before.count(cb) == after.count(cb) by {
                assert(midway.count(cb) == self.aio_in_queue@.to_multiset().add(
                    self.aio_in_flight@.to_multiset(),
                ).add(completion_cbs(lost).to_multiset()).count(cb));
                assert(in_flight0.to_multiset().count(cb) == left.to_multiset().add(
                    completion_cbs(reaped).to_multiset(),
                ).count(cb));
                assert(completion_cbs(completions@).to_multiset().count(cb) == completion_cbs(
                    reaped,
                ).to_multiset().add(completion_cbs(lost).to_multiset()).count(cb));
            }
            assert(before =~= after);
            assert(conserved(
                pending0,
                in_flight0,
                self.aio_in_queue@,
                self.aio_in_flight@,
                completions@,
            ));
            assert(handled(
                old(self).pending(),
                old(self).in_flight(),
                old(self).capacity(),
                events@,
                self.pending(),
                self.in_flight(),
                completions@,
            ));
        }
        Handled { done, completions }
    }
}

} // verus!
