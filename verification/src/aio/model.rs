//! What the operations of the engine do to its two queues, and what holds of
//! them whatever the backend answers: no request is lost, none comes back
//! twice, and those that wait keep their order.

use crate::aio::{AioCb, AioError, AioEvent, Completion};
use vstd::multiset::Multiset;
use vstd::prelude::*;
use vstd::seq_lib::lemma_multiset_commutative;

verus! {

/// The value for the completion callback of `cb` when the kernel reports
/// `evt` of it: the number of bytes, if the request succeeded and transferred
/// all the bytes it announced, and -1 otherwise.
pub open spec fn completion_value<T>(cb: AioCb<T>, evt: AioEvent) -> i64 {
    if evt.status == 0 && evt.res == cb.nbytes {
        evt.res
    } else {
        -1i64
    }
}

/// Whether a request in flight carries the identifier `id`.
pub open spec fn has_id<T>(in_flight: Seq<AioCb<T>>, id: u64) -> bool {
    exists|i: int| 0 <= i < in_flight.len() && (#[trigger] in_flight[i]).user_data == id
}

/// Whether place `i` holds the first request in flight with the identifier
/// `id`.
pub open spec fn first_with_id<T>(in_flight: Seq<AioCb<T>>, id: u64, i: int) -> bool {
    &&& 0 <= i < in_flight.len()
    &&& in_flight[i].user_data == id
    &&& forall|j: int| 0 <= j < i ==> (#[trigger] in_flight[j]).user_data != id
}

/// The place of the first request in flight with the identifier `id`.
pub open spec fn place_of_id<T>(in_flight: Seq<AioCb<T>>, id: u64) -> int {
    choose|i: int| first_with_id(in_flight, id, i)
}

/// The requests in flight after the first `k` of `events` were dealt with:
/// each event takes the first request with its identifier out of flight; an
/// event that no request answers to changes nothing.
pub open spec fn reaped_in_flight<T>(
    in_flight: Seq<AioCb<T>>,
    events: Seq<AioEvent>,
    k: nat,
) -> Seq<AioCb<T>>
    decreases k,
{
    if k == 0 {
        in_flight
    } else {
        let before = reaped_in_flight(in_flight, events, (k - 1) as nat);
        let id = events[k - 1].user_data;
        if has_id(before, id) {
            before.remove(place_of_id(before, id))
        } else {
            before
        }
    }
}

/// The completions that the first `k` of `events` give rise to, in the
/// order of the events.
pub open spec fn reaped_completions<T>(
    in_flight: Seq<AioCb<T>>,
    events: Seq<AioEvent>,
    k: nat,
) -> Seq<Completion<T>>
    decreases k,
{
    if k == 0 {
        Seq::empty()
    } else {
        let before = reaped_in_flight(in_flight, events, (k - 1) as nat);
        let done = reaped_completions(in_flight, events, (k - 1) as nat);
        let evt = events[k - 1];
        if has_id(before, evt.user_data) {
            let cb = before[place_of_id(before, evt.user_data)];
            done.push(Completion { cb, res: completion_value(cb, evt) })
        } else {
            done
        }
    }
}

/// Whether one of the completions reports success.
pub open spec fn any_success<T>(done: Seq<Completion<T>>) -> bool {
    exists|i: int| 0 <= i < done.len() && (#[trigger] done[i]).res >= 0
}

/// The request `cb` with the identifier `id` stamped on it.
pub open spec fn stamped<T>(cb: AioCb<T>, id: u64) -> AioCb<T> {
    AioCb {
        last_aio: cb.last_aio,
        file_fd: cb.file_fd,
        opcode: cb.opcode,
        iovec: cb.iovec,
        offset: cb.offset,
        nbytes: cb.nbytes,
        user_data: id,
        iocompletecb: cb.iocompletecb,
    }
}

/// The identifier after `id`; the last one is followed by the first.
pub open spec fn id_after(id: u64) -> u64 {
    if id == u64::MAX {
        0
    } else {
        (id + 1) as u64
    }
}

/// What handling the events `events` does to an engine with the queue
/// `pending0` and the requests `in_flight0` in flight: first the events are
/// dealt with, which gives the first completions, then the queue is drained
/// into the room that they left, which gives the rest.
pub open spec fn handled<T>(
    pending0: Seq<AioCb<T>>,
    in_flight0: Seq<AioCb<T>>,
    capacity: nat,
    events: Seq<AioEvent>,
    pending1: Seq<AioCb<T>>,
    in_flight1: Seq<AioCb<T>>,
    completions: Seq<Completion<T>>,
) -> bool {
    let reaped = reaped_completions(in_flight0, events, events.len());
    let left = reaped_in_flight(in_flight0, events, events.len());
    &&& reaped.len() <= completions.len()
    &&& completions.take(reaped.len() as int) == reaped
    &&& drain_ran(
        pending0,
        left,
        capacity,
        pending1,
        in_flight1,
        completions.skip(reaped.len() as int),
    )
    &&& drained(
        pending0,
        left,
        capacity,
        pending1,
        in_flight1,
        completions.skip(reaped.len() as int),
    )
}

/// Whether every request is accounted for: those that waited or were in
/// flight before are exactly those that wait, are in flight or have come back
/// now, each as often as before.
pub open spec fn conserved<T>(
    pending0: Seq<AioCb<T>>,
    in_flight0: Seq<AioCb<T>>,
    pending1: Seq<AioCb<T>>,
    in_flight1: Seq<AioCb<T>>,
    done: Seq<Completion<T>>,
) -> bool {
    pending0.to_multiset().add(in_flight0.to_multiset()) == pending1.to_multiset().add(
        in_flight1.to_multiset(),
    ).add(completion_cbs(done).to_multiset())
}

/// Among the requests from place `from` on, of which the one at place `at`
/// has the identifier, there is a first with it.
proof fn lemma_first_from<T>(in_flight: Seq<AioCb<T>>, id: u64, from: int, at: int)
    requires
        0 <= from <= at < in_flight.len(),
        in_flight[at].user_data == id,
        forall|j: int| 0 <= j < from ==> (#[trigger] in_flight[j]).user_data != id,
    ensures
        first_with_id(in_flight, id, place_of_id(in_flight, id)),
    decreases at - from,
{
    if in_flight[from].user_data == id {
        assert(first_with_id(in_flight, id, from));
    } else {
        lemma_first_from(in_flight, id, from + 1, at);
    }
}

/// A place that holds a request with the identifier is the first such place
/// if none before it holds one.
pub(crate) proof fn lemma_place_of_id<T>(in_flight: Seq<AioCb<T>>, id: u64, i: int)
    requires
        first_with_id(in_flight, id, i),
    ensures
        has_id(in_flight, id),
        place_of_id(in_flight, id) == i,
{
    let c = place_of_id(in_flight, id);
    assert(first_with_id(in_flight, id, c));
    if c < i {
        assert(in_flight[c].user_data != id);
    }
    if i < c {
        assert(in_flight[i].user_data != id);
    }
}

/// The waiting queue of a drain is the old queue without the requests that
/// left it, and the requests in flight are the old ones and those that came.
pub proof fn lemma_drained_conserves<T>(
    pending0: Seq<AioCb<T>>,
    in_flight0: Seq<AioCb<T>>,
    capacity: nat,
    pending1: Seq<AioCb<T>>,
    in_flight1: Seq<AioCb<T>>,
    failed: Seq<Completion<T>>,
)
    requires
        drained(pending0, in_flight0, capacity, pending1, in_flight1, failed),
    ensures
        conserved(pending0, in_flight0, pending1, in_flight1, failed),
{
    let left = pending0.skip(pending1.len() as int);
    let came = in_flight1.skip(in_flight0.len() as int);
    assert(pending0 =~= pending1 + left);
    assert(in_flight1 =~= in_flight0 + came);
    lemma_multiset_commutative(pending1, left);
    lemma_multiset_commutative(in_flight0, came);
    assert(pending0.to_multiset().add(in_flight0.to_multiset()) =~= pending1.to_multiset().add(
        in_flight1.to_multiset(),
    ).add(completion_cbs(failed).to_multiset()));
}

/// Dealing with events takes each finished request out of flight and hands
/// it back once: the requests that were in flight are those that still are
/// and those that came back.
pub proof fn lemma_reaped_conserves<T>(in_flight: Seq<AioCb<T>>, events: Seq<AioEvent>, k: nat)
    requires
        k <= events.len(),
    ensures
        in_flight.to_multiset() == reaped_in_flight(in_flight, events, k).to_multiset().add(
            completion_cbs(reaped_completions(in_flight, events, k)).to_multiset(),
        ),
        reaped_in_flight(in_flight, events, k).len() <= in_flight.len(),
        forall|i: int|
            0 <= i < reaped_completions(in_flight, events, k).len() ==> {
                let c = #[trigger] reaped_completions(in_flight, events, k)[i];
                c.res == -1 || c.res == c.cb.nbytes
            },
    decreases k,
{
    broadcast use vstd::seq_lib::group_to_multiset_ensures;

    if k == 0 {
        assert(completion_cbs(Seq::<Completion<T>>::empty()) =~= Seq::<AioCb<T>>::empty());
        assert(in_flight.to_multiset() =~= in_flight.to_multiset().add(
            Seq::<AioCb<T>>::empty().to_multiset(),
        ));
    } else {
        let j = (k - 1) as nat;
        lemma_reaped_conserves(in_flight, events, j);
        let before = reaped_in_flight(in_flight, events, j);
        let done = reaped_completions(in_flight, events, j);
        let evt = events[j as int];
        if has_id(before, evt.user_data) {
            let at = place_of_id(before, evt.user_data);
            let some = choose|i: int|
                0 <= i < before.len() && (#[trigger] before[i]).user_data == evt.user_data;
            lemma_first_from(before, evt.user_data, 0, some);
            let cb = before[at];
            let c = Completion { cb, res: completion_value(cb, evt) };
            assert(completion_cbs(done.push(c)) =~= completion_cbs(done).push(cb));
            assert(before.remove(at).to_multiset() =~= before.to_multiset().remove(cb));
            assert(before.to_multiset().count(cb) > 0) by {
                assert(before.contains(cb));
            }
            assert(in_flight.to_multiset() =~= before.remove(at).to_multiset().add(
                completion_cbs(done.push(c)).to_multiset(),
            ));
        }
    }
}

/// How many of `staged` requests the backend has taken when it answers
/// `answer`: as many as it says, all of them if it says more, and none if it
/// failed.
pub open spec fn taken_of(staged: nat, answer: Result<usize, AioError>) -> nat {
    match answer {
        Ok(n) => if n < staged {
            n as nat
        } else {
            staged
        },
        Err(_) => 0,
    }
}

/// The requests in flight after a round: those that the backend has not
/// taken, the last of the staged ones, are no longer among them.
pub open spec fn settled_in_flight<T>(
    in_flight: Seq<AioCb<T>>,
    staged: nat,
    answer: Result<usize, AioError>,
) -> Seq<AioCb<T>> {
    in_flight.take(in_flight.len() - (staged - taken_of(staged, answer)))
}

/// The pending queue after the requests that the backend has not taken
/// returned to its tail, the one staged last first.
pub open spec fn returned_pending<T>(
    pending: Seq<AioCb<T>>,
    in_flight: Seq<AioCb<T>>,
    staged: nat,
    answer: Result<usize, AioError>,
) -> Seq<AioCb<T>> {
    pending + in_flight.skip(in_flight.len() - (staged - taken_of(staged, answer))).reverse()
}

/// The pending queue after a round: with the returned requests, and without
/// the request at its tail if the backend failed.
pub open spec fn settled_pending<T>(
    pending: Seq<AioCb<T>>,
    in_flight: Seq<AioCb<T>>,
    staged: nat,
    answer: Result<usize, AioError>,
) -> Seq<AioCb<T>> {
    let back = returned_pending(pending, in_flight, staged, answer);
    if answer is Err && back.len() > 0 {
        back.drop_last()
    } else {
        back
    }
}

/// The request that a round fails: the one at the tail of the pending queue,
/// if the backend failed.
pub open spec fn settled_failure<T>(
    pending: Seq<AioCb<T>>,
    in_flight: Seq<AioCb<T>>,
    staged: nat,
    answer: Result<usize, AioError>,
) -> Option<Completion<T>> {
    let back = returned_pending(pending, in_flight, staged, answer);
    if answer is Err && back.len() > 0 {
        Some(Completion { cb: back.last(), res: -1i64 })
    } else {
        None
    }
}

/// Whether a drain has a round to make: a request waits, and one more may go
/// into flight.
pub open spec fn goes_on(pending: nat, in_flight: nat, capacity: nat) -> bool {
    pending > 0 && in_flight < capacity
}

/// Whether the backend took nothing without failing, which ends a drain.
pub open spec fn stalls(answer: Result<usize, AioError>) -> bool {
    answer matches Ok(n) && n == 0
}

/// How many requests the backend takes in a round in which it answers
/// `answer`.
pub open spec fn round_taken(
    pending: nat,
    in_flight: nat,
    capacity: nat,
    answer: Result<usize, AioError>,
) -> nat {
    taken_of(staged_count(pending, in_flight, capacity), answer)
}

/// The requests in flight after a round: those that were in flight, and
/// behind them those that the backend has taken from the tail of the pending
/// queue, the one at the tail first.
pub open spec fn round_in_flight<T>(
    pending: Seq<AioCb<T>>,
    in_flight: Seq<AioCb<T>>,
    capacity: nat,
    answer: Result<usize, AioError>,
) -> Seq<AioCb<T>> {
    in_flight + pending.skip(
        pending.len() - round_taken(pending.len(), in_flight.len(), capacity, answer),
    ).reverse()
}

/// The pending queue without the requests that the backend has taken in a
/// round: the others wait in their old order.
pub open spec fn round_kept<T>(
    pending: Seq<AioCb<T>>,
    in_flight: Seq<AioCb<T>>,
    capacity: nat,
    answer: Result<usize, AioError>,
) -> Seq<AioCb<T>> {
    pending.take(pending.len() - round_taken(pending.len(), in_flight.len(), capacity, answer))
}

/// The pending queue after a round: without the requests that the backend
/// has taken, and, if the backend failed, without the request at the tail.
pub open spec fn round_pending<T>(
    pending: Seq<AioCb<T>>,
    in_flight: Seq<AioCb<T>>,
    capacity: nat,
    answer: Result<usize, AioError>,
) -> Seq<AioCb<T>> {
    let kept = round_kept(pending, in_flight, capacity, answer);
    if answer is Err && kept.len() > 0 {
        kept.drop_last()
    } else {
        kept
    }
}

/// The request that a round fails: the one at the tail of the pending queue,
/// if the backend failed.
pub open spec fn round_failure<T>(
    pending: Seq<AioCb<T>>,
    in_flight: Seq<AioCb<T>>,
    capacity: nat,
    answer: Result<usize, AioError>,
) -> Option<Completion<T>> {
    let kept = round_kept(pending, in_flight, capacity, answer);
    if answer is Err && kept.len() > 0 {
        Some(Completion { cb: kept.last(), res: -1i64 })
    } else {
        None
    }
}

/// The pending queue, the requests in flight and the failed requests after
/// the first `j` rounds of a drain in which the backend gives the answers
/// `answers`, one in each round.
pub open spec fn drain_after<T>(
    pending: Seq<AioCb<T>>,
    in_flight: Seq<AioCb<T>>,
    capacity: nat,
    answers: Seq<Result<usize, AioError>>,
    j: nat,
) -> (Seq<AioCb<T>>, Seq<AioCb<T>>, Seq<Completion<T>>)
    decreases j,
{
    if j == 0 {
        (pending, in_flight, Seq::empty())
    } else {
        let before = drain_after(pending, in_flight, capacity, answers, (j - 1) as nat);
        let answer = answers[j - 1];
        (
            round_pending(before.0, before.1, capacity, answer),
            round_in_flight(before.0, before.1, capacity, answer),
            match round_failure(before.0, before.1, capacity, answer) {
                Some(lost) => before.2.push(lost),
                None => before.2,
            },
        )
    }
}

/// Whether a drain has a round to make after its first `j` rounds.
pub open spec fn round_begins<T>(
    pending: Seq<AioCb<T>>,
    in_flight: Seq<AioCb<T>>,
    capacity: nat,
    answers: Seq<Result<usize, AioError>>,
    j: nat,
) -> bool {
    let before = drain_after(pending, in_flight, capacity, answers, j);
    goes_on(before.0.len(), before.1.len(), capacity)
}

/// Whether a drain in which the backend gives the answers `answers` takes an
/// engine from the queue `pending0` and the requests `in_flight0` in flight
/// to `pending1` and `in_flight1`, failing the requests `failed`. The drain
/// makes one round for each answer, each of them with a request waiting and
/// room for it; no round but the last stalls; and after the last round the
/// backend has stalled, or nothing waits, or no more may go into flight.
pub open spec fn drain_run<T>(
    pending0: Seq<AioCb<T>>,
    in_flight0: Seq<AioCb<T>>,
    capacity: nat,
    answers: Seq<Result<usize, AioError>>,
    pending1: Seq<AioCb<T>>,
    in_flight1: Seq<AioCb<T>>,
    failed: Seq<Completion<T>>,
) -> bool {
    let end = drain_after(pending0, in_flight0, capacity, answers, answers.len());
    &&& pending1 == end.0
    &&& in_flight1 == end.1
    &&& failed == end.2
    &&& forall|j: nat|
        j < answers.len() ==> #[trigger] round_begins(pending0, in_flight0, capacity, answers, j)
    &&& forall|j: int| 0 <= j < answers.len() - 1 ==> !stalls(#[trigger] answers[j])
    &&& (answers.len() > 0 && stalls(answers.last())) || !goes_on(
        pending1.len(),
        in_flight1.len(),
        capacity,
    )
}

/// Whether a drain takes an engine from the one state to the other, whatever
/// the backend answers in its rounds.
pub open spec fn drain_ran<T>(
    pending0: Seq<AioCb<T>>,
    in_flight0: Seq<AioCb<T>>,
    capacity: nat,
    pending1: Seq<AioCb<T>>,
    in_flight1: Seq<AioCb<T>>,
    failed: Seq<Completion<T>>,
) -> bool {
    exists|answers: Seq<Result<usize, AioError>>|
        drain_run(pending0, in_flight0, capacity, answers, pending1, in_flight1, failed)
}

/// How many requests one round of a drain moves from the pending queue into
/// flight: all that wait, or as many as may still go into flight.
pub open spec fn staged_count(pending: nat, in_flight: nat, capacity: nat) -> nat {
    if pending <= capacity - in_flight {
        pending
    } else {
        (capacity - in_flight) as nat
    }
}

/// The requests of a sequence of completions.
pub open spec fn completion_cbs<T>(done: Seq<Completion<T>>) -> Seq<AioCb<T>> {
    Seq::new(done.len(), |i: int| done[i].cb)
}

/// What a drain does to an engine with the queue `pending0` and the requests
/// `in_flight0` in flight. Requests leave the pending queue only at its tail:
/// what is left is the old queue cut short. The requests in flight stay, and
/// never exceed the capacity. Every request that left the queue is now in
/// flight, behind those that were before, or has failed and comes back with
/// -1: none is lost and none comes twice.
pub open spec fn drained<T>(
    pending0: Seq<AioCb<T>>,
    in_flight0: Seq<AioCb<T>>,
    capacity: nat,
    pending1: Seq<AioCb<T>>,
    in_flight1: Seq<AioCb<T>>,
    failed: Seq<Completion<T>>,
) -> bool {
    &&& pending1.len() <= pending0.len()
    &&& pending1 == pending0.take(pending1.len() as int)
    &&& in_flight0.len() <= in_flight1.len() <= capacity
    &&& in_flight1.take(in_flight0.len() as int) == in_flight0
    &&& forall|i: int| 0 <= i < failed.len() ==> (#[trigger] failed[i]).res == -1
    &&& pending0.skip(pending1.len() as int).to_multiset() == in_flight1.skip(
        in_flight0.len() as int,
    ).to_multiset().add(completion_cbs(failed).to_multiset())
}

proof fn lemma_drained_start<T>(pending: Seq<AioCb<T>>, in_flight: Seq<AioCb<T>>, capacity: nat)
    requires
        in_flight.len() <= capacity,
    ensures
        drained(pending, in_flight, capacity, pending, in_flight, Seq::<Completion<T>>::empty()),
{
    assert(pending.take(pending.len() as int) =~= pending);
    assert(in_flight.take(in_flight.len() as int) =~= in_flight);
    assert(pending.skip(pending.len() as int) =~= Seq::<AioCb<T>>::empty());
    assert(in_flight.skip(in_flight.len() as int) =~= Seq::<AioCb<T>>::empty());
    assert(completion_cbs(Seq::<Completion<T>>::empty()) =~= Seq::<AioCb<T>>::empty());
    assert(Seq::<AioCb<T>>::empty().to_multiset() =~= Multiset::<AioCb<T>>::empty()) by {
        broadcast use vstd::seq_lib::group_to_multiset_ensures;

    }
    assert(Multiset::<AioCb<T>>::empty().add(Multiset::<AioCb<T>>::empty())
        =~= Multiset::<AioCb<T>>::empty());
}

/// A round of a drain keeps the order of the requests. When the requests that
/// may go into flight are staged and the backend then takes the first few of
/// them, then in the end just those have gone into flight, the one at the
/// tail of the queue first; the queue is the old queue without them, and the
/// requests that were in flight before are in flight as before.
pub proof fn lemma_round<T>(
    pending: Seq<AioCb<T>>,
    in_flight: Seq<AioCb<T>>,
    capacity: nat,
    answer: Result<usize, AioError>,
)
    requires
        in_flight.len() <= capacity,
    ensures
        ({
            let k = staged_count(pending.len(), in_flight.len(), capacity);
            let waiting = pending.take(pending.len() - k);
            let staged = in_flight + pending.skip(pending.len() - k).reverse();
            &&& settled_in_flight(staged, k, answer) == round_in_flight(
                pending,
                in_flight,
                capacity,
                answer,
            )
            &&& returned_pending(waiting, staged, k, answer) == round_kept(
                pending,
                in_flight,
                capacity,
                answer,
            )
            &&& settled_pending(waiting, staged, k, answer) == round_pending(
                pending,
                in_flight,
                capacity,
                answer,
            )
            &&& settled_failure(waiting, staged, k, answer) == round_failure(
                pending,
                in_flight,
                capacity,
                answer,
            )
        }),
{
    let k = staged_count(pending.len(), in_flight.len(), capacity);
    let taken = taken_of(k, answer);
    let waiting = pending.take(pending.len() - k);
    let staged = in_flight + pending.skip(pending.len() - k).reverse();
    let back = (k - taken) as nat;
    assert(staged.take(staged.len() - back) =~= in_flight + pending.skip(
        pending.len() - taken,
    ).reverse());
    assert(waiting + staged.skip(staged.len() - back).reverse() =~= pending.take(
        pending.len() - taken,
    ));
}

/// The first rounds of a drain do not depend on the answers that follow.
pub(crate) proof fn lemma_drain_prefix<T>(
    pending: Seq<AioCb<T>>,
    in_flight: Seq<AioCb<T>>,
    capacity: nat,
    answers: Seq<Result<usize, AioError>>,
    next: Result<usize, AioError>,
    j: nat,
)
    requires
        j <= answers.len(),
    ensures
        drain_after(pending, in_flight, capacity, answers.push(next), j) == drain_after(
            pending,
            in_flight,
            capacity,
            answers,
            j,
        ),
    decreases j,
{
    if j > 0 {
        lemma_drain_prefix(pending, in_flight, capacity, answers, next, (j - 1) as nat);
        assert(answers.push(next)[j - 1] == answers[j - 1]);
    }
}

/// Whatever the backend answers, a drain loses no request and keeps the order
/// of those that wait: after any number of rounds the pending queue is the
/// old queue cut short, the requests that were in flight still are, never
/// more are in flight than may be, and every request that left the queue is
/// in flight or has failed with -1.
pub proof fn lemma_drain_drained<T>(
    pending: Seq<AioCb<T>>,
    in_flight: Seq<AioCb<T>>,
    capacity: nat,
    answers: Seq<Result<usize, AioError>>,
    j: nat,
)
    requires
        in_flight.len() <= capacity,
        j <= answers.len(),
    ensures
        ({
            let now = drain_after(pending, in_flight, capacity, answers, j);
            drained(pending, in_flight, capacity, now.0, now.1, now.2)
        }),
    decreases j,
{
    if j == 0 {
        lemma_drained_start(pending, in_flight, capacity);
    } else {
        lemma_drain_drained(pending, in_flight, capacity, answers, (j - 1) as nat);
        let before = drain_after(pending, in_flight, capacity, answers, (j - 1) as nat);
        let answer = answers[j - 1];
        let taken = round_taken(before.0.len(), before.1.len(), capacity, answer);
        lemma_drained_accept(pending, in_flight, capacity, before.0, before.1, before.2, taken);
        let kept = round_kept(before.0, before.1, capacity, answer);
        if answer is Err && kept.len() > 0 {
            lemma_drained_fail(
                pending,
                in_flight,
                capacity,
                kept,
                round_in_flight(before.0, before.1, capacity, answer),
                before.2,
            );
        }
    }
}

/// A round in which the backend takes `taken` requests keeps a drain a drain.
proof fn lemma_drained_accept<T>(
    pending0: Seq<AioCb<T>>,
    in_flight0: Seq<AioCb<T>>,
    capacity: nat,
    queue: Seq<AioCb<T>>,
    flying: Seq<AioCb<T>>,
    failed: Seq<Completion<T>>,
    taken: nat,
)
    requires
        drained(pending0, in_flight0, capacity, queue, flying, failed),
        taken <= queue.len(),
        flying.len() + taken <= capacity,
    ensures
        drained(
            pending0,
            in_flight0,
            capacity,
            queue.take(queue.len() - taken),
            flying + queue.skip(queue.len() - taken).reverse(),
            failed,
        ),
{
    let rest = queue.take(queue.len() - taken);
    let gone = queue.skip(queue.len() - taken);
    let more = flying + gone.reverse();
    assert(rest =~= pending0.take(rest.len() as int));
    assert(more.take(in_flight0.len() as int) =~= flying.take(in_flight0.len() as int));
    assert(pending0.skip(rest.len() as int) =~= gone + pending0.skip(queue.len() as int));
    assert(more.skip(in_flight0.len() as int) =~= flying.skip(in_flight0.len() as int)
        + gone.reverse());
    lemma_multiset_commutative(gone, pending0.skip(queue.len() as int));
    lemma_multiset_commutative(flying.skip(in_flight0.len() as int), gone.reverse());
    gone.lemma_reverse_to_multiset();
    assert(pending0.skip(rest.len() as int).to_multiset() =~= more.skip(
        in_flight0.len() as int,
    ).to_multiset().add(completion_cbs(failed).to_multiset()));
}

/// Failing the request at the tail of the queue keeps a drain a drain.
proof fn lemma_drained_fail<T>(
    pending0: Seq<AioCb<T>>,
    in_flight0: Seq<AioCb<T>>,
    capacity: nat,
    queue: Seq<AioCb<T>>,
    flying: Seq<AioCb<T>>,
    failed: Seq<Completion<T>>,
)
    requires
        drained(pending0, in_flight0, capacity, queue, flying, failed),
        queue.len() > 0,
    ensures
        drained(
            pending0,
            in_flight0,
            capacity,
            queue.drop_last(),
            flying,
            failed.push(Completion { cb: queue.last(), res: -1i64 }),
        ),
{
    broadcast use vstd::seq_lib::group_to_multiset_ensures;

    let rest = queue.drop_last();
    let lost = Completion { cb: queue.last(), res: -1i64 };
    assert(rest =~= pending0.take(rest.len() as int));
    assert(pending0.skip(rest.len() as int) =~= seq![queue.last()] + pending0.skip(
        queue.len() as int,
    ));
    lemma_multiset_commutative(seq![queue.last()], pending0.skip(queue.len() as int));
    assert(seq![queue.last()] =~= Seq::<AioCb<T>>::empty().push(queue.last()));
    assert(completion_cbs(failed.push(lost)) =~= completion_cbs(failed).push(queue.last()));
    assert(pending0.skip(rest.len() as int).to_multiset() =~= flying.skip(
        in_flight0.len() as int,
    ).to_multiset().add(completion_cbs(failed.push(lost)).to_multiset()));
}

} // verus!
