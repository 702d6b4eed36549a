//! A blocking channel with many senders, many receivers and two priority tiers.
//!
//! The pending items live in one double-ended queue behind a mutex. A normal
//! item joins the back of the queue, an urgent one the front, and a receiver
//! always takes the front. The rules of the queue are verified functions on
//! plain values; the handles [`Sender`] and [`Receiver`] apply them under the
//! lock and sleep on a condition variable while there is nothing to take.
//!
//! What a handle observes depends on what other threads do between two calls,
//! so the handles' own contracts say only what holds on every interleaving.
//! The exact statements are those of [`accept_send`], [`enqueue`], [`must_wait`]
//! and [`dequeue`], which the handles call with the values they observed. A
//! [`Sender`] also keeps a log of the sends that it had accepted, each with
//! its tier: its contract says what it handed to the queue, and the laws at
//! the end of this file say what such a run of sends does to a queue.

use crate::sync::fetch_sub_in_drop;
use crate::sync::guarded;
use crate::sync::lock;
use crate::sync::share;
use crate::sync::wake_all;
use std::collections::VecDeque;
use std::sync::atomic::AtomicUsize;
use std::sync::atomic::Ordering;
use std::sync::Arc;
use std::sync::Condvar;
use std::sync::Mutex;
use std::sync::MutexGuard;
use vstd::prelude::*;

verus! {

/// Why a channel operation can never succeed again.
#[derive(Clone, Copy, Debug, PartialEq, Eq, Structural)]
pub enum ChannelError {
    /// No receiver is alive: the item was not queued.
    NoReceiver,
    /// The queue is empty and no sender is alive: nothing will ever arrive.
    NoSender,
}

impl ChannelError {
    /// The text of the error, as spec values.
    pub open spec fn text(self) -> Seq<char> {
        match self {
            ChannelError::NoReceiver => "no receiver"@,
            ChannelError::NoSender => "no sender!"@,
        }
    }

    /// A short human-readable description of the error.
    pub fn message(&self) -> (s: String)
        ensures
            s@ == self.text(),
    {
        match self {
            ChannelError::NoReceiver => "no receiver".to_string(),
            ChannelError::NoSender => "no sender!".to_string(),
        }
    }
}

// ---------------------------------------------------------------------------
// The rules of the queue, over plain values
// ---------------------------------------------------------------------------

/// Whether a send is accepted when `receivers` receivers are alive.
pub open spec fn send_outcome(receivers: nat) -> Result<(), ChannelError> {
    if receivers == 0 {
        Err(ChannelError::NoReceiver)
    } else {
        Ok(())
    }
}

/// The queue after an accepted send: an urgent item goes to the front, a
/// normal one to the back.
pub open spec fn queue_after_send<T>(queue: Seq<T>, item: T, urgent: bool) -> Seq<T> {
    if urgent {
        seq![item] + queue
    } else {
        queue.push(item)
    }
}

/// Whether a receiver that finds `pending` items has to sleep: there is
/// nothing to take, but a live sender may still bring something.
pub open spec fn recv_waits(pending: nat, senders: nat) -> bool {
    pending == 0 && senders > 0
}

/// What a receiver that does not have to sleep gets from `queue`.
pub open spec fn recv_outcome<T>(queue: Seq<T>) -> Result<T, ChannelError> {
    if queue.len() > 0 {
        Ok(queue[0])
    } else {
        Err(ChannelError::NoSender)
    }
}

/// The queue after a receive: without its front item, if it had one.
pub open spec fn queue_after_recv<T>(queue: Seq<T>) -> Seq<T> {
    if queue.len() > 0 {
        queue.subrange(1, queue.len() as int)
    } else {
        queue
    }
}

/// Decides whether a send may go ahead, from the number of live receivers.
pub fn accept_send(receivers: usize) -> (res: Result<(), ChannelError>)
    ensures
        res == send_outcome(receivers as nat),
{
    if receivers == 0 {
        Err(ChannelError::NoReceiver)
    } else {
        Ok(())
    }
}

/// Inserts `item` according to its tier and reports whether the queue was
/// empty before, which is when a sleeping receiver has to be woken.
pub fn enqueue<T>(queue: &mut VecDeque<T>, item: T, high_priority: bool) -> (was_empty: bool)
    ensures
        final(queue)@ == queue_after_send(old(queue)@, item, high_priority),
        was_empty == (old(queue)@.len() == 0),
{
    let was_empty = queue.len() == 0;
    if high_priority {
        queue.push_front(item);
    } else {
        queue.push_back(item);
    }
    was_empty
}

/// Decides whether a receiver has to sleep, from the number of pending items
/// and the number of live senders.
pub fn must_wait(pending: usize, senders: usize) -> (wait: bool)
    ensures
        wait == recv_waits(pending as nat, senders as nat),
{
    pending == 0 && senders != 0
}

/// Takes the front item. An empty queue gives `NoSender`: a receiver comes
/// here only once it no longer has to sleep.
pub fn dequeue<T>(queue: &mut VecDeque<T>) -> (res: Result<T, ChannelError>)
    ensures
        res == recv_outcome(old(queue)@),
        final(queue)@ == queue_after_recv(old(queue)@),
{
    match queue.pop_front() {
        Some(item) => Ok(item),
        None => Err(ChannelError::NoSender),
    }
}

// ---------------------------------------------------------------------------
// The handles
// ---------------------------------------------------------------------------

/// The capacity that a new queue is given.
const INIT_SIZE: usize = 32;

/// What the handles of one channel share: the queue behind its lock, the
/// condition variable that receivers sleep on, and the numbers of live
/// senders and receivers.
#[verifier::reject_recursive_types(T)]
pub struct Shared<T> {
    queue: Mutex<VecDeque<T>>,
    available: Condvar,
    senders_num: AtomicUsize,
    receivers_num: AtomicUsize,
}

/// The sending half of a channel. Cloning it makes another live sender.
///
/// A sender keeps a log of the sends that it had accepted, each an item with
/// its tier, in the order in which they were made. What a run of sends does
/// to a queue is [`queue_after_sends`] of that run.
#[verifier::reject_recursive_types(T)]
pub struct Sender<T> {
    shared: Arc<Shared<T>>,
    accepted: Ghost<Seq<(T, bool)>>,
}

/// The receiving half of a channel.
#[verifier::reject_recursive_types(T)]
pub struct Receiver<T> {
    shared: Arc<Shared<T>>,
}

impl<T> Default for Shared<T> {
    /// An empty queue with one live sender and one live receiver.
    fn default() -> Self {
        Shared {
            queue: Mutex::new(VecDeque::with_capacity(INIT_SIZE)),
            available: Condvar::new(),
            senders_num: AtomicUsize::new(1),
            receivers_num: AtomicUsize::new(1),
        }
    }
}

impl<T> Shared<T> {
    /// Whether a receiver that finds `queue` under the lock has to sleep: never before an item.
    fn blocked(&self, queue: &VecDeque<T>) -> (wait: bool)
        ensures
            wait ==> queue@.len() == 0,
    {
        must_wait(queue.len(), self.senders_num.load(Ordering::SeqCst))
    }
}

/// `Condvar::wait_while` on the queue's condition variable: gives the lock up
/// and sleeps for as long as [`Shared::blocked`] says so of the queue it finds
/// on waking. A poisoned lock is taken all the same. Nothing is claimed of the
/// queue that comes back: whether it is empty depends on the senders. The
/// standard library lets a condition variable panic that is used with more
/// than one mutex: `shared.available` is only ever used with `shared.queue`.
#[verifier::external_body]
fn wait_while_blocked<'a, T>(
    shared: &'a Shared<T>,
    guard: MutexGuard<'a, VecDeque<T>>,
) -> (ready: MutexGuard<'a, VecDeque<T>>) {
    match shared.available.wait_while(guard, |queue| shared.blocked(queue)) {
        Ok(guard) => guard,
        Err(poisoned) => poisoned.into_inner(),
    }
}

/// Places an accepted item in the queue and enters the send in the sender's
/// log, so that the log gains exactly what the queue gains.
fn place<T>(
    queue: &mut VecDeque<T>,
    log: &mut Ghost<Seq<(T, bool)>>,
    item: T,
    high_priority: bool,
) -> (was_empty: bool)
    ensures
        final(queue)@ == queue_after_send(old(queue)@, item, high_priority),
        final(log)@ == old(log)@.push((item, high_priority)),
        was_empty == (old(queue)@.len() == 0),
{
    let ghost sent = item;
    let was_empty = enqueue(queue, item, high_priority);
    *log = Ghost(log@.push((sent, high_priority)));
    was_empty
}

impl<T> Sender<T> {
    /// The state that this handle shares with the other handles of its channel.
    pub closed spec fn channel(&self) -> Shared<T> {
        *self.shared
    }

    /// The sends that this handle had accepted so far: each an item with
    /// its tier, the earliest first.
    pub closed spec fn accepted(&self) -> Seq<(T, bool)> {
        self.accepted@
    }

    /// Queues `t`, at the front if `high_priority` and at the back otherwise,
    /// and wakes one sleeping receiver if the queue was empty. Fails, without
    /// queueing, if no receiver is alive.
    ///
    /// The receivers are counted by [`Sender::get_receivers_num`] and the count
    /// is judged by [`accept_send`]; the item is placed by [`enqueue`]. An
    /// accepted send joins the handle's log with the tier at which it was
    /// placed; a refused one leaves no trace.
    pub fn send(&mut self, t: T, high_priority: bool) -> (res: Result<(), ChannelError>)
        ensures
            res is Err ==> res == Err::<(), ChannelError>(ChannelError::NoReceiver),
            final(self).accepted() == match res {
                Ok(_) => old(self).accepted().push((t, high_priority)),
                Err(_) => old(self).accepted(),
            },
            final(self).channel() == old(self).channel(),
    {
        match accept_send(self.get_receivers_num()) {
            Err(e) => Err(e),
            Ok(()) => {
                let was_empty = {
                    let mut guard = lock(&self.shared.queue);
                    place(guarded(&mut guard), &mut self.accepted, t, high_priority)
                };
                if was_empty {
                    self.shared.available.notify_one();
                }
                Ok(())
            },
        }
    }

    /// The number of live receivers at the moment of the call.
    pub fn get_receivers_num(&self) -> usize {
        self.shared.receivers_num.load(Ordering::SeqCst)
    }

    /// The number of pending items at the moment of the call.
    pub fn get_queued_items(&self) -> usize {
        let mut guard = lock(&self.shared.queue);
        guarded(&mut guard).len()
    }
}

impl<T> Receiver<T> {
    /// The state that this handle shares with the other handles of its channel.
    pub closed spec fn channel(&self) -> Shared<T> {
        *self.shared
    }

    /// Takes the front item, sleeping while the queue is empty and a sender is
    /// alive. Fails once the queue is empty and no sender is left.
    ///
    /// Whether to sleep is judged by [`must_wait`]; the item is taken by
    /// [`dequeue`].
    pub fn recv(&mut self) -> (res: Result<T, ChannelError>)
        ensures
            res is Err ==> res == Err::<T, ChannelError>(ChannelError::NoSender),
            final(self).channel() == old(self).channel(),
    {
        let guard = lock(&self.shared.queue);
        let mut guard = wait_while_blocked(&self.shared, guard);
        dequeue(guarded(&mut guard))
    }

    /// The number of live senders at the moment of the call.
    pub fn get_senders_num(&self) -> usize {
        self.shared.senders_num.load(Ordering::SeqCst)
    }

    /// The next item, or `None` once the channel has run dry for good.
    pub fn next(&mut self) -> (item: Option<T>)
        ensures
            final(self).channel() == old(self).channel(),
    {
        self.recv().ok()
    }
}

impl<T> Clone for Sender<T> {
    /// Another sender on the same channel, counted among the live ones. It
    /// has accepted nothing yet.
    fn clone(&self) -> (res: Self)
        ensures
            res.channel() == self.channel(),
            res.accepted() == Seq::<(T, bool)>::empty(),
    {
        self.shared.senders_num.fetch_add(1, Ordering::AcqRel);
        Sender { shared: share(&self.shared), accepted: Ghost(Seq::empty()) }
    }
}

impl<T> Drop for Sender<T> {
    /// Leaves the live senders. The last one to go wakes every sleeping
    /// receiver, so that each can see that nothing will arrive any more.
    fn drop(&mut self)
        opens_invariants none
        no_unwind
    {
        let previous = fetch_sub_in_drop(&self.shared.senders_num, 1, Ordering::AcqRel);
        if previous <= 1 {
            wake_all(&self.shared.available);
        }
    }
}

impl<T> Drop for Receiver<T> {
    /// Leaves the live receivers.
    fn drop(&mut self)
        opens_invariants none
        no_unwind
    {
        fetch_sub_in_drop(&self.shared.receivers_num, 1, Ordering::SeqCst);
    }
}

/// Opens a channel: an empty queue, one sender, which has accepted nothing
/// yet, and one receiver.
pub fn async_channel<T>() -> (ends: (Sender<T>, Receiver<T>))
    ensures
        ends.0.channel() == ends.1.channel(),
        ends.0.accepted() == Seq::<(T, bool)>::empty(),
{
    let shared = Arc::new(Shared::default());
    (Sender { shared: share(&shared), accepted: Ghost(Seq::empty()) }, Receiver { shared })
}

// ---------------------------------------------------------------------------
// Laws of the queue
// ---------------------------------------------------------------------------

/// The queue after a run of accepted sends, each an item with its urgency,
/// in the order in which they were made.
pub open spec fn queue_after_sends<T>(queue: Seq<T>, sends: Seq<(T, bool)>) -> Seq<T>
    decreases sends.len(),
{
    if sends.len() == 0 {
        queue
    } else {
        let last = sends.last();
        queue_after_send(queue_after_sends(queue, sends.drop_last()), last.0, last.1)
    }
}

/// The urgent items of a run of sends, the latest first.
pub open spec fn urgent_latest_first<T>(sends: Seq<(T, bool)>) -> Seq<T>
    decreases sends.len(),
{
    if sends.len() == 0 {
        Seq::empty()
    } else {
        let last = sends.last();
        if last.1 {
            seq![last.0] + urgent_latest_first(sends.drop_last())
        } else {
            urgent_latest_first(sends.drop_last())
        }
    }
}

/// The normal items of a run of sends, the earliest first.
pub open spec fn normal_earliest_first<T>(sends: Seq<(T, bool)>) -> Seq<T>
    decreases sends.len(),
{
    if sends.len() == 0 {
        Seq::empty()
    } else {
        let last = sends.last();
        if last.1 {
            normal_earliest_first(sends.drop_last())
        } else {
            normal_earliest_first(sends.drop_last()).push(last.0)
        }
    }
}

/// A send is refused exactly when no receiver is alive, and then with
/// `NoReceiver`.
pub proof fn law_send_needs_receiver(receivers: nat)
    ensures
        receivers == 0 <==> send_outcome(receivers) == Err::<(), ChannelError>(
            ChannelError::NoReceiver,
        ),
        receivers > 0 <==> send_outcome(receivers) is Ok,
{
}

/// A receiver that finds the queue empty while a sender is alive has to
/// sleep. Once an item is sent, of either tier, it no longer has to, whatever
/// became of the senders; it receives exactly that item and leaves the queue
/// empty again.
pub proof fn law_recv_gets_what_was_sent<T>(senders: nat, later_senders: nat, item: T, urgent: bool)
    requires
        senders > 0,
    ensures
        recv_waits(Seq::<T>::empty().len(), senders),
        !recv_waits(queue_after_send(Seq::<T>::empty(), item, urgent).len(), later_senders),
        recv_outcome(queue_after_send(Seq::<T>::empty(), item, urgent)) == Ok::<T, ChannelError>(
            item,
        ),
        queue_after_recv(queue_after_send(Seq::<T>::empty(), item, urgent)) == Seq::<T>::empty(),
{
}

/// A receiver sleeps only in front of an empty queue, and fails only once
/// the queue is empty and no sender is alive.
pub proof fn law_recv_fails_only_when_dry<T>(queue: Seq<T>, senders: nat)
    ensures
        !recv_waits(queue.len(), senders) && recv_outcome(queue) is Err <==> queue.len() == 0
            && senders == 0,
        recv_outcome(queue) is Err ==> recv_outcome(queue) == Err::<T, ChannelError>(
            ChannelError::NoSender,
        ),
{
}

/// Receives without a send in between take the items in the order of the
/// queue: the receive that follows `k` others gets the item at `k`.
pub proof fn law_recv_in_queue_order<T>(queue: Seq<T>, k: int)
    requires
        0 <= k < queue.len(),
    ensures
        recv_outcome(queue.skip(k)) == Ok::<T, ChannelError>(queue[k]),
        queue_after_recv(queue.skip(k)) == queue.skip(k + 1),
{
}

/// The order in which a run of sends is received, if nothing is received in
/// between: first the urgent items, the latest first; then what was queued
/// before; then the normal items, the earliest first.
pub proof fn law_dequeue_order<T>(queue: Seq<T>, sends: Seq<(T, bool)>)
    ensures
        queue_after_sends(queue, sends) == urgent_latest_first(sends) + queue
            + normal_earliest_first(sends),
    decreases sends.len(),
{
    if sends.len() > 0 {
        law_dequeue_order(queue, sends.drop_last());
    }
}

/// The items of a run of sends, in the order in which they were sent.
pub open spec fn items_sent<T>(sends: Seq<(T, bool)>) -> Seq<T> {
    sends.map_values(|send: (T, bool)| send.0)
}

/// Two runs of sends, one made after the other, are one run: the log of a
/// handle can be read send by send or as a whole.
pub proof fn law_sends_in_two_runs<T>(queue: Seq<T>, first: Seq<(T, bool)>, second: Seq<(T, bool)>)
    ensures
        queue_after_sends(queue, first + second) == queue_after_sends(
            queue_after_sends(queue, first),
            second,
        ),
    decreases second.len(),
{
    if second.len() > 0 {
        law_sends_in_two_runs(queue, first, second.drop_last());
        assert((first + second).drop_last() =~= first + second.drop_last());
    }
}

/// Every item of a run of sends is received exactly once: the two tiers
/// together hold the items that were sent, each as often as it was sent.
pub proof fn law_tiers_hold_every_item<T>(sends: Seq<(T, bool)>)
    ensures
        (urgent_latest_first(sends) + normal_earliest_first(sends)).to_multiset() == items_sent(
            sends,
        ).to_multiset(),
    decreases sends.len(),
{
    let urgent = urgent_latest_first(sends);
    let normal = normal_earliest_first(sends);
    if sends.len() == 0 {
        assert(urgent + normal =~= items_sent(sends));
    } else {
        let before = sends.drop_last();
        let last = sends.last();
        law_tiers_hold_every_item(before);
        let urgent_before = urgent_latest_first(before);
        let normal_before = normal_earliest_first(before);
        assert(items_sent(sends) =~= items_sent(before).push(last.0));
        vstd::seq_lib::to_multiset_build(items_sent(before), last.0);
        if last.1 {
            let rest = urgent_before + normal_before;
            assert(urgent + normal =~= seq![last.0] + rest);
            vstd::seq_lib::lemma_seq_union_to_multiset_commutative(seq![last.0], rest);
            assert(rest + seq![last.0] =~= rest.push(last.0));
            vstd::seq_lib::to_multiset_build(rest, last.0);
        } else {
            vstd::seq_lib::to_multiset_build(urgent_before + normal_before, last.0);
        }
    }
}

/// Normal sends alone are received in the order in which they were sent.
pub proof fn law_normal_sends_keep_order<T>(sends: Seq<(T, bool)>)
    requires
        forall|i: int| 0 <= i < sends.len() ==> !(#[trigger] sends[i]).1,
    ensures
        urgent_latest_first(sends) == Seq::<T>::empty(),
        normal_earliest_first(sends) == items_sent(sends),
    decreases sends.len(),
{
    if sends.len() > 0 {
        law_normal_sends_keep_order(sends.drop_last());
    }
}

} // verus!
