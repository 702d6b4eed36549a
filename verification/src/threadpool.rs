//! The worker pool's rules: what a worker does with a message, how jobs are
//! handed in, and how the pool is wound down.
//!
//! The pool owns the sending half of one priority channel. Its workers all
//! take their messages from the receiving half, which they share as an
//! [`Inbox`]; each is a thread that calls [`Worker::serve`] for as long as it
//! runs. Starting and joining those threads is left to the program around the
//! library.

use crate::priority_async_channel::async_channel;
use crate::priority_async_channel::items_sent;
use crate::priority_async_channel::law_dequeue_order;
use crate::priority_async_channel::law_normal_sends_keep_order;
use crate::priority_async_channel::law_sends_in_two_runs;
use crate::priority_async_channel::law_tiers_hold_every_item;
use crate::priority_async_channel::normal_earliest_first;
use crate::priority_async_channel::queue_after_send;
use crate::priority_async_channel::queue_after_sends;
use crate::priority_async_channel::urgent_latest_first;
use crate::priority_async_channel::ChannelError;
use crate::priority_async_channel::Receiver;
use crate::priority_async_channel::Sender;
use crate::priority_async_channel::Shared;
use crate::sync::guarded;
use crate::sync::lock;
use crate::sync::share;
use std::sync::Arc;
use std::sync::Mutex;
use vstd::prelude::*;

verus! {

/// What travels through the pool's channel.
pub enum Message<J> {
    /// The worker that receives this one stops for good.
    ByeBye,
    /// A job for the worker that receives it.
    NewJob(J),
}

/// Why a pool could not be set up.
#[derive(Clone, Copy, Debug, PartialEq, Eq, Structural)]
pub enum PoolError {
    /// A pool needs at least one worker.
    InvalidPoolConfig,
}

impl PoolError {
    /// The text of the error, as spec values.
    pub open spec fn text(self) -> Seq<char> {
        "max_workers must be greater than zero!"@
    }

    /// A short human-readable description of the error.
    pub fn message(&self) -> (s: String)
        ensures
            s@ == self.text(),
    {
        "max_workers must be greater than zero!".to_string()
    }
}

/// The two states of a worker. It starts running, and a stop is final.
#[derive(Clone, Copy, Debug, PartialEq, Eq, Structural)]
pub enum WorkerState {
    Running,
    Terminated,
}

/// The job that a message carries, if it carries one.
pub open spec fn job_of<J>(message: Message<J>) -> Option<J> {
    match message {
        Message::NewJob(job) => Some(job),
        Message::ByeBye => None,
    }
}

/// The state of a running worker after it received `message`.
pub open spec fn state_after<J>(message: Message<J>) -> WorkerState {
    match message {
        Message::NewJob(_) => WorkerState::Running,
        Message::ByeBye => WorkerState::Terminated,
    }
}

/// The receiving half of the pool's channel, as its workers share it: one
/// receiver behind a lock, so that one worker at a time waits for the next
/// message.
#[verifier::reject_recursive_types(J)]
pub struct Inbox<J> {
    receiver: Arc<Mutex<Receiver<Message<J>>>>,
    channel: Ghost<Shared<Message<J>>>,
}

impl<J> Inbox<J> {
    /// The state of the channel from which the inbox takes its messages.
    pub closed spec fn channel(&self) -> Shared<Message<J>> {
        self.channel@
    }

    /// Waits for the next message. Fails once the pool is gone and nothing is
    /// queued.
    pub fn next_message(&self) -> (res: Result<Message<J>, ChannelError>)
        ensures
            res is Err ==> res == Err::<Message<J>, ChannelError>(ChannelError::NoSender),
    {
        let mut guard = lock(&self.receiver);
        guarded(&mut guard).recv()
    }
}

impl<J> Clone for Inbox<J> {
    /// Another handle on the same receiver.
    fn clone(&self) -> (res: Self)
        ensures
            res == *self,
            res.channel() == self.channel(),
    {
        Inbox { receiver: share(&self.receiver), channel: self.channel }
    }
}

/// One worker of the pool: its number and whether it still runs.
pub struct Worker {
    id: usize,
    state: WorkerState,
}

impl Worker {
    /// The worker's number.
    pub closed spec fn number(&self) -> usize {
        self.id
    }

    /// The worker's state.
    pub closed spec fn state(&self) -> WorkerState {
        self.state
    }

    /// A running worker with the number `id`.
    pub fn new(id: usize) -> (worker: Worker)
        ensures
            worker.number() == id,
            worker.state() == WorkerState::Running,
    {
        Worker { id, state: WorkerState::Running }
    }

    /// The worker's number.
    pub fn id(&self) -> (id: usize)
        ensures
            id == self.number(),
    {
        self.id
    }

    /// Whether the worker still takes messages.
    pub fn is_running(&self) -> (running: bool)
        ensures
            running == (self.state() == WorkerState::Running),
    {
        match self.state {
            WorkerState::Running => true,
            WorkerState::Terminated => false,
        }
    }

    /// One round of a running worker: it waits for its next message and
    /// handles it. It hands out the job to run, if it got one. It has stopped
    /// exactly if it got a farewell; where no message could be had, it still
    /// runs.
    pub fn serve<J>(&mut self, inbox: &Inbox<J>) -> (res: Result<Option<J>, ChannelError>)
        requires
            old(self).state() == WorkerState::Running,
        ensures
            final(self).state() == match res {
                Ok(None) => WorkerState::Terminated,
                _ => WorkerState::Running,
            },
            res is Err ==> res == Err::<Option<J>, ChannelError>(ChannelError::NoSender),
            final(self).number() == old(self).number(),
    {
        match inbox.next_message() {
            Ok(message) => Ok(self.handle(message)),
            Err(e) => Err(e),
        }
    }

    /// What a running worker does with a message: it hands out the job to
    /// run and goes on, or it stops for good.
    pub fn handle<J>(&mut self, message: Message<J>) -> (job: Option<J>)
        requires
            old(self).state() == WorkerState::Running,
        ensures
            job == job_of(message),
            final(self).state() == state_after(message),
            final(self).number() == old(self).number(),
    {
        match message {
            Message::NewJob(job) => Some(job),
            Message::ByeBye => {
                self.state = WorkerState::Terminated;
                None
            },
        }
    }
}

/// The submitting side of a pool: how many workers it has, and the sender
/// through which they are reached.
#[verifier::reject_recursive_types(J)]
pub struct Pool<J> {
    max_workers: usize,
    sender: Sender<Message<J>>,
}

impl<J> Pool<J> {
    /// The number of workers that the pool was set up for.
    pub closed spec fn workers(&self) -> usize {
        self.max_workers
    }

    /// The state of the channel through which the pool reaches its workers.
    pub closed spec fn channel(&self) -> Shared<Message<J>> {
        self.sender.channel()
    }

    /// The messages that the pool had sent and its channel had accepted so
    /// far: each with its tier, the earliest first.
    pub closed spec fn accepted(&self) -> Seq<(Message<J>, bool)> {
        self.sender.accepted()
    }

    /// Sets up a pool for `max_workers` workers, which must be at least one,
    /// and the inbox from which all of them take their messages: the
    /// receiving half of the pool's own channel. The new pool has sent
    /// nothing yet.
    pub fn new(max_workers: usize) -> (res: Result<(Pool<J>, Inbox<J>), PoolError>)
        ensures
            max_workers == 0 <==> res matches Err(PoolError::InvalidPoolConfig),
            max_workers > 0 <==> res is Ok,
            res matches Ok(made) ==> {
                &&& made.0.workers() == max_workers
                &&& made.0.channel() == made.1.channel()
                &&& made.0.accepted() == Seq::<(Message<J>, bool)>::empty()
            },
    {
        if max_workers == 0 {
            return Err(PoolError::InvalidPoolConfig);
        }
        let (sender, receiver) = async_channel();
        let ghost channel = receiver.channel();
        let inbox = Inbox { receiver: Arc::new(Mutex::new(receiver)), channel: Ghost(channel) };
        Ok((Pool { max_workers, sender }, inbox))
    }

    /// The number of workers that the pool was set up for.
    pub fn max_workers(&self) -> (n: usize)
        ensures
            n == self.workers(),
    {
        self.max_workers
    }

    /// Hands `f` to the workers, ahead of everything queued if
    /// `high_priority` and behind it otherwise, without waiting for it to
    /// run. Fails if no worker is left to take it.
    ///
    /// What is sent is `NewJob(f)`, at the tier that was asked for; a
    /// refused job is not sent at all.
    pub fn execute(&mut self, f: J, high_priority: bool) -> (res: Result<(), ChannelError>)
        ensures
            res is Err ==> res == Err::<(), ChannelError>(ChannelError::NoReceiver),
            final(self).accepted() == match res {
                Ok(_) => old(self).accepted().push((Message::NewJob(f), high_priority)),
                Err(_) => old(self).accepted(),
            },
            final(self).workers() == old(self).workers(),
            final(self).channel() == old(self).channel(),
    {
        self.sender.send(Message::NewJob(f), high_priority)
    }

    /// Winds the pool down: queues one `ByeBye` for each worker, behind
    /// everything that is queued already. Stops at the first that is refused.
    ///
    /// Where it succeeds, it has sent exactly as many farewells as the pool
    /// has workers, each at normal priority, and nothing else. Where it
    /// fails, it has sent fewer, and the one that was refused not at all.
    pub fn shutdown(&mut self) -> (res: Result<(), ChannelError>)
        ensures
            res is Err ==> res == Err::<(), ChannelError>(ChannelError::NoReceiver),
            res is Ok ==> final(self).accepted() == old(self).accepted() + farewells::<J>(
                old(self).workers() as nat,
            ),
            res is Err ==> exists|sent: nat|
                sent < old(self).workers() && final(self).accepted() == old(self).accepted()
                    + #[trigger] farewells::<J>(sent),
            final(self).workers() == old(self).workers(),
            final(self).channel() == old(self).channel(),
    {
        let mut sent: usize = 0;
        while sent < self.max_workers
            invariant
                sent <= self.max_workers,
                self.accepted() == old(self).accepted() + farewells::<J>(sent as nat),
                self.workers() == old(self).workers(),
                self.channel() == old(self).channel(),
            decreases self.max_workers - sent,
        {
            match self.sender.send(Message::ByeBye, false) {
                Err(e) => {
                    return Err(e);
                },
                Ok(_) => {},
            }
            sent += 1;
        }
        Ok(())
    }
}

// ---------------------------------------------------------------------------
// Laws of the pool
// ---------------------------------------------------------------------------

/// A run of `count` farewells, each sent at normal priority.
pub open spec fn farewells<J>(count: nat) -> Seq<(Message<J>, bool)> {
    Seq::new(count, |i: int| (Message::<J>::ByeBye, false))
}

/// The queue after `workers` farewells were sent at normal priority.
pub open spec fn queue_after_shutdown<J>(queue: Seq<Message<J>>, workers: nat) -> Seq<Message<J>>
    decreases workers,
{
    if workers == 0 {
        queue
    } else {
        queue_after_send(
            queue_after_shutdown(queue, (workers - 1) as nat),
            Message::ByeBye,
            false,
        )
    }
}

/// The jobs that `workers` running workers take from `queue`, in the order
/// in which they take them. The messages leave the queue from the front, and
/// each goes to one running worker, for as long as there is one.
pub open spec fn jobs_taken<J>(queue: Seq<Message<J>>, workers: nat) -> Seq<J>
    decreases queue.len(),
{
    if queue.len() == 0 || workers == 0 {
        Seq::empty()
    } else {
        match job_of(queue[0]) {
            Some(job) => seq![job] + jobs_taken(queue.skip(1), workers),
            None => jobs_taken(queue.skip(1), (workers - 1) as nat),
        }
    }
}

/// The number of workers, of `workers` running ones, that still run once
/// they have taken from `queue` all that they can.
pub open spec fn workers_left<J>(queue: Seq<Message<J>>, workers: nat) -> nat
    decreases queue.len(),
{
    if queue.len() == 0 || workers == 0 {
        workers
    } else {
        match state_after(queue[0]) {
            WorkerState::Running => workers_left(queue.skip(1), workers),
            WorkerState::Terminated => workers_left(queue.skip(1), (workers - 1) as nat),
        }
    }
}

/// The messages that stay in `queue` once `workers` running workers have
/// taken all that they can.
pub open spec fn messages_left<J>(queue: Seq<Message<J>>, workers: nat) -> Seq<Message<J>>
    decreases queue.len(),
{
    if queue.len() == 0 || workers == 0 {
        queue
    } else {
        match state_after(queue[0]) {
            WorkerState::Running => messages_left(queue.skip(1), workers),
            WorkerState::Terminated => messages_left(queue.skip(1), (workers - 1) as nat),
        }
    }
}

/// A queue of jobs, each wrapped as a message.
pub open spec fn as_messages<J>(jobs: Seq<J>) -> Seq<Message<J>> {
    jobs.map_values(|job: J| Message::NewJob(job))
}

/// A stop is final: no message turns a worker that received `ByeBye` back
/// into a running one, because only a running worker handles messages, and
/// a job leaves it running.
pub proof fn law_worker_states<J>(message: Message<J>)
    ensures
        state_after(message) == WorkerState::Terminated <==> message is ByeBye,
        state_after(message) == WorkerState::Running <==> job_of(message) is Some,
{
}

/// Winding down puts one farewell for each worker behind everything that
/// was queued before.
pub proof fn law_shutdown_queues_behind<J>(queue: Seq<Message<J>>, workers: nat)
    ensures
        queue_after_shutdown(queue, workers) == queue + Seq::new(
            workers,
            |i: int| Message::<J>::ByeBye,
        ),
    decreases workers,
{
    if workers > 0 {
        law_shutdown_queues_behind(queue, (workers - 1) as nat);
    }
}

/// No job is lost in winding down, and every worker stops: where jobs are
/// queued and a pool, which has at least one worker, is then wound down, its
/// workers take every one of those jobs, in the order of the queue, before
/// any of them stops; in the end none runs and the queue is empty.
pub proof fn law_shutdown_loses_no_job<J>(jobs: Seq<J>, workers: nat)
    requires
        workers > 0,
    ensures
        jobs_taken(queue_after_shutdown(as_messages(jobs), workers), workers) == jobs,
        workers_left(queue_after_shutdown(as_messages(jobs), workers), workers) == 0,
        messages_left(queue_after_shutdown(as_messages(jobs), workers), workers) == Seq::<
            Message<J>,
        >::empty(),
    decreases jobs.len(),
{
    let queue = queue_after_shutdown(as_messages(jobs), workers);
    law_shutdown_queues_behind(as_messages(jobs), workers);
    if jobs.len() == 0 {
        lemma_farewells_stop_all::<J>(workers);
    } else {
        let rest = jobs.skip(1);
        law_shutdown_loses_no_job(rest, workers);
        law_shutdown_queues_behind(as_messages(rest), workers);
        assert(queue.skip(1) =~= queue_after_shutdown(as_messages(rest), workers));
    }
}

/// `workers` farewells stop `workers` workers and leave nothing behind.
proof fn lemma_farewells_stop_all<J>(workers: nat)
    ensures
        jobs_taken(Seq::new(workers, |i: int| Message::<J>::ByeBye), workers) == Seq::<J>::empty(),
        workers_left(Seq::new(workers, |i: int| Message::<J>::ByeBye), workers) == 0,
        messages_left(Seq::new(workers, |i: int| Message::<J>::ByeBye), workers) == Seq::<
            Message<J>,
        >::empty(),
    decreases workers,
{
    let farewells = Seq::new(workers, |i: int| Message::<J>::ByeBye);
    if workers > 0 {
        lemma_farewells_stop_all::<J>((workers - 1) as nat);
        assert(farewells.skip(1) =~= Seq::new((workers - 1) as nat, |i: int| Message::<J>::ByeBye));
    }
}

/// The sends by which a pool hands out `jobs`, each job with its tier.
pub open spec fn job_sends<J>(jobs: Seq<(J, bool)>) -> Seq<(Message<J>, bool)> {
    jobs.map_values(|job: (J, bool)| (Message::NewJob(job.0), job.1))
}

/// The farewells that [`Pool::shutdown`] has sent when it succeeds do to the
/// queue what winding down is said to do.
pub proof fn law_farewells_wind_down<J>(queue: Seq<Message<J>>, workers: nat)
    ensures
        queue_after_sends(queue, farewells::<J>(workers)) == queue_after_shutdown(queue, workers),
    decreases workers,
{
    if workers > 0 {
        law_farewells_wind_down(queue, (workers - 1) as nat);
        assert(farewells::<J>(workers).drop_last() =~= farewells::<J>((workers - 1) as nat));
    }
}

/// The sends of jobs fall into the two tiers as the jobs do.
proof fn lemma_job_sends_by_tier<J>(jobs: Seq<(J, bool)>)
    ensures
        urgent_latest_first(job_sends(jobs)) == as_messages(urgent_latest_first(jobs)),
        normal_earliest_first(job_sends(jobs)) == as_messages(normal_earliest_first(jobs)),
    decreases jobs.len(),
{
    if jobs.len() > 0 {
        lemma_job_sends_by_tier(jobs.drop_last());
        assert(job_sends(jobs).drop_last() =~= job_sends(jobs.drop_last()));
    }
}

/// What becomes of the jobs of a pool. Where a new pool, which has at least
/// one worker, has sent `jobs`, each at its tier, and was then wound down,
/// and its workers took nothing in between, they take every job exactly
/// once before any of them stops: first the urgent ones, the latest first,
/// then the normal ones in the order in which they were handed in. In the
/// end no worker runs and the queue is empty. Where all jobs were normal,
/// they are taken in the order in which they were handed in.
pub proof fn law_pool_takes_every_job<J>(jobs: Seq<(J, bool)>, workers: nat)
    requires
        workers > 0,
    ensures
        ({
            let queue = queue_after_sends(
                Seq::<Message<J>>::empty(),
                job_sends(jobs) + farewells::<J>(workers),
            );
            &&& jobs_taken(queue, workers) == urgent_latest_first(jobs) + normal_earliest_first(
                jobs,
            )
            &&& jobs_taken(queue, workers).to_multiset() == items_sent(jobs).to_multiset()
            &&& workers_left(queue, workers) == 0
            &&& messages_left(queue, workers) == Seq::<Message<J>>::empty()
            &&& (forall|i: int| 0 <= i < jobs.len() ==> !(#[trigger] jobs[i]).1) ==> jobs_taken(
                queue,
                workers,
            ) == items_sent(jobs)
        }),
{
    let nothing = Seq::<Message<J>>::empty();
    let in_order = urgent_latest_first(jobs) + normal_earliest_first(jobs);
    law_sends_in_two_runs(nothing, job_sends(jobs), farewells::<J>(workers));
    law_dequeue_order(nothing, job_sends(jobs));
    lemma_job_sends_by_tier(jobs);
    assert(queue_after_sends(nothing, job_sends(jobs)) =~= as_messages(in_order));
    law_farewells_wind_down(as_messages(in_order), workers);
    law_shutdown_loses_no_job(in_order, workers);
    law_tiers_hold_every_item(jobs);
    if forall|i: int| 0 <= i < jobs.len() ==> !(#[trigger] jobs[i]).1 {
        law_normal_sends_keep_order(jobs);
    }
}

} // verus!
