//! A fixed-size worker pool draining a shared queue of work items.
//!
//! The pool owns a bounded set of workers and the sending half of a shared
//! job queue. Items are submitted with [`ThreadPool::execute`], are handed to
//! workers in submission order, and each item is run by exactly one worker.
//! Shutting the pool down ([`ThreadPool::run_to_completion`]) closes the
//! sending half, drains every item that was already submitted, and leaves
//! every worker terminated.
//!
//! The type is a faithful state machine of that lifecycle: each worker
//! transition (take an item, finish it, fail on it, observe the closed and
//! drained queue) is one method, so a driver may interleave them in any
//! order, and the conservation and delivery guarantees below hold for every
//! interleaving. A runtime that spreads the workers over real execution
//! contexts performs exactly these transitions.

use vstd::multiset::Multiset;
use vstd::prelude::*;

verus! {

broadcast use
    vstd::multiset::group_multiset_axioms,
    vstd::seq_lib::group_to_multiset_ensures,
;

/// What a single worker is doing at one moment of its poll loop.
pub enum WorkerState<T> {
    /// Blocked on the shared queue, ready to take the next item.
    Waiting,
    /// Holding one item, in the middle of running it.
    Running(T),
    /// The poll loop has exited: the worker saw the queue closed and drained,
    /// or the item it was running failed and took the worker down.
    Terminated,
}

/// One worker: a numeric identity plus the state of its poll loop.
pub struct Worker<T> {
    pub id: usize,
    pub state: WorkerState<T>,
}

/// The items currently held by one worker: one if it is running, none
/// otherwise.
pub open spec fn state_items<T>(s: WorkerState<T>) -> Multiset<T> {
    match s {
        WorkerState::Running(t) => Multiset::singleton(t),
        _ => Multiset::empty(),
    }
}

/// All items currently held by the given workers.
pub open spec fn running_items<T>(ws: Seq<Worker<T>>) -> Multiset<T>
    decreases ws.len(),
{
    if ws.len() == 0 {
        Multiset::empty()
    } else {
        running_items(ws.drop_last()).add(state_items(ws.last().state))
    }
}

impl<T> Worker<T> {
    /// A fresh worker that has just started polling the queue.
    pub fn new(id: usize) -> (w: Worker<T>)
        ensures
            w.id == id,
            w.state is Waiting,
    {
        Worker { id, state: WorkerState::Waiting }
    }
}

/// A fixed collection of workers plus the sending half of the shared queue.
///
/// The ghost fields record the pool's history: everything ever submitted, in
/// order; everything handed to a worker, in hand-off order; and everything
/// consumed by a worker whose run failed. Together with the concrete queue
/// and completion record they satisfy the conservation law [`ThreadPool::wf`]:
/// no item is duplicated and none disappears.
pub struct ThreadPool<T> {
    /// The workers, in creation order; worker `i` has identity `i`.
    pub workers: Vec<Worker<T>>,
    /// Submitted items no worker has taken yet, oldest first.
    pub queue: Vec<T>,
    /// Whether the sending half is still open. It stays open for the pool's
    /// whole working life; shutdown closes it.
    pub sender_open: bool,
    /// Items whose run finished, in completion order.
    pub completed: Vec<T>,
    /// Every item ever submitted, in submission order.
    pub submitted: Ghost<Seq<T>>,
    /// Items handed to some worker, in hand-off order.
    pub delivered: Ghost<Seq<T>>,
    /// Items taken down by a failing run: delivered, never completed.
    pub lost: Ghost<Seq<T>>,
}

impl<T> ThreadPool<T> {
    /// The number of workers, fixed at construction.
    pub open spec fn size(&self) -> nat {
        self.workers@.len()
    }

    /// Worker `i` has not terminated.
    pub open spec fn is_live(&self, i: int) -> bool {
        !(self.workers@[i].state is Terminated)
    }

    /// Some worker is still polling or running.
    pub open spec fn has_live_worker(&self) -> bool {
        exists|i: int| 0 <= i < self.size() && self.is_live(i)
    }

    /// Every worker's poll loop has exited.
    pub open spec fn all_terminated(&self) -> bool {
        forall|i: int| 0 <= i < self.size() ==> !self.is_live(i)
    }

    /// Items submitted but not yet finished: queued or held by a worker.
    pub open spec fn outstanding(&self) -> Multiset<T> {
        self.queue@.to_multiset().add(running_items(self.workers@))
    }

    /// The pool's invariant.
    ///
    /// There is at least one worker; workers carry their creation index as
    /// identity; the submission history is exactly the hand-off history
    /// followed by the pending queue (items are handed out in submission
    /// order); and every item handed out is held by a worker, completed, or
    /// lost — each exactly once.
    pub open spec fn wf(&self) -> bool {
        &&& self.size() >= 1
        &&& forall|i: int| 0 <= i < self.size() ==> (#[trigger] self.workers@[i]).id == i
        &&& self.submitted@ == self.delivered@ + self.queue@
        &&& self.delivered@.to_multiset() =~= running_items(self.workers@).add(
            self.completed@.to_multiset(),
        ).add(self.lost@.to_multiset())
    }
}

/// Appending a worker adds exactly that worker's items.
proof fn lemma_running_items_push<T>(ws: Seq<Worker<T>>, w: Worker<T>)
    ensures
        running_items(ws.push(w)) =~= running_items(ws).add(state_items(w.state)),
{
    assert(ws.push(w).drop_last() =~= ws);
    assert(ws.push(w).last() == w);
}

/// Replacing worker `i` swaps that worker's items for the new worker's, and
/// touches nothing else.
proof fn lemma_running_items_update<T>(ws: Seq<Worker<T>>, i: int, w: Worker<T>)
    requires
        0 <= i < ws.len(),
    ensures
        running_items(ws.update(i, w)).add(state_items(ws[i].state)) =~= running_items(ws).add(
            state_items(w.state),
        ),
    decreases ws.len(),
{
    if i == ws.len() - 1 {
        assert(ws.update(i, w).drop_last() =~= ws.drop_last());
        assert(ws.update(i, w).last() == w);
        assert(ws.last() == ws[i]);
        assert(forall|x: T|
            running_items(ws.update(i, w)).add(state_items(ws[i].state)).count(x)
                == running_items(ws).add(state_items(w.state)).count(x));
    } else {
        assert(ws.update(i, w).drop_last() == ws.drop_last().update(i, w)) by {
            assert(ws.update(i, w).drop_last() =~= ws.drop_last().update(i, w));
        }
        assert(ws.update(i, w).last() == ws.last());
        assert(ws.drop_last()[i] == ws[i]);
        lemma_running_items_update(ws.drop_last(), i, w);
        // Reassociate: the induction hypothesis speaks of the shorter
        // sequence; the last worker's items commute past both sides.
        assert(running_items(ws.update(i, w)) == running_items(ws.drop_last().update(i, w)).add(
            state_items(ws.last().state),
        ));
        assert(running_items(ws) == running_items(ws.drop_last()).add(
            state_items(ws.last().state),
        ));
        assert(running_items(ws.drop_last().update(i, w)).add(state_items(ws.last().state)).add(
            state_items(ws[i].state),
        ) =~= running_items(ws.drop_last().update(i, w)).add(state_items(ws[i].state)).add(
            state_items(ws.last().state),
        ));
        assert(running_items(ws.drop_last()).add(state_items(w.state)).add(
            state_items(ws.last().state),
        ) =~= running_items(ws.drop_last()).add(state_items(ws.last().state)).add(
            state_items(w.state),
        ));
    }
}

impl<T> ThreadPool<T> {
    /// Creates a pool of `size` workers, each immediately polling the shared
    /// queue. A pool of zero workers is not a pool: callers must pass a
    /// positive size.
    pub fn new(size: usize) -> (pool: ThreadPool<T>)
        requires
            size >= 1,
        ensures
            pool.wf(),
            pool.size() == size,
            forall|i: int| 0 <= i < size ==> (#[trigger] pool.workers@[i]).state is Waiting,
            pool.sender_open,
            pool.queue@.len() == 0,
            pool.completed@.len() == 0,
            pool.submitted@.len() == 0,
            pool.delivered@.len() == 0,
            pool.lost@.len() == 0,
    {
        let mut workers: Vec<Worker<T>> = Vec::with_capacity(size);
        for id in 0..size
            invariant
                workers@.len() == id,
                forall|i: int| 0 <= i < id ==> (#[trigger] workers@[i]).id == i,
                forall|i: int| 0 <= i < id ==> (#[trigger] workers@[i]).state is Waiting,
                running_items(workers@) =~= Multiset::<T>::empty(),
        {
            let ghost prev = workers@;
            let w = Worker::new(id);
            proof {
                lemma_running_items_push(prev, w);
            }
            workers.push(w);
        }
        let pool = ThreadPool {
            workers,
            queue: Vec::new(),
            sender_open: true,
            completed: Vec::new(),
            submitted: Ghost(Seq::empty()),
            delivered: Ghost(Seq::empty()),
            lost: Ghost(Seq::empty()),
        };
        proof {
            assert(pool.submitted@ =~= pool.delivered@ + pool.queue@);
            assert(pool.delivered@.to_multiset() =~= Multiset::<T>::empty());
            assert(pool.completed@.to_multiset() =~= Multiset::<T>::empty());
            assert(pool.lost@.to_multiset() =~= Multiset::<T>::empty());
        }
        pool
    }

    /// The item a worker is holding; meaningful only in the running state.
    pub open spec fn running_item_of(s: WorkerState<T>) -> T
        recommends
            s is Running,
    {
        match s {
            WorkerState::Running(t) => t,
            _ => vstd::pervasive::arbitrary(),
        }
    }

    /// Submits one item of work. The item joins the back of the shared
    /// queue; it does not run yet, and the caller does not block.
    pub fn execute(&mut self, item: T)
        requires
            old(self).wf(),
            old(self).sender_open,
        ensures
            final(self).wf(),
            final(self).submitted@ == old(self).submitted@.push(item),
            final(self).queue@ == old(self).queue@.push(item),
            final(self).workers == old(self).workers,
            final(self).completed == old(self).completed,
            final(self).delivered == old(self).delivered,
            final(self).lost == old(self).lost,
            final(self).sender_open,
    {
        self.queue.push(item);
        proof {
            self.submitted@ = self.submitted@.push(item);
            assert(self.submitted@ =~= self.delivered@ + self.queue@);
        }
    }

    /// Worker `i`, idle, dequeues the oldest pending item and starts running
    /// it. This is the hand-off: from here on the item belongs to that worker
    /// alone.
    pub fn worker_receive(&mut self, i: usize)
        requires
            old(self).wf(),
            i < old(self).size(),
            old(self).workers@[i as int].state is Waiting,
            old(self).queue@.len() > 0,
        ensures
            final(self).wf(),
            final(self).workers@ =~= old(self).workers@.update(
                i as int,
                (Worker { id: i, state: WorkerState::Running(old(self).queue@[0]) }),
            ),
            final(self).queue@ == old(self).queue@.drop_first(),
            final(self).delivered@ == old(self).delivered@.push(old(self).queue@[0]),
            final(self).submitted == old(self).submitted,
            final(self).completed == old(self).completed,
            final(self).lost == old(self).lost,
            final(self).sender_open == old(self).sender_open,
    {
        let item = self.queue.remove(0);
        let ghost item_g = item;
        let w = Worker { id: i, state: WorkerState::Running(item) };
        let ghost prev_workers = self.workers@;
        self.workers[i] = w;
        proof {
            self.delivered@ = self.delivered@.push(item_g);
            assert(old(self).queue@.remove(0) =~= old(self).queue@.drop_first());
            assert(self.submitted@ =~= self.delivered@ + self.queue@);
            let wg = (Worker { id: i, state: WorkerState::Running(item_g) });
            lemma_running_items_update(prev_workers, i as int, wg);
            assert(state_items(prev_workers[i as int].state) =~= Multiset::<T>::empty());
            assert(running_items(self.workers@).add(Multiset::<T>::empty()) =~= running_items(
                self.workers@,
            ));
            assert(running_items(self.workers@) =~= running_items(prev_workers).add(
                Multiset::singleton(item_g),
            ));
            assert(running_items(self.workers@).add(self.completed@.to_multiset()).add(
                self.lost@.to_multiset(),
            ) =~= running_items(prev_workers).add(self.completed@.to_multiset()).add(
                self.lost@.to_multiset(),
            ).add(Multiset::singleton(item_g)));
            assert(self.delivered@.to_multiset() =~= old(self).delivered@.to_multiset().add(
                Multiset::singleton(item_g),
            ));
        }
    }

    /// Worker `i` finishes the item it is running, records it as completed,
    /// and goes back to polling the queue.
    pub fn worker_finish(&mut self, i: usize)
        requires
            old(self).wf(),
            i < old(self).size(),
            old(self).workers@[i as int].state is Running,
        ensures
            final(self).wf(),
            final(self).workers@ =~= old(self).workers@.update(
                i as int,
                (Worker { id: i, state: WorkerState::Waiting }),
            ),
            final(self).completed@ == old(self).completed@.push(
                Self::running_item_of(old(self).workers@[i as int].state),
            ),
            final(self).queue == old(self).queue,
            final(self).submitted == old(self).submitted,
            final(self).delivered == old(self).delivered,
            final(self).lost == old(self).lost,
            final(self).sender_open == old(self).sender_open,
    {
        let ghost prev_workers = self.workers@;
        let mut w = Worker { id: i, state: WorkerState::Waiting };
        core::mem::swap(&mut self.workers[i], &mut w);
        proof {
            lemma_running_items_update(
                prev_workers,
                i as int,
                (Worker { id: i, state: WorkerState::Waiting }),
            );
        }
        match w.state {
            WorkerState::Running(t) => {
                let ghost tg = t;
                self.completed.push(t);
                proof {
                    assert(state_items(prev_workers[i as int].state) =~= Multiset::singleton(tg));
                    assert(running_items(self.workers@).add(Multiset::<T>::empty())
                        =~= running_items(self.workers@));
                    assert(running_items(prev_workers) =~= running_items(self.workers@).add(
                        Multiset::singleton(tg),
                    ));
                    assert(self.completed@.to_multiset() =~= old(
                        self,
                    ).completed@.to_multiset().add(Multiset::singleton(tg)));
                    assert(running_items(self.workers@).add(self.completed@.to_multiset()).add(
                        self.lost@.to_multiset(),
                    ) =~= running_items(prev_workers).add(old(self).completed@.to_multiset()).add(
                        self.lost@.to_multiset(),
                    ));
                }
            },
            WorkerState::Waiting => {
                proof {
                    assert(false);
                }
            },
            WorkerState::Terminated => {
                proof {
                    assert(false);
                }
            },
        }
    }

    /// Worker `i`'s running item fails; the failure takes the worker's
    /// execution context down with it. The item is consumed but never
    /// completed, and the worker is not resurrected.
    pub fn worker_fail(&mut self, i: usize)
        requires
            old(self).wf(),
            i < old(self).size(),
            old(self).workers@[i as int].state is Running,
        ensures
            final(self).wf(),
            final(self).workers@ =~= old(self).workers@.update(
                i as int,
                (Worker { id: i, state: WorkerState::Terminated }),
            ),
            final(self).lost@ == old(self).lost@.push(
                Self::running_item_of(old(self).workers@[i as int].state),
            ),
            final(self).queue == old(self).queue,
            final(self).completed == old(self).completed,
            final(self).submitted == old(self).submitted,
            final(self).delivered == old(self).delivered,
            final(self).sender_open == old(self).sender_open,
    {
        let ghost prev_workers = self.workers@;
        let mut w = Worker { id: i, state: WorkerState::Terminated };
        core::mem::swap(&mut self.workers[i], &mut w);
        proof {
            lemma_running_items_update(
                prev_workers,
                i as int,
                (Worker { id: i, state: WorkerState::Terminated }),
            );
        }
        match w.state {
            WorkerState::Running(t) => {
                proof {
                    self.lost@ = self.lost@.push(t);
                    assert(state_items(prev_workers[i as int].state) =~= Multiset::singleton(t));
                    assert(running_items(self.workers@).add(Multiset::<T>::empty())
                        =~= running_items(self.workers@));
                    assert(running_items(prev_workers) =~= running_items(self.workers@).add(
                        Multiset::singleton(t),
                    ));
                    assert(self.lost@.to_multiset() =~= old(self).lost@.to_multiset().add(
                        Multiset::singleton(t),
                    ));
                    assert(running_items(self.workers@).add(self.completed@.to_multiset()).add(
                        self.lost@.to_multiset(),
                    ) =~= running_items(prev_workers).add(self.completed@.to_multiset()).add(
                        old(self).lost@.to_multiset(),
                    ));
                }
            },
            WorkerState::Waiting => {
                proof {
                    assert(false);
                }
            },
            WorkerState::Terminated => {
                proof {
                    assert(false);
                }
            },
        }
    }

    /// Worker `i`, idle, sees that the sending half is gone and the queue is
    /// drained: its poll loop exits cleanly.
    pub fn worker_observe_closed(&mut self, i: usize)
        requires
            old(self).wf(),
            i < old(self).size(),
            old(self).workers@[i as int].state is Waiting,
            !old(self).sender_open,
            old(self).queue@.len() == 0,
        ensures
            final(self).wf(),
            final(self).workers@ =~= old(self).workers@.update(
                i as int,
                (Worker { id: i, state: WorkerState::Terminated }),
            ),
            final(self).queue == old(self).queue,
            final(self).completed == old(self).completed,
            final(self).submitted == old(self).submitted,
            final(self).delivered == old(self).delivered,
            final(self).lost == old(self).lost,
            final(self).sender_open == old(self).sender_open,
    {
        let ghost prev_workers = self.workers@;
        self.workers[i] = Worker { id: i, state: WorkerState::Terminated };
        proof {
            lemma_running_items_update(
                prev_workers,
                i as int,
                (Worker { id: i, state: WorkerState::Terminated }),
            );
            assert(state_items(prev_workers[i as int].state) =~= Multiset::<T>::empty());
            assert(running_items(self.workers@).add(Multiset::<T>::empty()) =~= running_items(
                self.workers@,
            ));
            assert(running_items(prev_workers).add(Multiset::<T>::empty()) =~= running_items(
                prev_workers,
            ));
            assert(running_items(self.workers@) =~= running_items(prev_workers));
            assert(running_items(self.workers@).add(self.completed@.to_multiset()).add(
                self.lost@.to_multiset(),
            ) =~= running_items(prev_workers).add(self.completed@.to_multiset()).add(
                self.lost@.to_multiset(),
            ));
        }
    }

    /// Whether worker `i` is in the middle of running an item.
    pub fn worker_is_running(&self, i: usize) -> (b: bool)
        requires
            i < self.size(),
        ensures
            b == (self.workers@[i as int].state is Running),
    {
        match &self.workers[i].state {
            WorkerState::Running(_) => true,
            _ => false,
        }
    }

    /// Whether worker `i` is idle, polling the queue.
    pub fn worker_is_waiting(&self, i: usize) -> (b: bool)
        requires
            i < self.size(),
        ensures
            b == (self.workers@[i as int].state is Waiting),
    {
        match &self.workers[i].state {
            WorkerState::Waiting => true,
            _ => false,
        }
    }

    /// Whether worker `i`'s poll loop has exited.
    pub fn worker_is_terminated(&self, i: usize) -> (b: bool)
        requires
            i < self.size(),
        ensures
            b == (self.workers@[i as int].state is Terminated),
    {
        match &self.workers[i].state {
            WorkerState::Terminated => true,
            _ => false,
        }
    }

    /// The number of workers.
    pub fn worker_count(&self) -> (n: usize)
        ensures
            n == self.size(),
    {
        self.workers.len()
    }

    /// Drops the sending half of the queue: no further submission succeeds,
    /// and once the queue drains, waiting workers observe closure and exit.
    pub fn close_sender(&mut self)
        requires
            old(self).wf(),
        ensures
            final(self).wf(),
            !final(self).sender_open,
            final(self).workers == old(self).workers,
            final(self).queue == old(self).queue,
            final(self).completed == old(self).completed,
            final(self).submitted == old(self).submitted,
            final(self).delivered == old(self).delivered,
            final(self).lost == old(self).lost,
    {
        self.sender_open = false;
    }
}

/// Workers that are not running anything hold no items.
proof fn lemma_running_items_none_running<T>(ws: Seq<Worker<T>>)
    requires
        forall|i: int| 0 <= i < ws.len() ==> !((#[trigger] ws[i]).state is Running),
    ensures
        running_items(ws) =~= Multiset::<T>::empty(),
    decreases ws.len(),
{
    if ws.len() > 0 {
        assert(forall|i: int|
            0 <= i < ws.drop_last().len() ==> #[trigger] ws.drop_last()[i] == ws[i]);
        lemma_running_items_none_running(ws.drop_last());
        assert(ws.last() == ws[ws.len() - 1]);
        assert(state_items(ws.last().state) =~= Multiset::<T>::empty());
    }
}

impl<T> ThreadPool<T> {
    /// The pool's destruction sequence: close the sending half, let every
    /// worker finish what it is running, drain the whole queue, and wait for
    /// every worker's poll loop to exit.
    ///
    /// As long as at least one worker is still alive when shutdown begins,
    /// every item submitted before shutdown is completed before it returns,
    /// and nothing else is: the completion record grows by exactly the
    /// outstanding items, and (since shutdown loses nothing) completed and
    /// lost together account for every submission, each exactly once. A pool
    /// whose workers have all died can drain nothing: its record is
    /// unchanged. Either way every worker has terminated when this returns;
    /// in particular an idle pool tears down cleanly.
    #[verifier::loop_isolation(false)]
    pub fn run_to_completion(&mut self)
        requires
            old(self).wf(),
        ensures
            final(self).wf(),
            !final(self).sender_open,
            final(self).all_terminated(),
            final(self).size() == old(self).size(),
            final(self).submitted == old(self).submitted,
            final(self).lost == old(self).lost,
            old(self).has_live_worker() ==> final(self).queue@.len() == 0,
            old(self).has_live_worker() ==> final(self).completed@.to_multiset() =~= old(
                self,
            ).completed@.to_multiset().add(old(self).outstanding()),
            old(self).has_live_worker() ==> final(self).completed@.to_multiset().add(
                final(self).lost@.to_multiset(),
            ) =~= final(self).submitted@.to_multiset(),
            !old(self).has_live_worker() ==> final(self).completed == old(self).completed
                && final(self).queue == old(self).queue,
    {
        self.close_sender();
        let n = self.worker_count();

        // Every worker finishes the item it is currently running.
        let mut i: usize = 0;
        while i < n
            invariant
                self.wf(),
                n == self.size(),
                n == old(self).size(),
                !self.sender_open,
                self.submitted == old(self).submitted,
                self.delivered == old(self).delivered,
                self.lost == old(self).lost,
                self.queue == old(self).queue,
                i <= n,
                forall|j: int| i <= j < n ==> self.workers@[j] == old(self).workers@[j],
                forall|j: int|
                    0 <= j < i ==> !((#[trigger] self.workers@[j]).state is Running),
                forall|j: int|
                    0 <= j < n ==> (((#[trigger] self.workers@[j]).state is Terminated) <==> (
                    old(self).workers@[j].state is Terminated)),
                self.completed@.to_multiset().add(running_items(self.workers@)) =~= old(
                    self,
                ).completed@.to_multiset().add(running_items(old(self).workers@)),
                (forall|j: int| 0 <= j < n ==> !old(self).is_live(j)) ==> self.completed == old(
                    self,
                ).completed,
            decreases n - i,
        {
            let ghost prev = *self;
            if self.worker_is_running(i) {
                proof {
                    assert(old(self).workers@[i as int].state is Running);
                    assert(old(self).is_live(i as int));
                }
                self.worker_finish(i);
                proof {
                    let t = Self::running_item_of(prev.workers@[i as int].state);
                    assert(self.completed@ == prev.completed@.push(t));
                    assert(prev.completed@.push(t).to_multiset() =~= prev.completed@.to_multiset()
                        .insert(t));
                    assert(self.completed@.to_multiset() =~= prev.completed@.to_multiset().add(
                        Multiset::singleton(t),
                    ));
                    lemma_running_items_update(
                        prev.workers@,
                        i as int,
                        (Worker { id: i, state: WorkerState::Waiting }),
                    );
                    assert(state_items(prev.workers@[i as int].state) =~= Multiset::singleton(t));
                    assert(running_items(self.workers@).add(Multiset::<T>::empty())
                        =~= running_items(self.workers@));
                    assert(running_items(prev.workers@) =~= running_items(self.workers@).add(
                        Multiset::singleton(t),
                    ));
                    assert(self.completed@.to_multiset().add(running_items(self.workers@))
                        =~= prev.completed@.to_multiset().add(running_items(prev.workers@)));
                }
            }
            i += 1;
        }
        let ghost drained = *self;

        // Look for a worker that is still alive; only a live worker can
        // empty the queue.
        let mut li: usize = 0;
        let mut found = false;
        let mut k: usize = 0;
        while k < n
            invariant
                n == self.size(),
                k <= n,
                found ==> li < n && self.workers@[li as int].state is Waiting,
                !found ==> forall|j: int| 0 <= j < k ==> !self.is_live(j),
            decreases n - k,
        {
            if !found && !self.worker_is_terminated(k) {
                li = k;
                found = true;
                proof {
                    assert(!(self.workers@[k as int].state is Running));
                }
            }
            k += 1;
        }

        // Drain: the chosen worker repeatedly takes the oldest item and runs
        // it to completion.
        if found {
            while self.queue.len() > 0
                invariant
                    self.wf(),
                    n == self.size(),
                    li < n,
                    !self.sender_open,
                    self.workers@ =~= drained.workers@,
                    self.workers@[li as int].state is Waiting,
                    self.submitted == old(self).submitted,
                    self.lost == drained.lost,
                    self.completed@.to_multiset().add(self.queue@.to_multiset())
                        =~= drained.completed@.to_multiset().add(drained.queue@.to_multiset()),
                decreases self.queue@.len(),
            {
                let ghost prev = *self;
                let ghost q0 = self.queue@[0];
                self.worker_receive(li);
                self.worker_finish(li);
                proof {
                    let wl = (Worker { id: li, state: WorkerState::Waiting });
                    assert(prev.workers@[li as int] == wl);
                    assert(self.workers@ =~= prev.workers@.update(li as int, wl));
                    assert(self.workers@ =~= prev.workers@);
                    assert(prev.queue@.drop_first() =~= prev.queue@.remove(0));
                    assert(prev.queue@.remove(0).to_multiset() =~= prev.queue@.to_multiset()
                        .remove(prev.queue@[0]));
                    assert(self.queue@.to_multiset() =~= prev.queue@.to_multiset().remove(q0));
                    assert(self.completed@ == prev.completed@.push(q0));
                    assert(prev.completed@.push(q0).to_multiset() =~= prev.completed@.to_multiset()
                        .insert(q0));
                    assert(self.completed@.to_multiset() =~= prev.completed@.to_multiset().add(
                        Multiset::singleton(q0),
                    ));
                    assert(prev.queue@.contains(q0));
                    assert(prev.queue@.to_multiset().count(q0) > 0);
                    assert(self.completed@.to_multiset().add(self.queue@.to_multiset())
                        =~= prev.completed@.to_multiset().add(prev.queue@.to_multiset()));
                }
            }
        }

        // With the queue drained and the sender gone, every idle worker
        // observes closure and exits.
        let ghost before_exit = *self;
        let mut e: usize = 0;
        while e < n
            invariant
                self.wf(),
                n == self.size(),
                !self.sender_open,
                e <= n,
                found ==> self.queue@.len() == 0,
                !found ==> forall|j: int| 0 <= j < n ==> !before_exit.is_live(j),
                self.queue == before_exit.queue,
                self.completed == before_exit.completed,
                self.submitted == old(self).submitted,
                self.delivered == before_exit.delivered,
                self.lost == before_exit.lost,
                forall|j: int| 0 <= j < e ==> (#[trigger] self.workers@[j]).state is Terminated,
                forall|j: int|
                    e <= j < n ==> #[trigger] self.workers@[j] == before_exit.workers@[j],
                forall|j: int|
                    0 <= j < n ==> !((#[trigger] self.workers@[j]).state is Running),
            decreases n - e,
        {
            if self.worker_is_waiting(e) {
                proof {
                    if !found {
                        assert(before_exit.is_live(e as int));
                        assert(false);
                    }
                }
                let ghost prev = *self;
                self.worker_observe_closed(e);
                proof {
                    assert(forall|j: int|
                        0 <= j < n && j != e ==> self.workers@[j] == prev.workers@[j]);
                }
            } else {
                proof {
                    assert(!(self.workers@[e as int].state is Running));
                    assert(self.workers@[e as int].state is Terminated);
                }
            }
            e += 1;
        }

        proof {
            assert(self.all_terminated());
            if old(self).has_live_worker() {
                // Some live worker survives the first sweep, so the search
                // finds one and the queue is fully drained.
                let j = choose|j: int| 0 <= j < n && old(self).is_live(j);
                assert(drained.is_live(j));
                assert(found);
                assert(self.queue@.len() == 0);
                // The first sweep left no one running, so all outstanding
                // items were either already done or still queued.
                lemma_running_items_none_running(drained.workers@);
                assert(drained.completed@.to_multiset() =~= drained.completed@.to_multiset().add(
                    Multiset::<T>::empty(),
                ));
                assert(drained.completed@.to_multiset() =~= old(self).completed@.to_multiset().add(
                    running_items(old(self).workers@),
                ));
                assert(self.queue@.to_multiset() =~= Multiset::<T>::empty());
                assert(self.completed@.to_multiset() =~= self.completed@.to_multiset().add(
                    Multiset::<T>::empty(),
                ));
                assert(self.completed@.to_multiset() =~= drained.completed@.to_multiset().add(
                    drained.queue@.to_multiset(),
                ));
                assert(drained.queue@ == old(self).queue@);
                assert(self.completed@.to_multiset() =~= old(self).completed@.to_multiset().add(
                    running_items(old(self).workers@),
                ).add(old(self).queue@.to_multiset()));
                assert(old(self).completed@.to_multiset().add(
                    running_items(old(self).workers@),
                ).add(old(self).queue@.to_multiset()) =~= old(self).completed@.to_multiset().add(
                    old(self).outstanding(),
                ));
                // Conservation: with the queue empty and no one running,
                // completed and lost together are exactly the submissions.
                lemma_running_items_none_running(self.workers@);
                vstd::seq_lib::lemma_multiset_commutative(self.delivered@, self.queue@);
                assert(self.submitted@ == self.delivered@ + self.queue@);
                assert(self.submitted@.to_multiset() =~= self.delivered@.to_multiset().add(
                    self.queue@.to_multiset(),
                ));
                assert(self.submitted@.to_multiset() =~= self.delivered@.to_multiset());
                assert(self.delivered@.to_multiset() =~= running_items(self.workers@).add(
                    self.completed@.to_multiset(),
                ).add(self.lost@.to_multiset()));
                assert(running_items(self.workers@).add(self.completed@.to_multiset())
                    =~= self.completed@.to_multiset());
                assert(self.completed@.to_multiset().add(self.lost@.to_multiset())
                    =~= self.submitted@.to_multiset());
            } else {
                assert(forall|j: int| 0 <= j < n ==> !old(self).is_live(j));
                assert(drained.completed == old(self).completed);
                if found {
                    assert(drained.workers@[li as int].state is Waiting);
                    assert(!(drained.workers@[li as int].state is Terminated));
                    assert(old(self).is_live(li as int));
                    assert(false);
                }
            }
        }
    }
}

/// At-most-once delivery: however the pool is driven, no item is ever
/// completed more often than it was submitted. In particular an item
/// submitted once runs at most once.
pub proof fn lemma_at_most_once<T>(pool: &ThreadPool<T>, item: T)
    requires
        pool.wf(),
    ensures
        pool.completed@.to_multiset().count(item) <= pool.submitted@.to_multiset().count(item),
{
    vstd::seq_lib::lemma_multiset_commutative(pool.delivered@, pool.queue@);
    assert(pool.submitted@.to_multiset().count(item) == pool.delivered@.to_multiset().count(item)
        + pool.queue@.to_multiset().count(item));
    assert(pool.delivered@.to_multiset().count(item) == running_items(pool.workers@).count(item)
        + pool.completed@.to_multiset().count(item) + pool.lost@.to_multiset().count(item));
}

/// Conservation of work: at every reachable state, the submission history is
/// exactly the pending queue, the items workers are holding, the completed
/// items and the lost items — each submission accounted for exactly once, so
/// no interleaving of submissions and worker steps drops or invents work.
pub proof fn lemma_work_conserved<T>(pool: &ThreadPool<T>)
    requires
        pool.wf(),
    ensures
        pool.submitted@.to_multiset() =~= pool.queue@.to_multiset().add(
            running_items(pool.workers@),
        ).add(pool.completed@.to_multiset()).add(pool.lost@.to_multiset()),
{
    vstd::seq_lib::lemma_multiset_commutative(pool.delivered@, pool.queue@);
}

/// Items are handed to workers in submission order: the hand-off history is
/// always a prefix of the submission history, and the pending queue is the
/// rest.
pub proof fn lemma_delivery_in_submission_order<T>(pool: &ThreadPool<T>)
    requires
        pool.wf(),
    ensures
        pool.delivered@ =~= pool.submitted@.take(pool.delivered@.len() as int),
        pool.queue@ =~= pool.submitted@.skip(pool.delivered@.len() as int),
{
}

} // verus!
