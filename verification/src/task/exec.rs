//! The wake-driven cooperative executor.
//!
//! The executor owns a task table, a fixed-capacity ready queue of task
//! identifiers, and a cache of wake callbacks.  A wake callback is bound to
//! "re-enqueue this identifier", so the cache holds plain identifiers.  One
//! drain cycle pops ready identifiers until the queue is empty, polls each
//! task with its own identifier as the wake target, destroys a task that
//! reports done, and leaves a pending task in the table to be re-polled
//! only when its wake callback fires.
use crate::keyboard::ScancodeStream;
use crate::task::{Task, TaskPoll};
use vstd::prelude::*;

verus! {

/// Fixed capacity of the ready queue.  Overfilling it is a fatal kernel
/// error: dropping a ready identifier would leak its task forever.
pub const TASK_QUEUE_CAP: usize = 100;

/// The task identifiers a ready queue holds, oldest first.
pub uninterp spec fn queue_ids(q: crossbeam_queue::ArrayQueue<u64>) -> Seq<u64>;

/// The fixed capacity a ready queue was created with.
pub uninterp spec fn queue_ids_cap(q: crossbeam_queue::ArrayQueue<u64>) -> nat;

/// Relies on crossbeam_queue::ArrayQueue::new: creates an empty bounded
/// queue of the given capacity (new panics on capacity zero).
#[verifier::external_body]
fn id_queue_new(cap: usize) -> (q: crossbeam_queue::ArrayQueue<u64>)
    requires
        cap >= 1,
    ensures
        queue_ids(q) == Seq::<u64>::empty(),
        queue_ids_cap(q) == cap as nat,
{
    crossbeam_queue::ArrayQueue::new(cap)
}

/// Relies on crossbeam_queue::ArrayQueue::push: appends the value at the
/// back when the queue is not full, and hands the value back unqueued when
/// it is.
#[verifier::external_body]
fn id_queue_push(q: &mut crossbeam_queue::ArrayQueue<u64>, v: u64) -> (r: Result<(), u64>)
    ensures
        queue_ids_cap(*final(q)) == queue_ids_cap(*old(q)),
        r is Ok <==> queue_ids(*old(q)).len() < queue_ids_cap(*old(q)),
        r is Ok ==> queue_ids(*final(q)) == queue_ids(*old(q)).push(v),
        r is Err ==> queue_ids(*final(q)) == queue_ids(*old(q)) && (r matches Err(x) && x == v),
{
    q.push(v)
}

/// Relies on crossbeam_queue::ArrayQueue::pop: removes and returns the
/// oldest queued value, or returns nothing when the queue is empty.
#[verifier::external_body]
fn id_queue_pop(q: &mut crossbeam_queue::ArrayQueue<u64>) -> (r: Option<u64>)
    ensures
        queue_ids_cap(*final(q)) == queue_ids_cap(*old(q)),
        queue_ids(*old(q)).len() == 0 ==> r is None && queue_ids(*final(q)) == queue_ids(*old(q)),
        queue_ids(*old(q)).len() > 0 ==> r == Some(queue_ids(*old(q))[0]) && queue_ids(*final(q))
            == queue_ids(*old(q)).drop_first(),
{
    q.pop()
}

/// Some task in `ts` carries identifier `id`.
pub open spec fn has_task(ts: Seq<Task>, id: u64) -> bool {
    exists|i: int| 0 <= i < ts.len() && ts[i].id == id
}

/// The wake-driven executor.
pub struct Exec {
    tasks: Vec<Task>,
    task_queue: crossbeam_queue::ArrayQueue<u64>,
    waker_cache: Vec<u64>,
}

impl Exec {
    /// The task table.
    pub closed spec fn task_table(self) -> Seq<Task> {
        self.tasks@
    }

    /// The ready queue's identifiers, oldest first.
    pub closed spec fn ready_ids(self) -> Seq<u64> {
        queue_ids(self.task_queue)
    }

    /// The ready queue's fixed capacity.
    pub closed spec fn ready_cap(self) -> nat {
        queue_ids_cap(self.task_queue)
    }

    /// The identifiers that have a cached wake callback.
    pub closed spec fn cached_wakers(self) -> Seq<u64> {
        self.waker_cache@
    }

    /// Executor invariant: task identifiers are unique, cached wakers are
    /// unique, and every cached waker belongs to a live task.
    pub closed spec fn wf(self) -> bool {
        &&& forall|i: int, j: int|
            0 <= i < j < self.tasks@.len() ==> #[trigger] self.tasks@[i].id != #[trigger] self.tasks@[j].id
        &&& forall|i: int, j: int|
            0 <= i < j < self.waker_cache@.len() ==> #[trigger] self.waker_cache@[i]
                != #[trigger] self.waker_cache@[j]
        &&& forall|k: int|
            0 <= k < self.waker_cache@.len() ==> has_task(
                self.tasks@,
                #[trigger] self.waker_cache@[k],
            )
    }

    /// An executor with no tasks, an empty ready queue of the fixed
    /// capacity, and no cached wakers.
    pub fn new() -> (r: Exec)
        ensures
            r.wf(),
            r.task_table().len() == 0,
            r.ready_ids().len() == 0,
            r.ready_cap() == TASK_QUEUE_CAP as nat,
            r.cached_wakers().len() == 0,
    {
        Exec {
            tasks: Vec::new(),
            task_queue: id_queue_new(TASK_QUEUE_CAP),
            waker_cache: Vec::new(),
        }
    }

    /// Number of tasks currently in the table.
    pub fn task_count(&self) -> (r: usize)
        ensures
            r == self.task_table().len(),
    {
        self.tasks.len()
    }

    /// Inserts the task into the table and enqueues its identifier as
    /// ready.  A duplicate identifier and a full ready queue are fatal
    /// kernel errors — logic defects, not runtime conditions — so both are
    /// ruled out up front.
    pub fn spawn(&mut self, task: Task)
        requires
            old(self).wf(),
            !has_task(old(self).task_table(), task.id),
            old(self).ready_ids().len() < old(self).ready_cap(),
        ensures
            final(self).wf(),
            final(self).task_table() == old(self).task_table().push(task),
            final(self).ready_ids() == old(self).ready_ids().push(task.id),
            final(self).ready_cap() == old(self).ready_cap(),
            final(self).cached_wakers() == old(self).cached_wakers(),
    {
        let id = task.id;
        self.tasks.push(task);
        let _queued = id_queue_push(&mut self.task_queue, id);
        proof {
            let n = old(self).tasks@.len() as int;
            assert forall|i: int, j: int| 0 <= i < j < self.tasks@.len() implies self.tasks@[i].id
                != self.tasks@[j].id by {
                if j < n {
                    assert(self.tasks@[i] == old(self).tasks@[i]);
                    assert(self.tasks@[j] == old(self).tasks@[j]);
                } else {
                    assert(self.tasks@[i] == old(self).tasks@[i]);
                    assert(!has_task(old(self).tasks@, task.id));
                }
            }
            assert forall|k: int| 0 <= k < self.waker_cache@.len() implies has_task(
                self.tasks@,
                self.waker_cache@[k],
            ) by {
                assert(has_task(old(self).tasks@, self.waker_cache@[k]));
                let w = choose|i: int|
                    0 <= i < old(self).tasks@.len() && old(self).tasks@[i].id
                        == self.waker_cache@[k];
                assert(self.tasks@[w].id == self.waker_cache@[k]);
            }
        }
    }

    /// Re-enqueues `id` as ready: this is exactly what the wake callback
    /// bound to a task performs when its awaited condition becomes true.
    /// Rapid wakes may enqueue an identifier more than once; the drain
    /// cycle skips an identifier whose task is already gone.  A full ready
    /// queue is a fatal kernel error, ruled out up front.
    pub fn wake(&mut self, id: u64)
        requires
            old(self).wf(),
            old(self).ready_ids().len() < old(self).ready_cap(),
        ensures
            final(self).wf(),
            final(self).task_table() == old(self).task_table(),
            final(self).ready_ids() == old(self).ready_ids().push(id),
            final(self).ready_cap() == old(self).ready_cap(),
            final(self).cached_wakers() == old(self).cached_wakers(),
    {
        let _queued = id_queue_push(&mut self.task_queue, id);
    }
}

/// Index of the task with the given identifier, if it is in the table.
fn find_task_index(tasks: &Vec<Task>, id: u64) -> (r: Option<usize>)
    ensures
        r matches Some(i) ==> 0 <= i < tasks@.len() && tasks@[i as int].id == id,
        r is None ==> !has_task(tasks@, id),
{
    let mut i: usize = 0;
    while i < tasks.len()
        invariant
            0 <= i <= tasks@.len(),
            forall|j: int| 0 <= j < i ==> #[trigger] tasks@[j].id != id,
        decreases tasks@.len() - i,
    {
        if tasks[i].id == id {
            return Some(i);
        }
        i = i + 1;
    }
    None
}

/// Whether an identifier already has a cached wake callback.
fn cache_contains(cache: &Vec<u64>, id: u64) -> (r: bool)
    ensures
        r <==> cache@.contains(id),
{
    let mut i: usize = 0;
    while i < cache.len()
        invariant
            0 <= i <= cache@.len(),
            forall|j: int| 0 <= j < i ==> #[trigger] cache@[j] != id,
        decreases cache@.len() - i,
    {
        if cache[i] == id {
            assert(cache@.contains(id));
            return true;
        }
        i = i + 1;
    }
    false
}

/// Index of an identifier in the waker cache.
fn find_id_index(cache: &Vec<u64>, id: u64) -> (r: Option<usize>)
    ensures
        r matches Some(i) ==> 0 <= i < cache@.len() && cache@[i as int] == id,
        r is None ==> forall|j: int| 0 <= j < cache@.len() ==> #[trigger] cache@[j] != id,
{
    let mut i: usize = 0;
    while i < cache.len()
        invariant
            0 <= i <= cache@.len(),
            forall|j: int| 0 <= j < i ==> #[trigger] cache@[j] != id,
        decreases cache@.len() - i,
    {
        if cache[i] == id {
            return Some(i);
        }
        i = i + 1;
    }
    None
}

/// Removes the cached wake callback of a completed task.
fn remove_cached(cache: &mut Vec<u64>, id: u64)
    requires
        forall|i: int, j: int|
            0 <= i < j < old(cache)@.len()
                ==> #[trigger] old(cache)@[i] != #[trigger] old(cache)@[j],
    ensures
        forall|i: int, j: int|
            0 <= i < j < final(cache)@.len()
                ==> #[trigger] final(cache)@[i] != #[trigger] final(cache)@[j],
        !final(cache)@.contains(id),
        forall|x: u64| #[trigger] final(cache)@.contains(x) ==> old(cache)@.contains(x),
        forall|x: u64|
            x != id && old(cache)@.contains(x) ==> #[trigger] final(cache)@.contains(x),
{
    let found = find_id_index(cache, id);
    match found {
        Some(i) => {
            let ghost pre = cache@;
            let ghost gi = i as int;
            cache.remove(i);
            proof {
                assert forall|k: int, j: int|
                    0 <= k < j < cache@.len() implies cache@[k] != cache@[j] by {
                    let k0 = if k < gi {
                        k
                    } else {
                        k + 1
                    };
                    let j0 = if j < gi {
                        j
                    } else {
                        j + 1
                    };
                    assert(cache@[k] == pre[k0]);
                    assert(cache@[j] == pre[j0]);
                    assert(pre[k0] != pre[j0]);
                }
                assert forall|k: int| 0 <= k < cache@.len() implies cache@[k] != id by {
                    let k0 = if k < gi {
                        k
                    } else {
                        k + 1
                    };
                    assert(cache@[k] == pre[k0]);
                    if k0 != gi {
                        assert(pre[k0] != pre[gi]);
                    }
                }
                assert(!cache@.contains(id));
                assert forall|x: u64| #[trigger] cache@.contains(x) implies pre.contains(x) by {
                    let w = choose|k: int| 0 <= k < cache@.len() && cache@[k] == x;
                    let k0 = if w < gi {
                        w
                    } else {
                        w + 1
                    };
                    assert(pre[k0] == x);
                }
                assert forall|x: u64| x != id && pre.contains(x) implies cache@.contains(x) by {
                    let w = choose|k: int| 0 <= k < pre.len() && pre[k] == x;
                    if w < gi {
                        assert(cache@[w] == x);
                    } else {
                        assert(w != gi);
                        assert(cache@[w - 1] == x);
                    }
                }
            }
        },
        None => {
            proof {
                assert(!cache@.contains(id));
            }
        },
    }
}

/// Extending a prefix by one element extends exactly what it contains.
proof fn lemma_take_one_more(s: Seq<u64>, k: int)
    requires
        0 <= k < s.len(),
    ensures
        forall|x: u64| #[trigger]
            s.take(k + 1).contains(x) <==> (s.take(k).contains(x) || s[k] == x),
{
    assert forall|x: u64| #[trigger]
        s.take(k + 1).contains(x) implies (s.take(k).contains(x) || s[k] == x) by {
        let w = choose|i: int| 0 <= i < s.take(k + 1).len() && #[trigger] s.take(k + 1)[i] == x;
        if w < k {
            assert(s.take(k)[w] == x);
        } else {
            assert(s.take(k + 1)[k] == x);
        }
    }
    assert forall|x: u64| (s.take(k).contains(x) || s[k] == x) implies #[trigger] s.take(
        k + 1,
    ).contains(x) by {
        if s.take(k).contains(x) {
            let w = choose|i: int| 0 <= i < s.take(k).len() && #[trigger] s.take(k)[i] == x;
            assert(s.take(k + 1)[w] == x);
        } else {
            assert(s.take(k + 1)[k] == x);
        }
    }
}

impl Exec {
    /// One drain cycle.  Pops ready identifiers until the queue is empty;
    /// an identifier whose task is already gone is skipped silently (a wake
    /// can race with completion and enqueue an identifier twice).  Each
    /// found task gets a cached wake callback bound to its own identifier
    /// and is polled once: a task that reports done is destroyed together
    /// with its callback; a pending task stays in the table and is not
    /// re-polled until its wake callback fires — the executor never
    /// busy-polls.  In particular a ready immediate task completes within
    /// this one cycle without any external wake, and a task pending on an
    /// empty scancode stream is left in the table with the stream's waker
    /// registered to it.
    pub fn run_ready_tasks(&mut self, stream: &mut ScancodeStream)
        requires
            old(self).wf(),
        ensures
            final(self).wf(),
            final(self).ready_ids().len() == 0,
            final(self).ready_cap() == old(self).ready_cap(),
            final(stream).capacity() == old(stream).capacity(),
            forall|t: Task|
                #[trigger] old(self).task_table().contains(t) && !old(self).ready_ids().contains(
                    t.id,
                ) ==> final(self).task_table().contains(t),
            forall|t: Task|
                #[trigger] old(self).task_table().contains(t) && t.body is Immediate && old(
                    self,
                ).ready_ids().contains(t.id) ==> !has_task(final(self).task_table(), t.id),
            forall|t: Task|
                #[trigger] old(self).task_table().contains(t) && t.body is Keypresses
                    ==> has_task(final(self).task_table(), t.id),
            forall|t: Task|
                #[trigger] final(self).task_table().contains(t) ==> has_task(
                    old(self).task_table(),
                    t.id,
                ),
            old(stream).scancodes().len() == 0 ==> final(stream).scancodes().len() == 0,
    {
        let ghost pre_tasks = old(self).task_table();
        let ghost pre_ready = old(self).ready_ids();
        let ghost mut k: int = 0;
        loop
            invariant_except_break
                self.wf(),
                0 <= k <= pre_ready.len(),
                pre_tasks == old(self).task_table(),
                pre_ready == old(self).ready_ids(),
                queue_ids(self.task_queue) =~= pre_ready.skip(k),
                queue_ids_cap(self.task_queue) == old(self).ready_cap(),
                stream.capacity() == old(stream).capacity(),
                forall|t: Task|
                    #[trigger] pre_tasks.contains(t) && !pre_ready.contains(t.id)
                        ==> self.tasks@.contains(t),
                forall|t: Task|
                    #[trigger] pre_tasks.contains(t) && t.body is Immediate && pre_ready.take(
                        k,
                    ).contains(t.id) ==> !has_task(self.tasks@, t.id),
                forall|t: Task|
                    #[trigger] pre_tasks.contains(t) && t.body is Keypresses ==> has_task(
                        self.tasks@,
                        t.id,
                    ),
                forall|t: Task|
                    #[trigger] self.tasks@.contains(t) ==> has_task(pre_tasks, t.id),
                forall|t: Task, j: int|
                    #[trigger] pre_tasks.contains(t) && 0 <= j < self.tasks@.len()
                        && #[trigger] self.tasks@[j].id == t.id ==> (self.tasks@[j].body
                        is Immediate <==> t.body is Immediate),
                old(stream).scancodes().len() == 0 ==> stream.scancodes().len() == 0,
            ensures
                self.wf(),
                queue_ids(self.task_queue).len() == 0,
                queue_ids_cap(self.task_queue) == old(self).ready_cap(),
                stream.capacity() == old(stream).capacity(),
                forall|t: Task|
                    #[trigger] pre_tasks.contains(t) && !pre_ready.contains(t.id)
                        ==> self.tasks@.contains(t),
                forall|t: Task|
                    #[trigger] pre_tasks.contains(t) && t.body is Immediate
                        && pre_ready.contains(t.id) ==> !has_task(self.tasks@, t.id),
                forall|t: Task|
                    #[trigger] pre_tasks.contains(t) && t.body is Keypresses ==> has_task(
                        self.tasks@,
                        t.id,
                    ),
                forall|t: Task|
                    #[trigger] self.tasks@.contains(t) ==> has_task(pre_tasks, t.id),
                old(stream).scancodes().len() == 0 ==> stream.scancodes().len() == 0,
            decreases pre_ready.len() - k,
        {
            let popped = id_queue_pop(&mut self.task_queue);
            match popped {
                None => {
                    proof {
                        assert(pre_ready.skip(k).len() == 0);
                        assert(k == pre_ready.len());
                        assert(pre_ready.take(k) =~= pre_ready);
                    }
                    break ;
                },
                Some(task_id) => {
                    proof {
                        assert(pre_ready.skip(k).len() > 0);
                        assert(pre_ready.skip(k)[0] == pre_ready[k]);
                        assert(task_id == pre_ready[k]);
                        assert(queue_ids(self.task_queue) =~= pre_ready.skip(k + 1)) by {
                            assert(pre_ready.skip(k).drop_first() =~= pre_ready.skip(k + 1));
                        }
                        lemma_take_one_more(pre_ready, k);
                        assert(pre_ready.contains(task_id)) by {
                            assert(pre_ready[k] == task_id);
                        }
                        k = k + 1;
                    }
                    let found = find_task_index(&self.tasks, task_id);
                    match found {
                        None => {
                            proof {
                                assert forall|t: Task|
                                    pre_tasks.contains(t) && t.body is Immediate
                                        && pre_ready.take(k).contains(t.id) implies !has_task(
                                    self.tasks@,
                                    t.id,
                                ) by {
                                    if !pre_ready.take(k - 1).contains(t.id) {
                                        assert(t.id == task_id);
                                    }
                                }
                            }
                        },
                        Some(i) => {
                            let cached = cache_contains(&self.waker_cache, task_id);
                            let ghost cache_before = self.waker_cache@;
                            if !cached {
                                self.waker_cache.push(task_id);
                                proof {
                                    assert forall|a: int, b: int|
                                        0 <= a < b < self.waker_cache@.len()
                                            implies self.waker_cache@[a]
                                            != self.waker_cache@[b] by {
                                        if b < cache_before.len() {
                                            assert(self.waker_cache@[a] == cache_before[a]);
                                            assert(self.waker_cache@[b] == cache_before[b]);
                                        } else {
                                            assert(self.waker_cache@[a] == cache_before[a]);
                                            assert(cache_before.contains(cache_before[a]));
                                        }
                                    }
                                }
                            }
                            let ghost tbl = self.tasks@;
                            let ghost cache_now = self.waker_cache@;
                            let ghost gi = i as int;
                            let mut task = self.tasks.remove(i);
                            let res = task.poll(stream, task_id);
                            match res {
                                TaskPoll::Done => {
                                    remove_cached(&mut self.waker_cache, task_id);
                                    proof {
                                        lemma_drain_step_done(
                                            pre_tasks,
                                            pre_ready,
                                            tbl,
                                            self.tasks@,
                                            gi,
                                            k,
                                            task,
                                        );
                                        assert forall|c: int|
                                            0 <= c < self.waker_cache@.len() implies has_task(
                                            self.tasks@,
                                            self.waker_cache@[c],
                                        ) by {
                                            let x = self.waker_cache@[c];
                                            assert(self.waker_cache@.contains(x));
                                            assert(cache_now.contains(x));
                                            assert(x != task_id);
                                            let w = choose|a: int|
                                                0 <= a < cache_now.len() && cache_now[a] == x;
                                            assert(has_task(tbl, x));
                                            let wt = choose|a: int|
                                                0 <= a < tbl.len() && tbl[a].id == x;
                                            assert(wt != gi);
                                            if wt < gi {
                                                assert(self.tasks@[wt].id == x);
                                            } else {
                                                assert(self.tasks@[wt - 1].id == x);
                                            }
                                        }
                                    }
                                },
                                TaskPoll::Pending => {
                                    self.tasks.push(task);
                                    proof {
                                        lemma_drain_step_pending(
                                            pre_tasks,
                                            pre_ready,
                                            tbl,
                                            self.tasks@,
                                            gi,
                                            k,
                                            task,
                                        );
                                        assert forall|c: int|
                                            0 <= c < self.waker_cache@.len() implies has_task(
                                            self.tasks@,
                                            self.waker_cache@[c],
                                        ) by {
                                            let x = self.waker_cache@[c];
                                            assert(has_task(tbl, x));
                                            let wt = choose|a: int|
                                                0 <= a < tbl.len() && tbl[a].id == x;
                                            if wt == gi {
                                                assert(self.tasks@[self.tasks@.len() - 1].id
                                                    == x);
                                            } else if wt < gi {
                                                assert(self.tasks@[wt].id == x);
                                            } else {
                                                assert(self.tasks@[wt - 1].id == x);
                                            }
                                        }
                                    }
                                },
                            }
                        },
                    }
                },
            }
        }
    }
}

/// After the drain step that destroys the polled (immediate) task at index
/// `gi`, every per-step table property is restored.
proof fn lemma_drain_step_done(
    pre_tasks: Seq<Task>,
    pre_ready: Seq<u64>,
    tbl: Seq<Task>,
    post: Seq<Task>,
    gi: int,
    k: int,
    task: Task,
)
    requires
        1 <= k <= pre_ready.len(),
        0 <= gi < tbl.len(),
        post == tbl.remove(gi),
        task.id == pre_ready[k - 1],
        tbl[gi].id == task.id,
        !(tbl[gi].body is Keypresses),
        forall|i: int, j: int| 0 <= i < j < tbl.len() ==> #[trigger] tbl[i].id != #[trigger] tbl[j].id,
        forall|t: Task|
            #[trigger] pre_tasks.contains(t) && !pre_ready.contains(t.id) ==> tbl.contains(t),
        forall|t: Task|
            #[trigger] pre_tasks.contains(t) && t.body is Immediate && pre_ready.take(
                k - 1,
            ).contains(t.id) ==> !has_task(tbl, t.id),
        forall|t: Task|
            #[trigger] pre_tasks.contains(t) && t.body is Keypresses ==> has_task(tbl, t.id),
        forall|t: Task| #[trigger] tbl.contains(t) ==> has_task(pre_tasks, t.id),
        forall|t: Task, j: int|
            #[trigger] pre_tasks.contains(t) && 0 <= j < tbl.len() && #[trigger] tbl[j].id == t.id
                ==> (tbl[j].body is Immediate <==> t.body is Immediate),
        forall|x: u64| #[trigger]
            pre_ready.take(k).contains(x) <==> (pre_ready.take(k - 1).contains(x) || pre_ready[k
                - 1] == x),
        pre_ready.contains(pre_ready[k - 1]),
    ensures
        forall|i: int, j: int|
            0 <= i < j < post.len() ==> #[trigger] post[i].id != #[trigger] post[j].id,
        forall|t: Task|
            #[trigger] pre_tasks.contains(t) && !pre_ready.contains(t.id) ==> post.contains(t),
        forall|t: Task|
            #[trigger] pre_tasks.contains(t) && t.body is Immediate && pre_ready.take(
                k,
            ).contains(t.id) ==> !has_task(post, t.id),
        forall|t: Task|
            #[trigger] pre_tasks.contains(t) && t.body is Keypresses ==> has_task(post, t.id),
        forall|t: Task| #[trigger] post.contains(t) ==> has_task(pre_tasks, t.id),
        forall|t: Task, j: int|
            #[trigger] pre_tasks.contains(t) && 0 <= j < post.len() && #[trigger] post[j].id
                == t.id ==> (post[j].body is Immediate <==> t.body is Immediate),
{
    let id = task.id;
    assert forall|i: int, j: int| 0 <= i < j < post.len() implies post[i].id != post[j].id by {
        let i0 = if i < gi { i } else { i + 1 };
        let j0 = if j < gi { j } else { j + 1 };
        assert(post[i] == tbl[i0]);
        assert(post[j] == tbl[j0]);
        assert(tbl[i0].id != tbl[j0].id);
    }
    assert forall|x: u64| x != id && has_task(tbl, x) implies has_task(post, x) by {
        let w = choose|a: int| 0 <= a < tbl.len() && tbl[a].id == x;
        assert(w != gi);
        if w < gi {
            assert(post[w].id == x);
        } else {
            assert(post[w - 1].id == x);
        }
    }
    assert forall|x: u64| has_task(post, x) implies has_task(tbl, x) by {
        let w = choose|a: int| 0 <= a < post.len() && post[a].id == x;
        let w0 = if w < gi { w } else { w + 1 };
        assert(tbl[w0].id == x);
    }
    assert(!has_task(post, id)) by {
        if has_task(post, id) {
            let w = choose|a: int| 0 <= a < post.len() && post[a].id == id;
            let w0 = if w < gi { w } else { w + 1 };
            assert(tbl[w0].id == id);
            assert(w0 != gi);
            assert(tbl[w0].id != tbl[gi].id);
        }
    }
    assert forall|t: Task|
        pre_tasks.contains(t) && !pre_ready.contains(t.id) implies post.contains(t) by {
        assert(tbl.contains(t));
        assert(t.id != id);
        let w = choose|a: int| 0 <= a < tbl.len() && tbl[a] == t;
        assert(w != gi);
        if w < gi {
            assert(post[w] == t);
        } else {
            assert(post[w - 1] == t);
        }
    }
    assert forall|t: Task|
        pre_tasks.contains(t) && t.body is Immediate && pre_ready.take(k).contains(t.id)
        implies !has_task(post, t.id) by {
        if pre_ready.take(k - 1).contains(t.id) {
            assert(!has_task(tbl, t.id));
            if has_task(post, t.id) {
                assert(has_task(tbl, t.id));
            }
        } else {
            assert(t.id == id);
        }
    }
    assert forall|t: Task|
        pre_tasks.contains(t) && t.body is Keypresses implies has_task(post, t.id) by {
        assert(has_task(tbl, t.id));
        if t.id == id {
            let w = choose|a: int| 0 <= a < tbl.len() && tbl[a].id == t.id;
            assert(w == gi) by {
                if w != gi {
                    assert(tbl[w].id != tbl[gi].id);
                }
            }
            assert(tbl[gi].body is Immediate <==> t.body is Immediate);
            assert(false);
        }
    }
    assert forall|t: Task| post.contains(t) implies has_task(pre_tasks, t.id) by {
        let w = choose|a: int| 0 <= a < post.len() && post[a] == t;
        let w0 = if w < gi {
            w
        } else {
            w + 1
        };
        assert(tbl.contains(tbl[w0]));
        assert(has_task(pre_tasks, tbl[w0].id));
    }
    assert forall|t: Task, j: int|
        pre_tasks.contains(t) && 0 <= j < post.len() && post[j].id == t.id implies (post[j].body
        is Immediate <==> t.body is Immediate) by {
        let j0 = if j < gi { j } else { j + 1 };
        assert(post[j] == tbl[j0]);
    }
}

/// After the drain step that re-appends the polled (pending, keypress)
/// task, every per-step table property is restored.
proof fn lemma_drain_step_pending(
    pre_tasks: Seq<Task>,
    pre_ready: Seq<u64>,
    tbl: Seq<Task>,
    post: Seq<Task>,
    gi: int,
    k: int,
    task: Task,
)
    requires
        1 <= k <= pre_ready.len(),
        0 <= gi < tbl.len(),
        post == tbl.remove(gi).push(task),
        task.id == pre_ready[k - 1],
        tbl[gi].id == task.id,
        task.body is Keypresses,
        task.body is Immediate <==> tbl[gi].body is Immediate,
        forall|i: int, j: int| 0 <= i < j < tbl.len() ==> #[trigger] tbl[i].id != #[trigger] tbl[j].id,
        forall|t: Task|
            #[trigger] pre_tasks.contains(t) && !pre_ready.contains(t.id) ==> tbl.contains(t),
        forall|t: Task|
            #[trigger] pre_tasks.contains(t) && t.body is Immediate && pre_ready.take(
                k - 1,
            ).contains(t.id) ==> !has_task(tbl, t.id),
        forall|t: Task|
            #[trigger] pre_tasks.contains(t) && t.body is Keypresses ==> has_task(tbl, t.id),
        forall|t: Task| #[trigger] tbl.contains(t) ==> has_task(pre_tasks, t.id),
        forall|t: Task, j: int|
            #[trigger] pre_tasks.contains(t) && 0 <= j < tbl.len() && #[trigger] tbl[j].id == t.id
                ==> (tbl[j].body is Immediate <==> t.body is Immediate),
        forall|x: u64| #[trigger]
            pre_ready.take(k).contains(x) <==> (pre_ready.take(k - 1).contains(x) || pre_ready[k
                - 1] == x),
        pre_ready.contains(pre_ready[k - 1]),
    ensures
        forall|i: int, j: int|
            0 <= i < j < post.len() ==> #[trigger] post[i].id != #[trigger] post[j].id,
        forall|t: Task|
            #[trigger] pre_tasks.contains(t) && !pre_ready.contains(t.id) ==> post.contains(t),
        forall|t: Task|
            #[trigger] pre_tasks.contains(t) && t.body is Immediate && pre_ready.take(
                k,
            ).contains(t.id) ==> !has_task(post, t.id),
        forall|t: Task|
            #[trigger] pre_tasks.contains(t) && t.body is Keypresses ==> has_task(post, t.id),
        forall|t: Task| #[trigger] post.contains(t) ==> has_task(pre_tasks, t.id),
        forall|t: Task, j: int|
            #[trigger] pre_tasks.contains(t) && 0 <= j < post.len() && #[trigger] post[j].id
                == t.id ==> (post[j].body is Immediate <==> t.body is Immediate),
{
    let id = task.id;
    let n = post.len();
    assert(post[n - 1] == task);
    assert forall|j: int| 0 <= j < n - 1 implies post[j].id != id by {
        let j0 = if j < gi { j } else { j + 1 };
        assert(post[j] == tbl[j0]);
        if j0 != gi {
            assert(tbl[j0].id != tbl[gi].id);
        }
    }
    assert forall|i: int, j: int| 0 <= i < j < n implies post[i].id != post[j].id by {
        if j == n - 1 {
        } else {
            let i0 = if i < gi { i } else { i + 1 };
            let j0 = if j < gi { j } else { j + 1 };
            assert(post[i] == tbl[i0]);
            assert(post[j] == tbl[j0]);
            assert(tbl[i0].id != tbl[j0].id);
        }
    }
    assert forall|x: u64| has_task(tbl, x) implies has_task(post, x) by {
        let w = choose|a: int| 0 <= a < tbl.len() && tbl[a].id == x;
        if w == gi {
            assert(post[n - 1].id == x);
        } else if w < gi {
            assert(post[w].id == x);
        } else {
            assert(post[w - 1].id == x);
        }
    }
    assert forall|x: u64| has_task(post, x) implies has_task(tbl, x) by {
        let w = choose|a: int| 0 <= a < post.len() && post[a].id == x;
        if w == n - 1 {
            assert(tbl[gi].id == x);
        } else {
            let w0 = if w < gi { w } else { w + 1 };
            assert(tbl[w0].id == x);
        }
    }
    assert forall|t: Task|
        pre_tasks.contains(t) && !pre_ready.contains(t.id) implies post.contains(t) by {
        assert(tbl.contains(t));
        assert(t.id != id);
        let w = choose|a: int| 0 <= a < tbl.len() && tbl[a] == t;
        assert(w != gi) by {
            if w == gi {
                assert(tbl[gi].id == id);
            }
        }
        if w < gi {
            assert(post[w] == t);
        } else {
            assert(post[w - 1] == t);
        }
    }
    assert forall|t: Task|
        pre_tasks.contains(t) && t.body is Immediate && pre_ready.take(k).contains(t.id)
        implies !has_task(post, t.id) by {
        if pre_ready.take(k - 1).contains(t.id) {
            assert(!has_task(tbl, t.id));
            if has_task(post, t.id) {
                assert(has_task(tbl, t.id));
            }
        } else {
            assert(t.id == id);
            assert(has_task(tbl, t.id)) by {
                assert(tbl[gi].id == id);
            }
            let w = choose|a: int| 0 <= a < tbl.len() && tbl[a].id == t.id;
            assert(w == gi) by {
                if w != gi {
                    assert(tbl[w].id != tbl[gi].id);
                }
            }
            assert(tbl[gi].body is Immediate <==> t.body is Immediate);
            assert(!(task.body is Immediate));
            assert(false);
        }
    }
    assert forall|t: Task|
        pre_tasks.contains(t) && t.body is Keypresses implies has_task(post, t.id) by {
        assert(has_task(tbl, t.id));
    }
    assert forall|t: Task| post.contains(t) implies has_task(pre_tasks, t.id) by {
        let w = choose|a: int| 0 <= a < post.len() && post[a] == t;
        if w == n - 1 {
            assert(t.id == tbl[gi].id);
            assert(tbl.contains(tbl[gi]));
            assert(has_task(pre_tasks, tbl[gi].id));
        } else {
            let w0 = if w < gi { w } else { w + 1 };
            assert(tbl.contains(tbl[w0]));
            assert(has_task(pre_tasks, tbl[w0].id));
        }
    }
    assert forall|t: Task, j: int|
        pre_tasks.contains(t) && 0 <= j < post.len() && post[j].id == t.id implies (post[j].body
        is Immediate <==> t.body is Immediate) by {
        if j == n - 1 {
            assert(tbl[gi].id == t.id);
            assert(tbl[gi].body is Immediate <==> t.body is Immediate);
        } else {
            let j0 = if j < gi { j } else { j + 1 };
            assert(post[j] == tbl[j0]);
        }
    }
}

} // verus!
