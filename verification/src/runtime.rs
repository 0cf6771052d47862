//! The cooperative future runtime: futures that bridge a pending host operation to guest
//! logic, and tasks that are kept alive by counted references until they are done.
//!
//! Nothing here polls a computation. The driver does: it asks this module what a poll or a
//! wake comes to, and carries it out.

use vstd::prelude::*;
use crate::invoke::routine;
use crate::invoke::Call;
use crate::invoke::Js;
use crate::invoke::JsValue;
use crate::invoke::ObjectRef;
use crate::invoke::Value;
use crate::slots::compact;
use crate::slots::contents;
use crate::slots::lemma_trimmed;
use crate::slots::live;
use crate::slots::take_slot;
use crate::slots::taken;
use crate::template::markers_from;

verus! {

/// One counted reference to a task of the runtime. Waking through it asks for the task
/// to be polled again.
#[derive(Debug, PartialEq, Eq, Structural)]
pub struct Waker {
    pub task: usize,
}

/// Where a future stands: not yet signalled and unwatched, not yet signalled with the
/// waker of the task that waits for it, or completed with its result.
#[derive(Debug)]
pub enum FutureState<T> {
    Init,
    Pending(Waker),
    Competed(T),
}

/// What a poll reports.
#[derive(Debug)]
pub enum Poll<T> {
    Ready(T),
    Pending,
}

/// The slots of the futures that were created and not yet consumed.
pub type Futures<T> = Seq<Option<FutureState<T>>>;

/// The future in slot `id` is still to be completed.
pub open spec fn awaiting<T>(slots: Futures<T>, id: int) -> bool {
    live(slots, id) && !(slots[id]->0 is Competed)
}

/// The future in slot `id` was completed and its result not yet consumed.
pub open spec fn completed<T>(slots: Futures<T>, id: int) -> bool {
    live(slots, id) && slots[id]->0 is Competed
}

/// The slots after a new future was created.
pub open spec fn created<T>(slots: Futures<T>) -> Futures<T> {
    slots.push(Some(FutureState::Init))
}

/// What a poll of the future in slot `id` reports.
pub open spec fn poll_report<T>(slots: Futures<T>, id: int) -> Poll<T> {
    if completed(slots, id) {
        Poll::Ready(slots[id]->0->Competed_0)
    } else {
        Poll::Pending
    }
}

/// The slots after the future in slot `id` was polled with `waker`: a completed future
/// gives its slot up, any other keeps the waker.
pub open spec fn polled<T>(slots: Futures<T>, id: int, waker: Waker) -> Futures<T> {
    if completed(slots, id) {
        taken(slots, id)
    } else {
        slots.update(id, Some(FutureState::Pending(waker)))
    }
}

/// The waker that a poll with `waker` leaves without use: the one handed in when the
/// future is ready, else the one that the future held before.
pub open spec fn poll_leftover<T>(slots: Futures<T>, id: int, waker: Waker) -> Option<Waker> {
    if completed(slots, id) {
        Some(waker)
    } else {
        match slots[id] {
            Some(FutureState::Pending(held)) => Some(held),
            _ => None,
        }
    }
}

/// The slots after the future in slot `id` was completed with `result`.
pub open spec fn woken<T>(slots: Futures<T>, id: int, result: T) -> Futures<T> {
    slots.update(id, Some(FutureState::Competed(result)))
}

/// The waker through which the completion of the future in slot `id` is announced.
pub open spec fn wake_target<T>(slots: Futures<T>, id: int) -> Option<Waker> {
    match slots[id] {
        Some(FutureState::Pending(held)) => Some(held),
        _ => None,
    }
}

/// The slots after the future in slot `id` was polled once with each of `wakers`, in order.
pub open spec fn polled_with<T>(slots: Futures<T>, id: int, wakers: Seq<Waker>) -> Futures<T>
    decreases wakers.len(),
{
    if wakers.len() == 0 {
        slots
    } else {
        polled(polled_with(slots, id, wakers.drop_last()), id, wakers.last())
    }
}

/// A future that was not signalled reports "not ready" however often it is polled, and
/// stays in place.
pub proof fn lemma_pending_until_woken<T>(slots: Futures<T>, id: int, wakers: Seq<Waker>)
    requires
        awaiting(slots, id),
    ensures
        awaiting(polled_with(slots, id, wakers), id),
        poll_report(polled_with(slots, id, wakers), id) == Poll::<T>::Pending,
        polled_with(slots, id, wakers).len() == slots.len(),
        forall|other: int|
            0 <= other < slots.len() && other != id ==> #[trigger] polled_with(
                slots,
                id,
                wakers,
            )[other] == slots[other],
    decreases wakers.len(),
{
    if wakers.len() > 0 {
        lemma_pending_until_woken(slots, id, wakers.drop_last());
    }
}

/// One-shot completion: a future reports "not ready" on any number of polls, then, once
/// woken, "ready" with the result exactly once; that poll gives its slot up, so that no
/// later poll can reach it.
pub proof fn lemma_ready_exactly_once<T>(
    slots: Futures<T>,
    id: int,
    wakers: Seq<Waker>,
    result: T,
    last: Waker,
)
    requires
        awaiting(slots, id),
    ensures
        ({
            let waiting = polled_with(slots, id, wakers);
            let signalled = woken(waiting, id, result);
            let consumed = polled(signalled, id, last);
            &&& poll_report(waiting, id) == Poll::<T>::Pending
            &&& completed(signalled, id)
            &&& poll_report(signalled, id) == Poll::Ready(result)
            &&& !live(consumed, id)
            &&& !awaiting(consumed, id)
            &&& !completed(consumed, id)
        }),
{
    lemma_pending_until_woken(slots, id, wakers);
    let waiting = polled_with(slots, id, wakers);
    let signalled = woken(waiting, id, result);
    lemma_trimmed(signalled.update(id, None));
    assert(live(taken(signalled, id), id) == live(signalled.update(id, None), id));
}

/// Waking or polling one future leaves every other future as it was.
pub proof fn lemma_futures_independent<T>(
    slots: Futures<T>,
    id: int,
    other: int,
    waker: Waker,
    result: T,
)
    requires
        live(slots, id),
        other != id,
    ensures
        contents(woken(slots, id, result), other) == contents(slots, other),
        contents(polled(slots, id, waker), other) == contents(slots, other),
{
    if completed(slots, id) {
        crate::slots::lemma_take_keeps_others(slots, id, other);
    }
}

/// The futures that were created and not yet consumed, each in the slot of its id.
pub struct FutureStates<T> {
    slots: Vec<Option<FutureState<T>>>,
}

impl<T> View for FutureStates<T> {
    type V = Futures<T>;

    closed spec fn view(&self) -> Futures<T> {
        self.slots@
    }
}

impl<T> FutureStates<T> {
    /// No consumed slot stands at the end, so the table is empty when no future is left.
    pub open spec fn wf(&self) -> bool {
        compact(self@)
    }

    pub fn new() -> (states: Self)
        ensures
            states@ == Futures::<T>::empty(),
            states.wf(),
    {
        FutureStates { slots: Vec::new() }
    }

    pub fn len(&self) -> (n: usize)
        ensures
            n == self@.len(),
    {
        self.slots.len()
    }

    /// The state of the future in slot `id`, if it is live.
    pub fn state(&self, id: usize) -> (state: Option<&FutureState<T>>)
        ensures
            match state {
                Some(s) => contents(self@, id as int) == Some(*s),
                None => contents(self@, id as int) is None,
            },
    {
        if id < self.slots.len() {
            self.slots[id].as_ref()
        } else {
            None
        }
    }

    /// Whether the future in slot `id` is still to be completed.
    pub fn is_awaiting(&self, id: usize) -> (b: bool)
        ensures
            b == awaiting(self@, id as int),
    {
        match self.state(id) {
            Some(FutureState::Competed(_)) => false,
            Some(_) => true,
            None => false,
        }
    }
}

/// The guest's handle to one future.
#[derive(Debug)]
pub struct FutureTask<T> {
    pub id: usize,
    pub phantom: core::marker::PhantomData<T>,
}

impl<T> FutureTask<T> {
    /// Creates a future that nobody has signalled or polled; its id is the index of its
    /// slot.
    pub fn new(states: &mut FutureStates<T>) -> (future: Self)
        ensures
            final(states)@ == created(old(states)@),
            future.id == old(states)@.len(),
            awaiting(final(states)@, future.id as int),
            old(states).wf() ==> final(states).wf(),
    {
        states.slots.push(Some(FutureState::Init));
        FutureTask { id: states.slots.len() - 1, phantom: core::marker::PhantomData }
    }

    /// Polls the future with `waker`. A completed future hands its result out and gives
    /// its slot up; any other keeps `waker` and reports "not ready". The second part of
    /// the answer is the waker that is left without use.
    pub fn poll(&self, states: &mut FutureStates<T>, waker: Waker) -> (answer: (
        Poll<T>,
        Option<Waker>,
    ))
        requires
            live(old(states)@, self.id as int),
        ensures
            answer.0 == poll_report(old(states)@, self.id as int),
            answer.1 == poll_leftover(old(states)@, self.id as int, waker),
            final(states)@ == polled(old(states)@, self.id as int, waker),
            answer.0 is Ready ==> !live(final(states)@, self.id as int),
            answer.0 is Pending ==> awaiting(final(states)@, self.id as int),
            old(states).wf() ==> final(states).wf(),
    {
        let ready: bool = match &states.slots[self.id] {
            Some(FutureState::Competed(_)) => true,
            _ => false,
        };
        if ready {
            match take_slot(&mut states.slots, self.id) {
                Some(FutureState::Competed(result)) => (Poll::Ready(result), Some(waker)),
                _ => unreached(),
            }
        } else {
            states.slots.push(Some(FutureState::Pending(waker)));
            let before: Option<FutureState<T>> = states.slots.swap_remove(self.id);
            assert(states@ =~= polled(old(states)@, self.id as int, waker));
            match before {
                Some(FutureState::Pending(held)) => (Poll::Pending, Some(held)),
                _ => (Poll::Pending, None),
            }
        }
    }

    /// Completes the future in slot `future_id` with `result`. The answer is the waker
    /// that the future held: the task behind it is to be polled again.
    pub fn wake(states: &mut FutureStates<T>, future_id: usize, result: T) -> (target: Option<
        Waker,
    >)
        requires
            awaiting(old(states)@, future_id as int),
        ensures
            final(states)@ == woken(old(states)@, future_id as int, result),
            target == wake_target(old(states)@, future_id as int),
            completed(final(states)@, future_id as int),
            old(states).wf() ==> final(states).wf(),
    {
        states.slots.push(Some(FutureState::Competed(result)));
        let before: Option<FutureState<T>> = states.slots.swap_remove(future_id);
        assert(states@ =~= woken(old(states)@, future_id as int, result));
        match before {
            Some(FutureState::Pending(held)) => Some(held),
            _ => None,
        }
    }
}

/// The reference counts of the tasks: `0` marks a task that was freed.
pub type Tasks = Seq<usize>;

/// Task `task` has a reference left.
pub open spec fn alive(tasks: Tasks, task: int) -> bool {
    0 <= task < tasks.len() && tasks[task] > 0
}

/// The counts after one more reference to `task` was made.
pub open spec fn retained(tasks: Tasks, task: int) -> Tasks {
    tasks.update(task, (tasks[task] + 1) as usize)
}

/// The counts after one reference to `task` was given up.
pub open spec fn released(tasks: Tasks, task: int) -> Tasks {
    tasks.update(task, (tasks[task] - 1) as usize)
}

/// A reference that is made and given up again leaves the counts as they were, and a task
/// lives for exactly as long as a reference to it is left.
pub proof fn lemma_references_balance(tasks: Tasks, task: int)
    requires
        alive(tasks, task),
        tasks[task] < usize::MAX,
    ensures
        released(retained(tasks, task), task) == tasks,
        alive(retained(tasks, task), task),
        alive(released(tasks, task), task) == (tasks[task] > 1),
{
    assert(released(retained(tasks, task), task) =~= tasks);
}

/// The template of the call that puts a task back in line: a host timer without delay.
pub open spec fn timer_template() -> Seq<char> {
    "window.setTimeout({},0)"@
}

/// The tasks of the runtime. A task lives from `block_on` until its last reference is
/// given up.
pub struct Runtime {
    strong: Vec<usize>,
}

impl View for Runtime {
    type V = Tasks;

    closed spec fn view(&self) -> Tasks {
        self.strong@
    }
}

impl Runtime {
    pub fn new() -> (runtime: Self)
        ensures
            runtime@ == Tasks::empty(),
    {
        Runtime { strong: Vec::new() }
    }

    /// Takes a computation on as a new task. The waker that comes back is its first
    /// reference: the driver polls the computation with it and then gives it up, so that a
    /// task that nothing waits for is freed at once.
    pub fn block_on(&mut self) -> (waker: Waker)
        ensures
            final(self)@ == old(self)@.push(1),
            waker.task == old(self)@.len(),
            alive(final(self)@, waker.task as int),
    {
        self.strong.push(1);
        Waker { task: self.strong.len() - 1 }
    }

    /// Whether a reference to `task` is left.
    pub fn is_alive(&self, task: usize) -> (b: bool)
        ensures
            b == alive(self@, task as int),
    {
        task < self.strong.len() && self.strong[task] > 0
    }

    /// The number of references to `task`.
    pub fn references(&self, task: usize) -> (count: usize)
        ensures
            count == if task < self@.len() {
                self@[task as int]
            } else {
                0
            },
    {
        if task < self.strong.len() {
            self.strong[task]
        } else {
            0
        }
    }

    /// One more reference to the task of `waker`.
    pub fn clone_waker(&mut self, waker: &Waker) -> (clone: Waker)
        requires
            alive(old(self)@, waker.task as int),
            old(self)@[waker.task as int] < usize::MAX,
        ensures
            final(self)@ == retained(old(self)@, waker.task as int),
            clone == *waker,
    {
        let count: usize = self.strong[waker.task];
        self.strong.set(waker.task, count + 1);
        Waker { task: waker.task }
    }

    /// Gives one reference up. The answer says whether it was the last, by which the task
    /// is freed.
    pub fn drop_waker(&mut self, waker: Waker) -> (freed: bool)
        requires
            alive(old(self)@, waker.task as int),
        ensures
            final(self)@ == released(old(self)@, waker.task as int),
            freed == !alive(final(self)@, waker.task as int),
    {
        let count: usize = self.strong[waker.task];
        self.strong.set(waker.task, count - 1);
        count == 1
    }

    /// Wakes the task of `waker`: it is not polled now, but put in line behind a host
    /// timer without delay, whose callback is `function_ref`. The reference goes on to
    /// that callback, for the poll that it will make.
    pub fn wake(js: &mut Js, waker: Waker, function_ref: ObjectRef) -> (held: Waker)
        ensures
            held == waker,
            final(js)@ == old(js)@.push(
                Call::Invoke {
                    code: routine(timer_template(), 1),
                    params: seq![Value::Ref(function_ref.0)],
                },
            ),
    {
        proof {
            reveal_strlit("window.setTimeout({},0)");
            reveal_with_fuel(markers_from, 24);
        }
        let mut params: Vec<JsValue> = Vec::new();
        params.push(JsValue::Ref(function_ref));
        assert(crate::invoke::views(params@) =~= seq![Value::Ref(function_ref.0)]);
        js.invoke("window.setTimeout({},0)", params);
        waker
    }
}

} // verus!
