use std::cell::RefCell;
use std::rc::Rc;

use tinyweb::invoke::HostCall;
use tinyweb::invoke::Js;
use tinyweb::invoke::ObjectRef;
use tinyweb::runtime::FutureState;
use tinyweb::runtime::FutureStates;
use tinyweb::runtime::FutureTask;
use tinyweb::runtime::Poll;
use tinyweb::runtime::Runtime;
use tinyweb::runtime::Waker;

/// Gives up the waker that a poll left without use.
fn give_up(runtime: &mut Runtime, leftover: Option<Waker>) {
    if let Some(waker) = leftover {
        runtime.drop_waker(waker);
    }
}

#[test]
fn test_await() {
    let mut states: FutureStates<bool> = FutureStates::new();

    // create future
    let future = FutureTask::new(&mut states);
    assert_eq!(future.id, 0);
    assert_eq!(matches!(states.state(future.id), Some(FutureState::Init)), true);

    // wake future
    FutureTask::wake(&mut states, future.id, true);
    assert_eq!(matches!(states.state(future.id), Some(FutureState::Competed(true))), true);

    // block on future
    let mut runtime = Runtime::new();
    let has_run = Rc::new(RefCell::new(false));
    let has_run_clone = has_run.clone();
    let waker = runtime.block_on();
    let context = runtime.clone_waker(&waker);
    let (poll, leftover) = future.poll(&mut states, context);
    if let Poll::Ready(value) = poll {
        *has_run_clone.borrow_mut() = value;
    }
    give_up(&mut runtime, leftover);
    let freed = runtime.drop_waker(waker);
    assert_eq!(*has_run.borrow(), true);

    // the future gave its slot up and the task is gone
    assert!(states.state(future.id).is_none());
    assert!(freed);
}

#[test]
fn future_is_pending_until_woken_and_ready_once() {
    let mut states: FutureStates<u32> = FutureStates::new();
    let mut runtime = Runtime::new();
    let future = FutureTask::new(&mut states);
    let waker = runtime.block_on();
    let task = waker.task;

    // any number of polls before the wake report "not ready"
    for round in 0..3 {
        let context = runtime.clone_waker(&waker);
        let (poll, leftover) = future.poll(&mut states, context);
        assert!(matches!(poll, Poll::Pending));
        // the first poll displaces nothing, each later one the waker of the poll before
        assert_eq!(leftover.is_some(), round > 0);
        give_up(&mut runtime, leftover);
        assert!(states.is_awaiting(future.id));
        assert_eq!(runtime.references(task), 2);
    }

    // the wake hands the held waker out and completes the future
    let target = FutureTask::wake(&mut states, future.id, 7);
    assert_eq!(target, Some(Waker { task }));
    assert!(!states.is_awaiting(future.id));
    assert!(matches!(states.state(future.id), Some(FutureState::Competed(7))));

    // exactly one poll reports "ready", and the slot is gone after it
    let (poll, leftover) = future.poll(&mut states, target.unwrap());
    assert!(matches!(poll, Poll::Ready(7)));
    give_up(&mut runtime, leftover);
    assert!(states.state(future.id).is_none());
    assert_eq!(states.len(), 0);

    assert!(runtime.drop_waker(waker));
    assert!(!runtime.is_alive(task));
}

#[test]
fn futures_keep_their_ids_while_others_are_consumed() {
    let mut states: FutureStates<u8> = FutureStates::new();
    let first = FutureTask::new(&mut states);
    let second = FutureTask::new(&mut states);
    assert_eq!((first.id, second.id), (0, 1));

    FutureTask::wake(&mut states, first.id, 1);
    let (poll, _) = first.poll(&mut states, Waker { task: 0 });
    assert!(matches!(poll, Poll::Ready(1)));

    // the second future is still found under its id
    assert!(states.is_awaiting(second.id));
    FutureTask::wake(&mut states, second.id, 2);
    let (poll, _) = second.poll(&mut states, Waker { task: 0 });
    assert!(matches!(poll, Poll::Ready(2)));
    assert_eq!(states.len(), 0);
}

#[test]
fn task_lives_while_a_reference_is_left() {
    let mut runtime = Runtime::new();
    let first = runtime.block_on();
    let second = runtime.block_on();
    assert_eq!((first.task, second.task), (0, 1));

    let clone = runtime.clone_waker(&first);
    assert_eq!(runtime.references(0), 2);
    assert!(!runtime.drop_waker(first));
    assert!(runtime.is_alive(0));
    assert!(runtime.drop_waker(clone));
    assert!(!runtime.is_alive(0));
    assert_eq!(runtime.references(0), 0);

    // the other task is untouched
    assert_eq!(runtime.references(1), 1);
    assert!(runtime.drop_waker(second));
    assert_eq!(runtime.references(9), 0);
}

#[test]
fn wake_asks_for_a_timer_without_delay() {
    let mut js = Js::new();
    let mut runtime = Runtime::new();
    let waker = runtime.block_on();
    let held = Runtime::wake(&mut js, waker, ObjectRef(5));
    assert_eq!(held, Waker { task: 0 });
    let calls = js.take_calls();
    assert_eq!(calls.len(), 1);
    match &calls[0] {
        HostCall::Invoke { code, params } => {
            assert_eq!(code, "function(p0) { window.setTimeout(p0,0) }");
            assert_eq!(Js::encode(params), vec![7, 5, 0, 0, 0]);
        }
        other => panic!("unexpected call {:?}", other),
    }
    // the reference went on to the timer: the count did not change
    assert_eq!(runtime.references(0), 1);
}

/// A computation that waits for two timers in turn and notes each.
struct TikTok {
    first: Option<FutureTask<()>>,
    second: Option<FutureTask<()>>,
    logs: Rc<RefCell<Vec<&'static str>>>,
}

impl TikTok {
    fn poll(&mut self, states: &mut FutureStates<()>, runtime: &mut Runtime, waker: &Waker) -> bool {
        if let Some(future) = self.first.take() {
            let (poll, leftover) = future.poll(states, runtime.clone_waker(waker));
            give_up(runtime, leftover);
            if matches!(poll, Poll::Pending) {
                self.first = Some(future);
                return false;
            }
            self.logs.borrow_mut().push("tik");
        }
        if let Some(future) = self.second.take() {
            let (poll, leftover) = future.poll(states, runtime.clone_waker(waker));
            give_up(runtime, leftover);
            if matches!(poll, Poll::Pending) {
                self.second = Some(future);
                return false;
            }
            self.logs.borrow_mut().push("tok");
        }
        true
    }
}

#[test]
fn two_timers_in_turn_give_tik_then_tok() {
    let mut js = Js::new();
    let mut states: FutureStates<()> = FutureStates::new();
    let mut runtime = Runtime::new();
    let logs: Rc<RefCell<Vec<&'static str>>> = Default::default();

    let first = FutureTask::new(&mut states);
    let second = FutureTask::new(&mut states);
    let (first_id, second_id) = (first.id, second.id);
    let mut computation = TikTok { first: Some(first), second: Some(second), logs: logs.clone() };

    // block_on: one poll, then the driver's reference is given up
    let waker = runtime.block_on();
    let task = waker.task;
    assert!(!computation.poll(&mut states, &mut runtime, &waker));
    assert!(!runtime.drop_waker(waker));
    assert!(logs.borrow().is_empty());

    // the first timer fires: the wake puts the task in line, and nothing runs yet
    let target = FutureTask::wake(&mut states, first_id, ()).unwrap();
    let timer = Runtime::wake(&mut js, target, ObjectRef(10));
    assert!(logs.borrow().is_empty());
    assert_eq!(js.take_calls().len(), 1);

    // the host runs the timer: the task is polled with the timer's reference
    assert!(!computation.poll(&mut states, &mut runtime, &timer));
    assert!(!runtime.drop_waker(timer));
    assert_eq!(*logs.borrow(), vec!["tik"]);

    // the second timer fires
    let target = FutureTask::wake(&mut states, second_id, ()).unwrap();
    let timer = Runtime::wake(&mut js, target, ObjectRef(11));
    assert_eq!(*logs.borrow(), vec!["tik"]);
    assert!(computation.poll(&mut states, &mut runtime, &timer));
    assert!(runtime.drop_waker(timer));

    assert_eq!(*logs.borrow(), vec!["tik", "tok"]);
    assert!(!runtime.is_alive(task));
    assert_eq!(states.len(), 0);
}
