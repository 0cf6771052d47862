use std::cell::RefCell;
use std::rc::Rc;

use tinyweb::handlers::cleanup_callback;
use tinyweb::handlers::create_callback;
use tinyweb::handlers::create_empty_callback;
use tinyweb::handlers::finish_callback;
use tinyweb::handlers::handle_callback;
use tinyweb::handlers::handle_empty_callback;
use tinyweb::handlers::insert_callback;
use tinyweb::handlers::release_object;
use tinyweb::handlers::request_callback;
use tinyweb::handlers::request_empty_callback;
use tinyweb::handlers::create_future;
use tinyweb::handlers::create_future_callback;
use tinyweb::handlers::read_payload;
use tinyweb::handlers::Payload;
use tinyweb::handlers::remove_callback;
use tinyweb::handlers::try_handle_callback;
use tinyweb::handlers::CallbackHandlers;
use tinyweb::handlers::Dispatch;
use tinyweb::handlers::Expects;
use tinyweb::invoke::HostCall;
use tinyweb::invoke::Js;
use tinyweb::invoke::ObjectRef;
use tinyweb::runtime::FutureState;
use tinyweb::runtime::FutureStates;
use tinyweb::runtime::FutureTask;
use tinyweb::runtime::Waker;

type Handler = Box<dyn FnMut(Option<ObjectRef>)>;

/// Dispatches one reentry as the host's export does: the handler runs while the registry
/// is not borrowed, and goes back afterwards.
fn dispatch(
    registry: &mut CallbackHandlers<Handler>,
    futures: &mut FutureStates<()>,
    js: &mut Js,
    callback_id: u32,
    param: i32,
) {
    match handle_callback(registry, futures, callback_id, param) {
        Dispatch::Call { mut handler, payload } => {
            handler(payload);
            finish_callback(registry, js, callback_id, param, handler, false);
        }
        Dispatch::Wake { .. } => {}
    }
}

#[test]
fn test_handler() {
    let mut registry: CallbackHandlers<Handler> = CallbackHandlers::new();
    let mut futures: FutureStates<()> = FutureStates::new();
    let mut js = Js::new();

    let function_ref = ObjectRef::new(0);

    // add listener
    let has_run = Rc::new(RefCell::new(false));
    let has_run_clone = has_run.clone();
    insert_callback(
        &mut registry,
        function_ref,
        Box::new(move |_| {
            *has_run_clone.borrow_mut() = true;
        }),
    );

    // call listener
    dispatch(&mut registry, &mut futures, &mut js, *function_ref, -1);
    assert_eq!(*has_run.borrow(), true);

    // remove listener
    remove_callback(&mut registry, function_ref);
    let count = registry.len();
    assert_eq!(count, 0);
}

#[test]
fn handler_observes_the_object_that_the_payload_names() {
    let mut registry: CallbackHandlers<Handler> = CallbackHandlers::new();
    let mut futures: FutureStates<()> = FutureStates::new();
    let mut js = Js::new();

    let seen: Rc<RefCell<Vec<Option<ObjectRef>>>> = Default::default();
    let seen_clone = seen.clone();
    let function_ref =
        create_callback(&mut registry, 3, Box::new(move |o| seen_clone.borrow_mut().push(o)));
    assert_eq!(function_ref, ObjectRef(3));
    assert_eq!(registry.expects(3), Some(Expects::Object));

    dispatch(&mut registry, &mut futures, &mut js, 3, 7);
    assert_eq!(*seen.borrow(), vec![Some(ObjectRef(7))]);

    // the handler is in place again, and the object was released after it returned
    assert!(registry.contains(3));
    assert!(!registry.is_running());
    let calls = js.take_calls();
    assert_eq!(calls.len(), 1);
    assert!(matches!(calls[0], HostCall::Release { id: 7 }));
}

#[test]
fn kept_object_is_not_released() {
    let mut registry: CallbackHandlers<Handler> = CallbackHandlers::new();
    let mut futures: FutureStates<()> = FutureStates::new();
    let mut js = Js::new();
    insert_callback(&mut registry, ObjectRef(1), Box::new(|_| {}));
    match handle_callback(&mut registry, &mut futures, 1, 9) {
        Dispatch::Call { mut handler, payload } => {
            assert_eq!(payload, Some(ObjectRef(9)));
            handler(payload);
            finish_callback(&mut registry, &mut js, 1, 9, handler, true);
        }
        Dispatch::Wake { .. } => panic!("a payload of 9 is no completion"),
    }
    assert!(js.take_calls().is_empty());
    assert_eq!(registry.len(), 1);
}

#[test]
fn empty_callback_is_called_with_nothing() {
    let mut registry: CallbackHandlers<Handler> = CallbackHandlers::new();
    let mut futures: FutureStates<()> = FutureStates::new();
    let mut js = Js::new();
    let seen: Rc<RefCell<Vec<Option<ObjectRef>>>> = Default::default();
    let seen_clone = seen.clone();
    create_empty_callback(&mut registry, 4, Box::new(move |o| seen_clone.borrow_mut().push(o)));
    assert_eq!(registry.expects(4), Some(Expects::Nothing));

    dispatch(&mut registry, &mut futures, &mut js, 4, -1);
    dispatch(&mut registry, &mut futures, &mut js, 4, 12);
    assert_eq!(*seen.borrow(), vec![None, None]);

    // the object that came with the second call was released all the same
    let calls = js.take_calls();
    assert_eq!(calls.len(), 1);
    assert!(matches!(calls[0], HostCall::Release { id: 12 }));
}

#[test]
fn completion_payload_wakes_the_future_and_calls_no_handler() {
    let mut registry: CallbackHandlers<Handler> = CallbackHandlers::new();
    let mut futures: FutureStates<()> = FutureStates::new();
    let called = Rc::new(RefCell::new(false));
    let called_clone = called.clone();
    insert_callback(&mut registry, ObjectRef(0), Box::new(move |_| *called_clone.borrow_mut() = true));

    let future = FutureTask::new(&mut futures);
    let (_, leftover) = future.poll(&mut futures, Waker { task: 5 });
    assert!(leftover.is_none());

    match handle_callback(&mut registry, &mut futures, future.id as u32, -2) {
        Dispatch::Wake { target } => assert_eq!(target, Some(Waker { task: 5 })),
        Dispatch::Call { .. } => panic!("a completion calls no handler"),
    }
    assert!(matches!(futures.state(future.id), Some(FutureState::Competed(()))));
    assert_eq!(*called.borrow(), false);
    assert_eq!(registry.len(), 1);
    assert!(!registry.is_running());
}

#[test]
fn empty_reentry_completes_the_future() {
    let mut futures: FutureStates<()> = FutureStates::new();
    let future = FutureTask::new(&mut futures);
    assert_eq!(handle_empty_callback(&mut futures, future.id as u32, 0), None);
    assert!(matches!(futures.state(future.id), Some(FutureState::Competed(()))));
}

#[test]
fn handler_that_removes_itself_does_not_come_back() {
    let mut registry: CallbackHandlers<Handler> = CallbackHandlers::new();
    let mut futures: FutureStates<()> = FutureStates::new();
    let mut js = Js::new();
    insert_callback(&mut registry, ObjectRef(2), Box::new(|_| {}));

    match handle_callback(&mut registry, &mut futures, 2, -1) {
        Dispatch::Call { mut handler, payload } => {
            assert!(registry.is_running());
            assert!(!registry.contains(2));
            handler(payload);
            // a one-shot handler removes itself while it runs
            cleanup_callback(&mut registry, &mut js, ObjectRef(2));
            finish_callback(&mut registry, &mut js, 2, -1, handler, false);
        }
        Dispatch::Wake { .. } => panic!("a payload of -1 is no completion"),
    }
    assert_eq!(registry.len(), 0);
    assert!(!registry.is_running());
    let calls = js.take_calls();
    assert_eq!(calls.len(), 1);
    assert!(matches!(calls[0], HostCall::Release { id: 2 }));
}

#[test]
fn handler_may_register_callbacks_while_it_runs() {
    let mut registry: CallbackHandlers<Handler> = CallbackHandlers::new();
    let mut futures: FutureStates<()> = FutureStates::new();
    let mut js = Js::new();
    insert_callback(&mut registry, ObjectRef(1), Box::new(|_| {}));

    match handle_callback(&mut registry, &mut futures, 1, -1) {
        Dispatch::Call { mut handler, payload } => {
            handler(payload);
            insert_callback(&mut registry, ObjectRef(8), Box::new(|_| {}));
            finish_callback(&mut registry, &mut js, 1, -1, handler, false);
        }
        Dispatch::Wake { .. } => panic!("a payload of -1 is no completion"),
    }
    assert!(registry.contains(1));
    assert!(registry.contains(8));
    assert_eq!(registry.len(), 2);
}

#[test]
fn registry_returns_to_its_size_after_mount_and_unmount() {
    let mut registry: CallbackHandlers<Handler> = CallbackHandlers::new();
    let mut futures: FutureStates<()> = FutureStates::new();
    let mut js = Js::new();
    assert_eq!(registry.len(), 0);

    // mount
    for id in [4u32, 9, 2] {
        create_callback(&mut registry, id, Box::new(|_| {}));
    }
    assert_eq!(registry.len(), 3);

    // interact
    dispatch(&mut registry, &mut futures, &mut js, 9, 1);
    dispatch(&mut registry, &mut futures, &mut js, 4, 0);
    assert_eq!(registry.len(), 3);

    // unmount
    for id in [2u32, 9, 4] {
        cleanup_callback(&mut registry, &mut js, ObjectRef(id));
    }
    assert_eq!(registry.len(), 0);
    assert!(!registry.contains(4));
}

#[test]
fn object_with_a_registered_callback_is_not_released() {
    let mut registry: CallbackHandlers<Handler> = CallbackHandlers::new();
    let mut futures: FutureStates<()> = FutureStates::new();
    let mut js = Js::new();
    insert_callback(&mut registry, ObjectRef(1), Box::new(|_| {}));
    insert_callback(&mut registry, ObjectRef(5), Box::new(|_| {}));

    // the payload names an object under whose id a callback is registered
    dispatch(&mut registry, &mut futures, &mut js, 1, 5);
    assert!(js.take_calls().is_empty());

    assert!(!release_object(&registry, &mut js, ObjectRef(5)));
    assert!(js.take_calls().is_empty());
    assert!(release_object(&registry, &mut js, ObjectRef(6)));
    let calls = js.take_calls();
    assert!(matches!(calls[0], HostCall::Release { id: 6 }));

    // while a handler is lent out, the object of its trampoline stays as well
    match handle_callback(&mut registry, &mut futures, 1, -1) {
        Dispatch::Call { handler, .. } => {
            assert!(!release_object(&registry, &mut js, ObjectRef(1)));
            finish_callback(&mut registry, &mut js, 1, -1, handler, false);
        }
        Dispatch::Wake { .. } => panic!("a payload of -1 is no completion"),
    }
    assert!(js.take_calls().is_empty());
}

#[test]
fn trampolines_are_asked_of_the_host() {
    let mut js = Js::new();
    request_callback(&mut js);
    request_empty_callback(&mut js);
    create_future_callback(&mut js, 3);
    let calls = js.take_calls();
    assert_eq!(calls.len(), 3);
    match &calls[0] {
        HostCall::Invoke { code, params } => {
            assert!(code.starts_with("function() { const handler = (e) => { objects.push(e);"));
            assert!(code.ends_with("return objectId; }"));
            assert!(code.contains("handle_callback(objectId,callbackObjectId)"));
            assert!(params.is_empty());
        }
        other => panic!("unexpected call {:?}", other),
    }
    match &calls[1] {
        HostCall::Invoke { code, params } => {
            assert!(code.contains("handle_callback(objectId,-1)"));
            assert!(params.is_empty());
        }
        other => panic!("unexpected call {:?}", other),
    }
    match &calls[2] {
        HostCall::Invoke { code, params } => {
            assert_eq!(
                code,
                "function(p0) { return () => { wasmModule.instance.exports.handle_callback(p0,-2); } }"
            );
            assert_eq!(Js::encode(params), [vec![2], 3f64.to_le_bytes().to_vec()].concat());
        }
        other => panic!("unexpected call {:?}", other),
    }
}

#[test]
fn payload_is_an_object_or_one_of_two_sentinels() {
    assert_eq!(read_payload(0), Some(Payload::Object(ObjectRef(0))));
    assert_eq!(read_payload(7), Some(Payload::Object(ObjectRef(7))));
    assert_eq!(read_payload(i32::MAX), Some(Payload::Object(ObjectRef(i32::MAX as u32))));
    assert_eq!(read_payload(-1), Some(Payload::Nothing));
    assert_eq!(read_payload(-2), Some(Payload::Completion));
    assert_eq!(read_payload(-3), None);
    assert_eq!(read_payload(i32::MIN), None);
}

#[test]
fn future_is_made_with_the_function_that_completes_it() {
    let mut js = Js::new();
    let mut futures: FutureStates<()> = FutureStates::new();
    FutureTask::new(&mut futures);
    let future = create_future(&mut js, &mut futures);
    assert_eq!(future.id, 1);
    assert!(futures.is_awaiting(1));
    let calls = js.take_calls();
    assert_eq!(calls.len(), 1);
    match &calls[0] {
        HostCall::Invoke { code, params } => {
            assert!(code.contains("handle_callback(p0,-2)"));
            assert_eq!(Js::encode(params), [vec![2], 1f64.to_le_bytes().to_vec()].concat());
        }
        other => panic!("unexpected call {:?}", other),
    }
}

#[test]
fn reentry_that_finds_nothing_changes_nothing() {
    let mut registry: CallbackHandlers<Handler> = CallbackHandlers::new();
    let mut futures: FutureStates<()> = FutureStates::new();
    let mut js = Js::new();
    create_callback(&mut registry, 1, Box::new(|_| {}));

    // no handler under the id, no future under the id, no such payload
    assert!(try_handle_callback(&mut registry, &mut futures, 2, -1).is_none());
    assert!(try_handle_callback(&mut registry, &mut futures, 0, -2).is_none());
    assert!(try_handle_callback(&mut registry, &mut futures, 1, -3).is_none());
    // the handler takes an object, always
    assert!(try_handle_callback(&mut registry, &mut futures, 1, -1).is_none());
    assert_eq!(registry.len(), 1);
    assert!(registry.is_wf());

    // one handler runs at a time
    match try_handle_callback(&mut registry, &mut futures, 1, 3) {
        Some(Dispatch::Call { handler, payload }) => {
            assert_eq!(payload, Some(ObjectRef(3)));
            create_callback(&mut registry, 2, Box::new(|_| {}));
            assert!(try_handle_callback(&mut registry, &mut futures, 2, 0).is_none());
            assert!(registry.is_wf());
            finish_callback(&mut registry, &mut js, 1, 3, handler, false);
        }
        _ => panic!("the handler is in place and takes the object"),
    }
    assert!(try_handle_callback(&mut registry, &mut futures, 2, 0).is_some());

    // a future that was completed is completed no more
    let future = FutureTask::new(&mut futures);
    assert!(try_handle_callback(&mut registry, &mut futures, future.id as u32, -2).is_some());
    assert!(try_handle_callback(&mut registry, &mut futures, future.id as u32, -2).is_none());
}
