use std::cell::RefCell;
use std::rc::Rc;

use tinyweb::callbacks::add_event_listener;
use tinyweb::callbacks::call_callback;
use tinyweb::callbacks::Callbacks;
use tinyweb::js::Host;
use tinyweb::js::HostCall;
use tinyweb::js::ObjectRef;

type Listener = Box<dyn FnMut(ObjectRef)>;

#[test]
fn listener_observes_the_event_object() {
    let mut callbacks: Callbacks<Listener> = Callbacks::new();
    let mut host = Host::new();
    let seen: Rc<RefCell<Vec<u32>>> = Default::default();

    let seen_clone = seen.clone();
    let button = ObjectRef::new(20);
    add_event_listener(
        &mut callbacks,
        &mut host,
        &button,
        "click",
        Box::new(move |event| seen_clone.borrow_mut().push(event.id())),
    );
    let calls = host.take_calls();
    assert_eq!(calls.len(), 1);
    assert!(matches!(
        &calls[0],
        HostCall::AddEventListener { object_id: 20, event, callback_id: 0 } if event == "click"
    ));

    call_callback(&mut callbacks, &mut host, 0, 7);
    call_callback(&mut callbacks, &mut host, 0, 8);
    assert_eq!(*seen.borrow(), vec![7, 8]);
    assert_eq!(callbacks.len(), 1);

    // the listener kept no handle: each event object is freed after the call
    let calls = host.take_calls();
    assert_eq!(calls.len(), 2);
    assert!(matches!(calls[0], HostCall::FreeObject { id: 7 }));
    assert!(matches!(calls[1], HostCall::FreeObject { id: 8 }));
}

#[test]
fn listeners_get_ids_in_order() {
    let mut callbacks: Callbacks<Listener> = Callbacks::new();
    let mut host = Host::new();
    let seen: Rc<RefCell<Vec<(u8, u32)>>> = Default::default();
    for name in 0..3u8 {
        let seen_clone = seen.clone();
        add_event_listener(
            &mut callbacks,
            &mut host,
            &ObjectRef::new(1),
            "input",
            Box::new(move |event| seen_clone.borrow_mut().push((name, event.id()))),
        );
    }
    let ids: Vec<u32> = host
        .take_calls()
        .iter()
        .map(|call| match call {
            HostCall::AddEventListener { callback_id, .. } => *callback_id,
            other => panic!("unexpected call {:?}", other),
        })
        .collect();
    assert_eq!(ids, vec![0, 1, 2]);

    call_callback(&mut callbacks, &mut host, 2, 5);
    call_callback(&mut callbacks, &mut host, 1, 6);
    assert_eq!(*seen.borrow(), vec![(2, 5), (1, 6)]);
}

#[test]
fn unknown_callback_is_reported_to_the_console() {
    let mut callbacks: Callbacks<Listener> = Callbacks::new();
    let mut host = Host::new();
    call_callback(&mut callbacks, &mut host, 1234, 1);
    let calls = host.take_calls();
    assert_eq!(calls.len(), 1);
    match &calls[0] {
        HostCall::Invoke { code, params } => {
            assert_eq!(code, "function(p0){console.error(p0)}");
            let message = "could not find callback with id 1234";
            let expected =
                [vec![1, 0, 0, 0, 0x06, message.len() as u8, 0, 0, 0], message.as_bytes().to_vec()]
                    .concat();
            assert_eq!(params, &expected);
        }
        other => panic!("unexpected call {:?}", other),
    }
}

#[test]
fn event_object_that_the_listener_kept_is_not_freed() {
    let mut callbacks: Callbacks<Listener> = Callbacks::new();
    let mut host = Host::new();
    let kept: Rc<RefCell<Vec<ObjectRef>>> = Default::default();
    let kept_clone = kept.clone();
    add_event_listener(
        &mut callbacks,
        &mut host,
        &ObjectRef::new(1),
        "click",
        Box::new(move |event| kept_clone.borrow_mut().push(event)),
    );
    host.take_calls();

    call_callback(&mut callbacks, &mut host, 0, 7);
    assert!(host.take_calls().is_empty());

    // the last holder gives it up
    let event = kept.borrow_mut().pop().unwrap();
    assert_eq!(event.release(), Some(7));
}
