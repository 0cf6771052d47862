//! Event listeners: guest closures that the host calls on the events of an object.

use vstd::prelude::*;
use vstd::string::StringExecFns;
use vstd::utf8::encode_utf8;
use vstd::utf8::is_ascii_chars;
use vstd::utf8::is_ascii_chars_encode_utf8;
use crate::console::console_error;
use crate::js::free;
use crate::js::invocation;
use crate::js::Call;
use crate::js::Host;
use crate::js::HostCall;
use crate::js::ObjectRef;
use crate::js::Value;
use crate::template::decimal;
use crate::template::push_decimal;

verus! {

/// Every listener of this kind takes every event object.
pub open spec fn unconditional<H: FnMut(ObjectRef)>() -> bool {
    forall|listener: H, event: ObjectRef| call_requires(listener, (event,))
}

/// The listeners, each under the id that is its position.
pub struct Callbacks<H> {
    listeners: Vec<H>,
}

impl<H> View for Callbacks<H> {
    type V = Seq<H>;

    closed spec fn view(&self) -> Seq<H> {
        self.listeners@
    }
}

impl<H> Callbacks<H> {
    pub fn new() -> (callbacks: Self)
        ensures
            callbacks@ == Seq::<H>::empty(),
    {
        Callbacks { listeners: Vec::new() }
    }

    pub fn len(&self) -> (n: usize)
        ensures
            n == self@.len(),
    {
        self.listeners.len()
    }
}

/// What is reported to the host's console when the callback `id` is not known.
pub open spec fn missing_callback(id: u32) -> Seq<char> {
    "could not find callback with id "@ + decimal(id as nat)
}

proof fn lemma_decimal_is_ascii(n: nat)
    ensures
        is_ascii_chars(decimal(n)),
        decimal(n).len() <= n / 10 + 1,
    decreases n,
{
    if n >= 10 {
        lemma_decimal_is_ascii(n / 10);
    }
}

proof fn lemma_missing_callback_fits(id: u32)
    ensures
        encode_utf8(missing_callback(id)).len() <= u32::MAX,
{
    reveal_strlit("could not find callback with id ");
    lemma_decimal_is_ascii(id as nat);
    let text = missing_callback(id);
    assert(is_ascii_chars(text));
    is_ascii_chars_encode_utf8(text);
}

/// Stores `callback` under a new id and asks the host to call that id on each `event` of
/// `object`.
pub fn add_event_listener<H>(
    callbacks: &mut Callbacks<H>,
    host: &mut Host,
    object: &ObjectRef,
    event: &str,
    callback: H,
)
    requires
        old(callbacks)@.len() <= u32::MAX,
    ensures
        final(callbacks)@ == old(callbacks)@.push(callback),
        final(host)@ == old(host)@.push(
            Call::AddEventListener {
                object_id: object@,
                event: event@,
                callback_id: old(callbacks)@.len() as u32,
            },
        ),
{
    let callback_id: u32 = callbacks.listeners.len() as u32;
    callbacks.listeners.push(callback);
    host.ask(
        HostCall::AddEventListener {
            object_id: object.id(),
            event: String::from_str(event),
            callback_id,
        },
    );
}

/// Calls the listener `id` on the event object `event_id`, and has the object freed when
/// the listener has returned, unless the listener kept a handle to it. An id that no
/// listener has is reported to the host's console, and nothing is called.
pub fn call_callback<H: FnMut(ObjectRef)>(
    callbacks: &mut Callbacks<H>,
    host: &mut Host,
    id: u32,
    event_id: u32,
)
    requires
        unconditional::<H>(),
    ensures
        final(callbacks)@.len() == old(callbacks)@.len(),
        forall|other: int|
            0 <= other < old(callbacks)@.len() && other != id ==> #[trigger] final(callbacks)@[other]
                == old(callbacks)@[other],
        id < old(callbacks)@.len() ==> {
            &&& final(host)@ == old(host)@ || final(host)@ == old(host)@.push(
                Call::FreeObject { id: event_id },
            )
            &&& exists|event: ObjectRef|
                event@ == event_id && call_ensures(old(callbacks)@[id as int], (event,), ())
        },
        id >= old(callbacks)@.len() ==> {
            &&& final(callbacks)@ == old(callbacks)@
            &&& final(host)@ == old(host)@.push(
                invocation("console.error({})"@, seq![Value::String(missing_callback(id))]),
            )
        },
{
    let index: usize = id as usize;
    if index < callbacks.listeners.len() {
        let event: ObjectRef = ObjectRef::new(event_id);
        let given: ObjectRef = event.clone();
        let ghost before = callbacks.listeners@[index as int];
        let listener: &mut H = &mut callbacks.listeners[index];
        listener(given);
        assert(given@ == event_id && call_ensures(before, (given,), ()));
        free(host, event);
    } else {
        let mut text: String = String::from_str("could not find callback with id ");
        push_decimal(&mut text, index);
        proof {
            lemma_missing_callback_fits(id);
        }
        console_error(host, text.as_str());
    }
}

} // verus!
