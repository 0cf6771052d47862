//! The callback registry: guest closures that the host calls back by id.
//!
//! The registry owns the handlers and decides what a reentry comes to. It never runs a
//! handler itself: `handle_callback` lends the handler out, the caller runs it with no
//! borrow of the registry left, and `finish_callback` takes it back. So a handler may
//! register or remove callbacks, its own included, while it runs.

use std::collections::HashMap;
use vstd::prelude::*;
use crate::invoke::routine;
use crate::invoke::Call;
use crate::invoke::Js;
use crate::invoke::JsValue;
use crate::invoke::ObjectRef;
use crate::invoke::Value;
use crate::number::double_bits;
use crate::number::number_from_u32;
use crate::runtime::awaiting;
use crate::runtime::created;
use crate::runtime::wake_target;
use crate::runtime::woken;
use crate::runtime::FutureStates;
use crate::runtime::FutureTask;
use crate::runtime::Waker;
use crate::template::markers_from;

verus! {

/// The payload that stands for "no payload".
pub const NO_PAYLOAD: i32 = -1;

/// The payload that stands for the completion of a future.
pub const FUTURE_COMPLETION: i32 = -2;

/// What a handler expects to be called with.
#[derive(Debug, Clone, Copy, PartialEq, Eq, Structural)]
pub enum Expects {
    /// A host object or nothing, as the host sends it.
    Any,
    /// A host object, always.
    Object,
    /// Nothing; an object that the host sends is not passed on.
    Nothing,
}

/// A handler with what it expects.
pub struct Entry<H> {
    pub handler: H,
    pub expects: Expects,
}

/// The registry as the contracts see it.
pub struct Registry<H> {
    /// The handlers that are in place, by callback id.
    pub handlers: Map<u32, Entry<H>>,
    /// The callback whose handler is lent out, with what it expects.
    pub running: Option<(u32, Expects)>,
}

impl<H> Registry<H> {
    /// The callback `id` can be dispatched: its handler is in place.
    pub open spec fn has(self, id: u32) -> bool {
        self.handlers.contains_key(id)
    }

    /// The registry after `handler` was put in place under `id`. A handler of `id` that
    /// is lent out is replaced with it, and will not come back.
    pub open spec fn inserted(self, id: u32, handler: H, expects: Expects) -> Self {
        Registry {
            handlers: self.handlers.insert(id, Entry { handler, expects }),
            running: if self.running matches Some((r, _)) && r == id {
                None
            } else {
                self.running
            },
        }
    }

    /// The registry after `id` was removed. A handler of `id` that is lent out will not
    /// come back.
    pub open spec fn removed(self, id: u32) -> Self {
        Registry {
            handlers: self.handlers.remove(id),
            running: if self.running matches Some((r, _)) && r == id {
                None
            } else {
                self.running
            },
        }
    }

    /// The registry while the handler of `id` is lent out.
    pub open spec fn lent(self, id: u32) -> Self {
        Registry {
            handlers: self.handlers.remove(id),
            running: Some((id, self.handlers[id].expects)),
        }
    }

    /// The registry after the handler of `id` was handed back: it is put in place again
    /// unless the callback was removed or replaced in the meantime.
    pub open spec fn returned(self, id: u32, handler: H) -> Self {
        match self.running {
            Some((r, expects)) => if r == id {
                Registry {
                    handlers: self.handlers.insert(id, Entry { handler, expects }),
                    running: None,
                }
            } else {
                self
            },
            None => self,
        }
    }

    /// A handler that is lent out is not in place.
    pub open spec fn wf(self) -> bool {
        self.running matches Some((r, _)) ==> !self.handlers.contains_key(r)
    }
}

/// What the payload of a reentry says.
#[derive(Debug, Clone, Copy, PartialEq, Eq, Structural)]
pub enum Payload {
    /// The host object that the callback is called with.
    Object(ObjectRef),
    /// The callback is called with nothing.
    Nothing,
    /// No callback is called: a future was completed.
    Completion,
}

/// What the payload `param` says: a value from zero on is the id of a host object, and
/// two values below zero stand for "no payload" and for the completion of a future. Any
/// other value says nothing.
pub open spec fn payload_of(param: i32) -> Option<Payload> {
    if param >= 0 {
        Some(Payload::Object(ObjectRef(param as u32)))
    } else if param == NO_PAYLOAD {
        Some(Payload::Nothing)
    } else if param == FUTURE_COMPLETION {
        Some(Payload::Completion)
    } else {
        None
    }
}

/// Reads the payload of a reentry.
pub fn read_payload(param: i32) -> (payload: Option<Payload>)
    ensures
        payload == payload_of(param),
{
    if param >= 0 {
        Some(Payload::Object(ObjectRef::new(param as u32)))
    } else if param == NO_PAYLOAD {
        Some(Payload::Nothing)
    } else if param == FUTURE_COMPLETION {
        Some(Payload::Completion)
    } else {
        None
    }
}

/// The object that a payload names, if it names one.
pub open spec fn payload_object(param: i32) -> Option<ObjectRef> {
    if param >= 0 {
        Some(ObjectRef(param as u32))
    } else {
        None
    }
}

/// What a handler is called with for the payload `param`.
pub open spec fn handed(expects: Expects, param: i32) -> Option<ObjectRef> {
    match expects {
        Expects::Nothing => None,
        _ => payload_object(param),
    }
}

/// The payload `param` may be delivered to a handler that expects `expects`.
pub open spec fn deliverable(expects: Expects, param: i32) -> bool {
    match expects {
        Expects::Object => param >= 0,
        _ => param >= NO_PAYLOAD,
    }
}

/// Registry balance, one callback: a handler that is registered under a fresh id and
/// removed again leaves the registry as it was.
pub proof fn lemma_insert_remove_balance<H>(
    registry: Registry<H>,
    id: u32,
    handler: H,
    expects: Expects,
)
    requires
        registry.wf(),
        !registry.has(id),
        !(registry.running matches Some((r, _)) && r == id),
    ensures
        registry.inserted(id, handler, expects).removed(id) == registry,
        registry.inserted(id, handler, expects).wf(),
{
    assert(registry.handlers.insert(id, Entry { handler, expects }).remove(id)
        =~= registry.handlers);
}

/// The registry after each of `entries` was registered, in order.
pub open spec fn mounted<H>(registry: Registry<H>, entries: Seq<(u32, H, Expects)>) -> Registry<H>
    decreases entries.len(),
{
    if entries.len() == 0 {
        registry
    } else {
        mounted(registry, entries.drop_last()).inserted(
            entries.last().0,
            entries.last().1,
            entries.last().2,
        )
    }
}

/// The registry after each of `entries` was removed, the last one first.
pub open spec fn unmounted<H>(registry: Registry<H>, entries: Seq<(u32, H, Expects)>) -> Registry<
    H,
>
    decreases entries.len(),
{
    if entries.len() == 0 {
        registry
    } else {
        unmounted(registry.removed(entries.last().0), entries.drop_last())
    }
}

/// The ids of `entries` are fresh: none is registered, and none occurs twice.
pub open spec fn fresh<H>(registry: Registry<H>, entries: Seq<(u32, H, Expects)>) -> bool {
    &&& forall|i: int| 0 <= i < entries.len() ==> !registry.has(#[trigger] entries[i].0)
    &&& forall|i: int, j: int|
        0 <= i < j < entries.len() ==> #[trigger] entries[i].0 != #[trigger] entries[j].0
}

/// Registry balance: after every registration of a mount was matched by a removal, the
/// registry is what it was before the mount, and so is its size.
pub proof fn lemma_mount_unmount_balance<H>(
    registry: Registry<H>,
    entries: Seq<(u32, H, Expects)>,
)
    requires
        registry.running is None,
        fresh(registry, entries),
    ensures
        unmounted(mounted(registry, entries), entries) == registry,
        mounted(registry, entries).running is None,
        forall|id: u32|
            mounted(registry, entries).has(id) <==> registry.has(id) || exists|i: int|
                0 <= i < entries.len() && #[trigger] entries[i].0 == id,
    decreases entries.len(),
{
    if entries.len() > 0 {
        let earlier = entries.drop_last();
        let last = entries.last();
        lemma_mount_unmount_balance(registry, earlier);
        let before = mounted(registry, earlier);
        assert(!before.has(last.0)) by {
            if before.has(last.0) {
                let i = choose|i: int| 0 <= i < earlier.len() && #[trigger] earlier[i].0 == last.0;
                assert(entries[i].0 == earlier[i].0);
            }
        }
        assert(before.inserted(last.0, last.1, last.2).removed(last.0) == before) by {
            assert(before.handlers.insert(
                last.0,
                Entry { handler: last.1, expects: last.2 },
            ).remove(last.0) =~= before.handlers);
        }
        assert forall|id: u32|
            mounted(registry, entries).has(id) <==> registry.has(id) || exists|i: int|
                0 <= i < entries.len() && #[trigger] entries[i].0 == id by {
            if id == last.0 {
                assert(entries[entries.len() - 1].0 == id);
            } else if before.has(id) && !registry.has(id) {
                let i = choose|i: int| 0 <= i < earlier.len() && #[trigger] earlier[i].0 == id;
                assert(entries[i].0 == id);
            } else if exists|i: int| 0 <= i < entries.len() && #[trigger] entries[i].0 == id {
                let i = choose|i: int| 0 <= i < entries.len() && #[trigger] entries[i].0 == id;
                assert(earlier[i].0 == id);
            }
        }
    }
}

/// The callback registry.
pub struct CallbackHandlers<H> {
    handlers: HashMap<u32, Entry<H>>,
    running: Option<(u32, Expects)>,
}

impl<H> View for CallbackHandlers<H> {
    type V = Registry<H>;

    closed spec fn view(&self) -> Registry<H> {
        Registry { handlers: self.handlers@, running: self.running }
    }
}

impl<H> CallbackHandlers<H> {
    pub fn new() -> (registry: Self)
        ensures
            registry@.handlers == Map::<u32, Entry<H>>::empty(),
            registry@.running is None,
            registry@.wf(),
    {
        CallbackHandlers { handlers: HashMap::new(), running: None }
    }

    /// The number of handlers in place.
    pub fn len(&self) -> (n: usize)
        ensures
            n == self@.handlers.len(),
    {
        self.handlers.len()
    }

    /// Whether a handler is in place under `id`.
    pub fn contains(&self, id: u32) -> (b: bool)
        ensures
            b == self@.has(id),
    {
        self.handlers.contains_key(&id)
    }

    /// What the handler of `id` expects, if it is in place.
    pub fn expects(&self, id: u32) -> (expects: Option<Expects>)
        ensures
            expects == if self@.has(id) {
                Some(self@.handlers[id].expects)
            } else {
                None
            },
    {
        match self.handlers.get(&id) {
            Some(entry) => Some(entry.expects),
            None => None,
        }
    }

    /// Whether the table is in order: a handler that is lent out is not in place. Every
    /// function of this module keeps it so.
    pub fn is_wf(&self) -> (b: bool)
        ensures
            b == self@.wf(),
    {
        match self.running {
            Some((r, _)) => !self.handlers.contains_key(&r),
            None => true,
        }
    }

    /// Whether a handler is lent out.
    pub fn is_running(&self) -> (b: bool)
        ensures
            b == self@.running is Some,
    {
        self.running.is_some()
    }

    fn put(&mut self, id: u32, handler: H, expects: Expects)
        ensures
            final(self)@ == old(self)@.inserted(id, handler, expects),
            old(self)@.wf() ==> final(self)@.wf(),
    {
        match self.running {
            Some((r, _)) => {
                if r == id {
                    self.running = None;
                }
            },
            None => {},
        }
        self.handlers.insert(id, Entry { handler, expects });
    }
}

/// What a reentry from the host comes to.
pub enum Dispatch<H> {
    /// Run `handler` on `payload`, then hand it back with `finish_callback`.
    Call { handler: H, payload: Option<ObjectRef> },
    /// A future was completed. The task behind `target` is to be polled again.
    Wake { target: Option<Waker> },
}

/// The routine that makes the host-side trampoline of a callback that is called with the
/// object of its event. It hands back the id under which the guest is called.
pub open spec fn object_trampoline() -> Seq<char> {
    "const handler = (e) => { objects.push(e); const callbackObjectId = objects.length - 1; wasmModule.instance.exports.handle_callback(objectId,callbackObjectId); }; objects.push(handler); const objectId = objects.length - 1; return objectId;"@
}

/// The routine that makes the host-side trampoline of a callback that is called with
/// nothing. It hands back the id under which the guest is called.
pub open spec fn empty_trampoline() -> Seq<char> {
    "const handler = () => { wasmModule.instance.exports.handle_callback(objectId,-1); }; objects.push(handler); const objectId = objects.length - 1; return objectId;"@
}

/// The routine that makes the host-side trampoline of a future's completion.
pub open spec fn future_trampoline() -> Seq<char> {
    "return () => { wasmModule.instance.exports.handle_callback({},-2); }"@
}

/// Asks the host for the trampoline of a callback that takes the object of its event.
/// The id that the host answers with is what `create_callback` registers the handler
/// under.
pub fn request_callback(js: &mut Js)
    ensures
        final(js)@ == old(js)@.push(
            Call::Invoke { code: routine(object_trampoline(), 0), params: Seq::empty() },
        ),
{
    proof {
        let code = object_trampoline();
        reveal_strlit(
            "const handler = (e) => { objects.push(e); const callbackObjectId = objects.length - 1; wasmModule.instance.exports.handle_callback(objectId,callbackObjectId); }; objects.push(handler); const objectId = objects.length - 1; return objectId;",
        );
        assert(markers_from(code, 200) == 0) by {
            reveal_with_fuel(markers_from, 60);
        }
        assert(markers_from(code, 150) == 0) by {
            reveal_with_fuel(markers_from, 60);
        }
        assert(markers_from(code, 100) == 0) by {
            reveal_with_fuel(markers_from, 60);
        }
        assert(markers_from(code, 50) == 0) by {
            reveal_with_fuel(markers_from, 60);
        }
        assert(markers_from(code, 0) == 0) by {
            reveal_with_fuel(markers_from, 60);
        }
    }
    let params: Vec<JsValue> = Vec::new();
    assert(crate::invoke::views(params@) =~= Seq::<Value>::empty());
    js.invoke(
        "const handler = (e) => { objects.push(e); const callbackObjectId = objects.length - 1; wasmModule.instance.exports.handle_callback(objectId,callbackObjectId); }; objects.push(handler); const objectId = objects.length - 1; return objectId;",
        params,
    );
}

/// Asks the host for the trampoline of a callback that takes nothing. The id that the
/// host answers with is what `create_empty_callback` registers the handler under.
pub fn request_empty_callback(js: &mut Js)
    ensures
        final(js)@ == old(js)@.push(
            Call::Invoke { code: routine(empty_trampoline(), 0), params: Seq::empty() },
        ),
{
    proof {
        let code = empty_trampoline();
        reveal_strlit(
            "const handler = () => { wasmModule.instance.exports.handle_callback(objectId,-1); }; objects.push(handler); const objectId = objects.length - 1; return objectId;",
        );
        assert(markers_from(code, 120) == 0) by {
            reveal_with_fuel(markers_from, 60);
        }
        assert(markers_from(code, 80) == 0) by {
            reveal_with_fuel(markers_from, 60);
        }
        assert(markers_from(code, 40) == 0) by {
            reveal_with_fuel(markers_from, 60);
        }
        assert(markers_from(code, 0) == 0) by {
            reveal_with_fuel(markers_from, 60);
        }
    }
    let params: Vec<JsValue> = Vec::new();
    assert(crate::invoke::views(params@) =~= Seq::<Value>::empty());
    js.invoke(
        "const handler = () => { wasmModule.instance.exports.handle_callback(objectId,-1); }; objects.push(handler); const objectId = objects.length - 1; return objectId;",
        params,
    );
}

/// Asks the host for a function that completes the future `future_id` when it is called.
pub fn create_future_callback(js: &mut Js, future_id: u32)
    ensures
        final(js)@ == old(js)@.push(
            Call::Invoke {
                code: routine(future_trampoline(), 1),
                params: seq![Value::Number(double_bits(future_id as nat) as u64)],
            },
        ),
{
    proof {
        let code = future_trampoline();
        reveal_strlit("return () => { wasmModule.instance.exports.handle_callback({},-2); }");
        assert(markers_from(code, 40) == 1) by {
            reveal_with_fuel(markers_from, 30);
        }
        assert(markers_from(code, 0) == 1) by {
            reveal_with_fuel(markers_from, 42);
        }
    }
    let mut params: Vec<JsValue> = Vec::new();
    params.push(JsValue::Number(number_from_u32(future_id)));
    assert(crate::invoke::views(params@) =~= seq![
        Value::Number(double_bits(future_id as nat) as u64),
    ]);
    js.invoke("return () => { wasmModule.instance.exports.handle_callback({},-2); }", params);
}

/// Makes a future and asks the host for the function that completes it: a host
/// operation that takes this function as its callback becomes a point at which guest
/// logic can wait.
pub fn create_future(js: &mut Js, futures: &mut FutureStates<()>) -> (future: FutureTask<()>)
    requires
        old(futures)@.len() <= u32::MAX,
    ensures
        final(futures)@ == created(old(futures)@),
        future.id == old(futures)@.len(),
        final(js)@ == old(js)@.push(
            Call::Invoke {
                code: routine(future_trampoline(), 1),
                params: seq![Value::Number(double_bits(old(futures)@.len()) as u64)],
            },
        ),
        old(futures).wf() ==> final(futures).wf(),
{
    let future: FutureTask<()> = FutureTask::new(futures);
    create_future_callback(js, future.id as u32);
    future
}

/// Registers `cb` under the id of `function_ref`. It is called with an object or with
/// nothing, as the host sends it.
pub fn insert_callback<H>(registry: &mut CallbackHandlers<H>, function_ref: ObjectRef, cb: H)
    ensures
        final(registry)@ == old(registry)@.inserted(function_ref.0, cb, Expects::Any),
        old(registry)@.wf() ==> final(registry)@.wf(),
{
    registry.put(function_ref.0, cb, Expects::Any);
}

/// Removes the callback of `function_ref` and drops its handler.
pub fn remove_callback<H>(registry: &mut CallbackHandlers<H>, function_ref: ObjectRef)
    ensures
        final(registry)@ == old(registry)@.removed(function_ref.0),
        old(registry)@.wf() ==> final(registry)@.wf(),
{
    match registry.running {
        Some((r, _)) => {
            if r == function_ref.0 {
                registry.running = None;
            }
        },
        None => {},
    }
    registry.handlers.remove(&function_ref.0);
}

/// Removes the callback of `function_ref` and asks the host to release its trampoline.
pub fn cleanup_callback<H>(
    registry: &mut CallbackHandlers<H>,
    js: &mut Js,
    function_ref: ObjectRef,
)
    ensures
        final(registry)@ == old(registry)@.removed(function_ref.0),
        final(js)@ == old(js)@.push(Call::Release { id: function_ref.0 }),
        old(registry)@.wf() ==> final(registry)@.wf(),
{
    remove_callback(registry, function_ref);
    js.deallocate(function_ref);
}

/// Registers `handler` under the id `object_id` of the trampoline that the host made for
/// it. The handler is called with the object that the host sends, always.
pub fn create_callback<H>(registry: &mut CallbackHandlers<H>, object_id: u32, handler: H) -> (
    function_ref: ObjectRef
)
    ensures
        function_ref.0 == object_id,
        final(registry)@ == old(registry)@.inserted(object_id, handler, Expects::Object),
        old(registry)@.wf() ==> final(registry)@.wf(),
{
    registry.put(object_id, handler, Expects::Object);
    ObjectRef::new(object_id)
}

/// Registers `handler` under the id `object_id` of the trampoline that the host made for
/// it. The handler is called with nothing.
pub fn create_empty_callback<H>(
    registry: &mut CallbackHandlers<H>,
    object_id: u32,
    handler: H,
) -> (function_ref: ObjectRef)
    ensures
        function_ref.0 == object_id,
        final(registry)@ == old(registry)@.inserted(object_id, handler, Expects::Nothing),
        old(registry)@.wf() ==> final(registry)@.wf(),
{
    registry.put(object_id, handler, Expects::Nothing);
    ObjectRef::new(object_id)
}

/// The reentry `(callback_id, param)` can be dispatched: the payload is an object id or
/// one of the two sentinels, no other handler is running, and it finds what it is for,
/// a future that awaits completion or a handler that takes the payload.
pub open spec fn dispatchable<H>(
    registry: Registry<H>,
    futures: crate::runtime::Futures<()>,
    callback_id: u32,
    param: i32,
) -> bool {
    if param == FUTURE_COMPLETION {
        awaiting(futures, callback_id as int)
    } else {
        &&& registry.running is None
        &&& registry.has(callback_id)
        &&& deliverable(registry.handlers[callback_id].expects, param)
    }
}

/// Dispatches one reentry from the host. A completion is routed to the future
/// `callback_id`; any other payload lends the handler of `callback_id` out, with what it
/// is to be called with.
pub fn handle_callback<H>(
    registry: &mut CallbackHandlers<H>,
    futures: &mut FutureStates<()>,
    callback_id: u32,
    param: i32,
) -> (dispatch: Dispatch<H>)
    requires
        old(registry)@.wf(),
        dispatchable(old(registry)@, old(futures)@, callback_id, param),
    ensures
        final(registry)@.wf(),
        old(futures).wf() ==> final(futures).wf(),
        param == FUTURE_COMPLETION ==> {
            &&& final(registry)@ == old(registry)@
            &&& final(futures)@ == woken(old(futures)@, callback_id as int, ())
            &&& dispatch == Dispatch::<H>::Wake {
                target: wake_target(old(futures)@, callback_id as int),
            }
        },
        param != FUTURE_COMPLETION ==> {
            &&& final(registry)@ == old(registry)@.lent(callback_id)
            &&& final(futures)@ == old(futures)@
            &&& dispatch == Dispatch::Call {
                handler: old(registry)@.handlers[callback_id].handler,
                payload: handed(old(registry)@.handlers[callback_id].expects, param),
            }
        },
{
    if param == FUTURE_COMPLETION {
        let target: Option<Waker> = FutureTask::wake(futures, callback_id as usize, ());
        return Dispatch::Wake { target };
    }
    let entry: Entry<H> = registry.handlers.remove(&callback_id).unwrap();
    registry.running = Some((callback_id, entry.expects));
    let payload: Option<ObjectRef> = match entry.expects {
        Expects::Nothing => None,
        _ => if param >= 0 {
            Some(ObjectRef::new(param as u32))
        } else {
            None
        },
    };
    Dispatch::Call { handler: entry.handler, payload }
}

/// Dispatches one reentry if it can be dispatched, as `handle_callback` does; a reentry
/// that finds nothing to be for gives `None` and changes nothing.
pub fn try_handle_callback<H>(
    registry: &mut CallbackHandlers<H>,
    futures: &mut FutureStates<()>,
    callback_id: u32,
    param: i32,
) -> (dispatch: Option<Dispatch<H>>)
    requires
        old(registry)@.wf(),
    ensures
        final(registry)@.wf(),
        old(futures).wf() ==> final(futures).wf(),
        dispatch is Some == dispatchable(old(registry)@, old(futures)@, callback_id, param),
        dispatch is None ==> final(registry)@ == old(registry)@ && final(futures)@ == old(
            futures,
        )@,
        dispatch matches Some(d) ==> {
            &&& param == FUTURE_COMPLETION ==> {
                &&& final(registry)@ == old(registry)@
                &&& final(futures)@ == woken(old(futures)@, callback_id as int, ())
                &&& d == Dispatch::<H>::Wake {
                    target: wake_target(old(futures)@, callback_id as int),
                }
            }
            &&& param != FUTURE_COMPLETION ==> {
                &&& final(registry)@ == old(registry)@.lent(callback_id)
                &&& final(futures)@ == old(futures)@
                &&& d == Dispatch::Call {
                    handler: old(registry)@.handlers[callback_id].handler,
                    payload: handed(old(registry)@.handlers[callback_id].expects, param),
                }
            }
        },
{
    let ready: bool = if param == FUTURE_COMPLETION {
        futures.is_awaiting(callback_id as usize)
    } else if registry.is_running() {
        false
    } else {
        match registry.expects(callback_id) {
            Some(Expects::Object) => param >= 0,
            Some(_) => param >= NO_PAYLOAD,
            None => false,
        }
    };
    if ready {
        Some(handle_callback(registry, futures, callback_id, param))
    } else {
        None
    }
}

/// What the host is asked when the object `id` is given up: its release, unless a callback
/// is registered under that id, whose trampoline must stay.
pub open spec fn released<H>(registry: Registry<H>, calls: Seq<Call>, id: u32) -> Seq<Call> {
    if registry.has(id) || (registry.running matches Some((r, _)) && r == id) {
        calls
    } else {
        calls.push(Call::Release { id })
    }
}

/// Gives the object behind `object` up: asks the host to release it, unless a callback
/// is still registered under its id. The answer says whether the release was asked.
pub fn release_object<H>(registry: &CallbackHandlers<H>, js: &mut Js, object: ObjectRef) -> (asked:
    bool)
    ensures
        final(js)@ == released(registry@, old(js)@, object.0),
        asked == (final(js)@ != old(js)@),
        asked == !(registry@.has(object.0) || (registry@.running matches Some((r, _)) && r
            == object.0)),
{
    let lent: bool = match registry.running {
        Some((r, _)) => r == object.0,
        None => false,
    };
    if lent || registry.handlers.contains_key(&object.0) {
        false
    } else {
        js.deallocate(object);
        assert(js@.len() != old(js)@.len());
        true
    }
}

/// What the end of a dispatch asks of the host: the release of the object that the
/// payload named, unless the handler kept it or a callback is registered under its id.
pub open spec fn released_after<H>(
    registry: Registry<H>,
    calls: Seq<Call>,
    param: i32,
    kept: bool,
) -> Seq<Call> {
    if param >= 0 && !kept {
        released(registry, calls, param as u32)
    } else {
        calls
    }
}

/// Ends the dispatch of `(callback_id, param)`: takes `handler` back, and has the object
/// that the payload named released unless the handler `kept` it as a handle of its own.
pub fn finish_callback<H>(
    registry: &mut CallbackHandlers<H>,
    js: &mut Js,
    callback_id: u32,
    param: i32,
    handler: H,
    kept: bool,
)
    ensures
        final(registry)@ == old(registry)@.returned(callback_id, handler),
        final(js)@ == released_after(final(registry)@, old(js)@, param, kept),
        final(registry)@.running is None || final(registry)@.running == old(registry)@.running,
        old(registry)@.wf() ==> final(registry)@.wf(),
{
    match registry.running {
        Some((r, expects)) => {
            if r == callback_id {
                registry.running = None;
                registry.handlers.insert(callback_id, Entry { handler, expects });
            }
        },
        None => {},
    }
    if param >= 0 && !kept {
        release_object(registry, js, ObjectRef::new(param as u32));
    }
}

/// A dispatch that runs to its end leaves the registry as it was: the handler that was
/// lent out is in place again, and nothing is running.
pub proof fn lemma_dispatch_balance<H>(registry: Registry<H>, id: u32)
    requires
        registry.wf(),
        registry.running is None,
        registry.has(id),
    ensures
        registry.lent(id).wf(),
        registry.lent(id).returned(id, registry.handlers[id].handler) == registry,
{
    let entry = registry.handlers[id];
    assert(registry.handlers.remove(id).insert(id, entry) =~= registry.handlers);
}

/// Completes the future `callback_id`: the reentry of a host operation that hands
/// nothing back.
pub fn handle_empty_callback(
    futures: &mut FutureStates<()>,
    callback_id: u32,
    _allocation_id: u32,
) -> (target: Option<Waker>)
    requires
        awaiting(old(futures)@, callback_id as int),
    ensures
        final(futures)@ == woken(old(futures)@, callback_id as int, ()),
        target == wake_target(old(futures)@, callback_id as int),
        old(futures).wf() ==> final(futures).wf(),
{
    FutureTask::wake(futures, callback_id as usize, ())
}

} // verus!
