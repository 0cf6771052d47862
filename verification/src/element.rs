//! Elements of the host's document, built by asking the host one operation at a time.

use vstd::prelude::*;
use vstd::string::StringExecFns;
use vstd::utf8::encode_utf8;
use crate::callbacks::add_event_listener;
use crate::callbacks::Callbacks;
use crate::js::free;
use crate::js::invocation;
use crate::js::invoke;
use crate::js::short;
use crate::js::views;
use crate::js::Call;
use crate::js::Host;
use crate::js::JsValue;
use crate::js::ObjectRef;
use crate::js::Value;
use crate::template::markers_from;

verus! {

/// The call that adds `child` at the end of `parent`.
pub open spec fn append_child(parent: u32, child: u32) -> Call {
    invocation("{}.appendChild({})"@, seq![Value::Object(parent), Value::Object(child)])
}

/// The call that takes `element` out of the document.
pub open spec fn remove_call(element: u32) -> Call {
    invocation("{}.remove()"@, seq![Value::Object(element)])
}

/// The call that empties `parent`.
pub open spec fn clear(parent: u32) -> Call {
    invocation("{}.innerHTML = {}"@, seq![Value::Object(parent), Value::String(Seq::empty())])
}

/// The calls that add each of `children` at the end of `parent`, in order.
pub open spec fn append_children(parent: u32, children: Seq<u32>) -> Seq<Call> {
    Seq::new(children.len(), |i: int| append_child(parent, children[i]))
}

fn object(handle: &ObjectRef) -> (value: JsValue)
    ensures
        value@ == Value::Object(handle@),
{
    JsValue::Object(handle.clone())
}

fn string(text: &str) -> (value: JsValue)
    ensures
        value@ == Value::String(text@),
{
    JsValue::String(String::from_str(text))
}

fn one(first: JsValue) -> (params: Vec<JsValue>)
    ensures
        views(params@) == seq![first@],
{
    let mut params: Vec<JsValue> = Vec::new();
    params.push(first);
    assert(views(params@) =~= seq![first@]);
    params
}

fn two(first: JsValue, second: JsValue) -> (params: Vec<JsValue>)
    ensures
        views(params@) == seq![first@, second@],
{
    let mut params: Vec<JsValue> = Vec::new();
    params.push(first);
    params.push(second);
    assert(views(params@) =~= seq![first@, second@]);
    params
}

fn three(first: JsValue, second: JsValue, third: JsValue) -> (params: Vec<JsValue>)
    ensures
        views(params@) == seq![first@, second@, third@],
{
    let mut params: Vec<JsValue> = Vec::new();
    params.push(first);
    params.push(second);
    params.push(third);
    assert(views(params@) =~= seq![first@, second@, third@]);
    params
}

/// An element of the host's document.
#[derive(Debug)]
pub struct Elem {
    pub element: ObjectRef,
    pub callbacks: Vec<ObjectRef>,
}

impl View for Elem {
    type V = u32;

    open spec fn view(&self) -> u32 {
        self.element@
    }
}

/// The ids of `elements`, in order.
pub open spec fn ids(elements: Seq<&Elem>) -> Seq<u32> {
    elements.map_values(|e: &Elem| e@)
}

impl Elem {
    /// Wraps the element that the host made in reply to `create_element`.
    pub fn new(created: JsValue) -> (elem: Self)
        requires
            created@ is Object,
        ensures
            Value::Object(elem@) == created@,
            elem.callbacks@.len() == 0,
    {
        match created {
            JsValue::Object(element) => Elem { element, callbacks: Vec::new() },
            _ => unreached(),
        }
    }

    /// Wraps the element that the host found in reply to `query_selector`, if it found
    /// one.
    pub fn select(found: JsValue) -> (result: Result<Self, &'static str>)
        ensures
            match found@ {
                Value::Object(id) => result is Ok && result->Ok_0@ == id,
                _ => result is Err && result->Err_0@ == "query did not match any element"@,
            },
    {
        match found.to_ref() {
            Ok(element) => Ok(Elem::from(element)),
            Err(_) => Err("query did not match any element"),
        }
    }

    /// Adds `child` behind the last child of the element.
    pub fn append(self, host: &mut Host, child: &Elem) -> (elem: Self)
        ensures
            elem == self,
            final(host)@ == old(host)@.push(
                invocation("{}.append({})"@, seq![Value::Object(self@), Value::Object(child@)]),
            ),
    {
        proof {
            reveal_strlit("{}.append({})");
            reveal_with_fuel(markers_from, 16);
        }
        let params: Vec<JsValue> = two(object(&self.element), object(&child.element));
        invoke(host, "{}.append({})", params.as_slice());
        self
    }

    /// Takes the element out of the document and gives its handle up: the host frees the
    /// object if no other handle to it is left.
    pub fn remove(self, host: &mut Host)
        ensures
            final(host)@ == old(host)@.push(remove_call(self@)) || final(host)@ == old(
                host,
            )@.push(remove_call(self@)).push(Call::FreeObject { id: self@ }),
    {
        proof {
            reveal_strlit("{}.remove()");
            reveal_with_fuel(markers_from, 14);
        }
        {
            let params: Vec<JsValue> = one(object(&self.element));
            invoke(host, "{}.remove()", params.as_slice());
        }
        free(host, self.element);
    }

    /// Sets the attribute `name` of the element to `value`.
    pub fn attr(self, host: &mut Host, name: &str, value: &str) -> (elem: Self)
        requires
            short(name@),
            short(value@),
        ensures
            elem == self,
            final(host)@ == old(host)@.push(
                invocation(
                    "{}.setAttribute({},{})"@,
                    seq![Value::Object(self@), Value::String(name@), Value::String(value@)],
                ),
            ),
    {
        proof {
            reveal_strlit("{}.setAttribute({},{})");
            reveal_with_fuel(markers_from, 26);
        }
        let params: Vec<JsValue> = three(object(&self.element), string(name), string(value));
        invoke(host, "{}.setAttribute({},{})", params.as_slice());
        self
    }

    /// Adds the classes that `class` names, separated by blanks, to the element.
    pub fn class(self, host: &mut Host, class: &str) -> (elem: Self)
        requires
            short(class@),
        ensures
            elem == self,
            final(host)@ == old(host)@.push(
                invocation(
                    "{}.classList.add(...{}.split(' '))"@,
                    seq![Value::Object(self@), Value::String(class@)],
                ),
            ),
    {
        proof {
            reveal_strlit("{}.classList.add(...{}.split(' '))");
            reveal_with_fuel(markers_from, 38);
        }
        let params: Vec<JsValue> = two(object(&self.element), string(class));
        invoke(host, "{}.classList.add(...{}.split(' '))", params.as_slice());
        self
    }

    /// Replaces what the element holds by `children`, in order.
    pub fn children(self, host: &mut Host, children: &[&Self]) -> (elem: Self)
        ensures
            elem == self,
            final(host)@ == old(host)@.push(clear(self@)) + append_children(
                self@,
                ids(children@),
            ),
    {
        proof {
            reveal_strlit("{}.innerHTML = {}");
            reveal_strlit("{}.appendChild({})");
            reveal_strlit("");
            reveal_with_fuel(markers_from, 22);
            assert(encode_utf8(Seq::<char>::empty()) =~= Seq::<u8>::empty());
            assert(""@ =~= Seq::<char>::empty());
        }
        let params: Vec<JsValue> = two(object(&self.element), string(""));
        invoke(host, "{}.innerHTML = {}", params.as_slice());
        let ghost cleared = host@;
        let mut i: usize = 0;
        assert(cleared + append_children(self@, ids(children@).take(0)) =~= cleared);
        while i < children.len()
            invariant
                i <= children@.len(),
                crate::template::markers("{}.appendChild({})"@) == 2,
                host@ == cleared + append_children(self@, ids(children@).take(i as int)),
            decreases children@.len() - i,
        {
            let ghost before = host@;
            let params: Vec<JsValue> = two(object(&self.element), object(&children[i].element));
            invoke(host, "{}.appendChild({})", params.as_slice());
            proof {
                let earlier = ids(children@).take(i as int);
                let now = ids(children@).take(i + 1);
                assert(now[i as int] == children@[i as int]@);
                assert(append_children(self@, now) =~= append_children(self@, earlier).push(
                    append_child(self@, children@[i as int]@),
                ));
                assert(host@ =~= cleared + append_children(self@, now));
            }
            i = i + 1;
        }
        assert(ids(children@).take(children@.len() as int) =~= ids(children@));
        self
    }

    /// Has `callback` called on each `event` of the element.
    pub fn on<H>(
        self,
        callbacks: &mut Callbacks<H>,
        host: &mut Host,
        event: &str,
        callback: H,
    ) -> (elem: Self)
        requires
            old(callbacks)@.len() <= u32::MAX,
        ensures
            elem == self,
            final(callbacks)@ == old(callbacks)@.push(callback),
            final(host)@ == old(host)@.push(
                Call::AddEventListener {
                    object_id: self@,
                    event: event@,
                    callback_id: old(callbacks)@.len() as u32,
                },
            ),
    {
        add_event_listener(callbacks, host, &self.element, event, callback);
        self
    }

    /// Asks the host for a text node that holds `text`. The reply is what `text` adds to
    /// an element.
    pub fn text_node(host: &mut Host, text: &str)
        requires
            short(text@),
        ensures
            final(host)@ == old(host)@.push(
                invocation("return document.createTextNode({})"@, seq![Value::String(text@)]),
            ),
    {
        proof {
            reveal_strlit("return document.createTextNode({})");
            reveal_with_fuel(markers_from, 38);
        }
        let params: Vec<JsValue> = one(string(text));
        invoke(host, "return document.createTextNode({})", params.as_slice());
    }

    /// Adds the text node `node`, the host's reply to `text_node`, behind the last child
    /// of the element, and gives the handle of the node up.
    pub fn text(self, host: &mut Host, node: JsValue) -> (elem: Self)
        requires
            node@ is Object,
        ensures
            elem == self,
            final(host)@ == old(host)@.push(append_child(self@, node@->Object_0)) || final(host)@
                == old(host)@.push(append_child(self@, node@->Object_0)).push(
                Call::FreeObject { id: node@->Object_0 },
            ),
    {
        proof {
            reveal_strlit("{}.appendChild({})");
            reveal_with_fuel(markers_from, 22);
        }
        let handle: ObjectRef = match node {
            JsValue::Object(handle) => handle,
            _ => unreached(),
        };
        {
            let params: Vec<JsValue> = two(object(&self.element), object(&handle));
            invoke(host, "{}.appendChild({})", params.as_slice());
        }
        free(host, handle);
        self
    }
}

impl From<&ObjectRef> for Elem {
    fn from(value: &ObjectRef) -> (elem: Self)
        ensures
            elem@ == value@,
            elem.callbacks@.len() == 0,
    {
        Self { element: value.clone(), callbacks: Vec::new() }
    }
}

impl vstd::std_specs::convert::FromSpecImpl<&ObjectRef> for Elem {
    open spec fn obeys_from_spec() -> bool {
        false
    }

    open spec fn from_spec(value: &ObjectRef) -> Self {
        arbitrary()
    }
}

impl From<ObjectRef> for Elem {
    fn from(value: ObjectRef) -> (elem: Self)
        ensures
            elem.element == value,
            elem.callbacks@.len() == 0,
    {
        Self { element: value, callbacks: Vec::new() }
    }
}

impl vstd::std_specs::convert::FromSpecImpl<ObjectRef> for Elem {
    open spec fn obeys_from_spec() -> bool {
        false
    }

    open spec fn from_spec(value: ObjectRef) -> Self {
        arbitrary()
    }
}

} // verus!
