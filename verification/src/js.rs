//! The buffer protocol: values travel in both directions as one self-delimiting byte
//! string, a count followed by tagged values.

use std::rc::Rc;
use vstd::prelude::*;
use vstd::slice::slice_subrange;
use vstd::slice::slice_to_vec;
use vstd::std_specs::convert::FromSpecImpl;
use vstd::string::StringExecFns;
use vstd::utf8::encode_utf8;
use crate::bytes::from_twos_complement;
use crate::bytes::le_bytes;
use crate::bytes::le_value;
use crate::bytes::lemma_le_bytes_len;
use crate::bytes::lemma_le_value_bound;
use crate::bytes::lemma_le_value_of_bytes;
use crate::bytes::lemma_twos_complement_inverse;
use crate::bytes::lemma_radix_values;
use crate::bytes::of_twos_complement;
use crate::bytes::push_le;
use crate::bytes::read_le;
use crate::bytes::to_twos_complement;
use crate::bytes::twos_complement;
use crate::number::double_bits;
use crate::number::double_bits_signed;
use crate::number::number_from_i32;
use crate::number::number_from_u32;
use crate::template::markers;
use crate::template::param_list;
use crate::template::push_param_list;
use crate::template::push_substituted;
use crate::template::substituted;
use crate::text::from_utf8_lossy;
use crate::text::lemma_text_of_encoded;
use crate::text::text_of;

verus! {

/// The owner of a host-resident object: whoever holds it answers for its release.
#[derive(Debug)]
pub struct ObjectId(pub u32);

/// A shared handle to a host-resident object. Clones share one owner, so the object can
/// be released when the last of them is given up.
#[derive(Debug)]
pub struct ObjectRef(Rc<ObjectId>);

impl View for ObjectRef {
    type V = u32;

    closed spec fn view(&self) -> u32 {
        self.0.0
    }
}

/// `Rc::clone`: one more handle to the same owner. Trusted: the clone is the same value.
#[verifier::external_body]
fn share(owner: &Rc<ObjectId>) -> (shared: Rc<ObjectId>)
    ensures
        shared == *owner,
{
    Rc::clone(owner)
}

impl Clone for ObjectRef {
    fn clone(&self) -> (handle: Self)
        ensures
            handle@ == self@,
    {
        ObjectRef(share(&self.0))
    }
}

impl ObjectRef {
    pub fn new(id: u32) -> (handle: Self)
        ensures
            handle@ == id,
    {
        Self(Rc::new(ObjectId(id)))
    }

    pub fn id(&self) -> (id: u32)
        ensures
            id == self@,
    {
        self.0.0
    }

    /// Gives the handle up. The id comes back when this was the last handle to the
    /// object: the host is then to be told to free it.
    pub fn release(self) -> (freed: Option<u32>)
        ensures
            freed matches Some(id) ==> id == self@,
    {
        // Whether the owner comes free is for the counted pointer to say.
        let owner: Option<ObjectId> = Rc::into_inner(self.0);
        let freed: Option<u32> = ObjectRef::freed_id(owner);
        freed
    }
}

/// A value that crosses the boundary. A number is held as the bit pattern of its
/// double-precision form.
#[derive(Debug)]
pub enum JsValue {
    Undefined,
    Null,
    Bool(bool),
    Number(u64),
    BigInt(i64),
    String(String),
    Object(ObjectRef),
    Blob(Vec<u8>),
    Array(ObjectRef),
}

/// What a `JsValue` stands for.
pub enum Value {
    Undefined,
    Null,
    Bool(bool),
    Number(u64),
    BigInt(i64),
    String(Seq<char>),
    Object(u32),
    Blob(Seq<u8>),
    Array(u32),
}

impl View for JsValue {
    type V = Value;

    open spec fn view(&self) -> Value {
        match self {
            JsValue::Undefined => Value::Undefined,
            JsValue::Null => Value::Null,
            JsValue::Bool(b) => Value::Bool(*b),
            JsValue::Number(bits) => Value::Number(*bits),
            JsValue::BigInt(i) => Value::BigInt(*i),
            JsValue::String(s) => Value::String(s@),
            JsValue::Object(r) => Value::Object(r@),
            JsValue::Blob(b) => Value::Blob(b@),
            JsValue::Array(r) => Value::Array(r@),
        }
    }
}

impl From<&str> for JsValue {
    fn from(s: &str) -> (value: Self)
        ensures
            value@ == Value::String(s@),
    {
        Self::String(String::from_str(s))
    }
}

impl FromSpecImpl<&str> for JsValue {
    open spec fn obeys_from_spec() -> bool {
        false
    }

    open spec fn from_spec(s: &str) -> Self {
        arbitrary()
    }
}

impl From<String> for JsValue {
    fn from(s: String) -> (value: Self) {
        Self::String(s)
    }
}

impl FromSpecImpl<String> for JsValue {
    open spec fn obeys_from_spec() -> bool {
        true
    }

    open spec fn from_spec(s: String) -> Self {
        JsValue::String(s)
    }
}

impl From<u32> for JsValue {
    fn from(n: u32) -> (value: Self) {
        Self::Number(number_from_u32(n))
    }
}

impl FromSpecImpl<u32> for JsValue {
    open spec fn obeys_from_spec() -> bool {
        true
    }

    open spec fn from_spec(n: u32) -> Self {
        JsValue::Number(double_bits(n as nat) as u64)
    }
}

impl From<i32> for JsValue {
    fn from(n: i32) -> (value: Self) {
        Self::Number(number_from_i32(n))
    }
}

impl FromSpecImpl<i32> for JsValue {
    open spec fn obeys_from_spec() -> bool {
        true
    }

    open spec fn from_spec(n: i32) -> Self {
        JsValue::Number(double_bits_signed(n as int) as u64)
    }
}

impl From<ObjectRef> for JsValue {
    fn from(s: ObjectRef) -> (value: Self) {
        Self::Object(s)
    }
}

impl FromSpecImpl<ObjectRef> for JsValue {
    open spec fn obeys_from_spec() -> bool {
        true
    }

    open spec fn from_spec(s: ObjectRef) -> Self {
        JsValue::Object(s)
    }
}

impl From<&ObjectRef> for JsValue {
    fn from(s: &ObjectRef) -> (value: Self)
        ensures
            value@ == Value::Object(s@),
    {
        Self::Object(s.clone())
    }
}

impl FromSpecImpl<&ObjectRef> for JsValue {
    open spec fn obeys_from_spec() -> bool {
        false
    }

    open spec fn from_spec(s: &ObjectRef) -> Self {
        arbitrary()
    }
}

impl From<bool> for JsValue {
    fn from(n: bool) -> (value: Self) {
        Self::Bool(n)
    }
}

impl FromSpecImpl<bool> for JsValue {
    open spec fn obeys_from_spec() -> bool {
        true
    }

    open spec fn from_spec(n: bool) -> Self {
        JsValue::Bool(n)
    }
}

impl From<Vec<u8>> for JsValue {
    fn from(s: Vec<u8>) -> (value: Self) {
        Self::Blob(s)
    }
}

impl FromSpecImpl<Vec<u8>> for JsValue {
    open spec fn obeys_from_spec() -> bool {
        true
    }

    open spec fn from_spec(s: Vec<u8>) -> Self {
        JsValue::Blob(s)
    }
}

/// What each of `values` stands for.
pub open spec fn views(values: Seq<JsValue>) -> Seq<Value> {
    values.map_values(|v: JsValue| v@)
}

/// Text that can be written with a four-byte length.
pub open spec fn short(text: Seq<char>) -> bool {
    encode_utf8(text).len() <= u32::MAX
}

impl Value {
    /// A length prefix has four bytes: text and blobs must fit it.
    pub open spec fn fits(self) -> bool {
        match self {
            Value::String(s) => short(s),
            Value::Blob(b) => b.len() <= u32::MAX,
            _ => true,
        }
    }

    /// The wire form: a tag byte, then the payload of the kind.
    pub open spec fn encoded(self) -> Seq<u8> {
        match self {
            Value::Undefined => seq![0u8],
            Value::Null => seq![1u8],
            Value::Bool(b) => if b {
                seq![2u8]
            } else {
                seq![3u8]
            },
            Value::Number(bits) => seq![4u8] + le_bytes(bits as nat, 8),
            Value::BigInt(i) => seq![5u8] + le_bytes(twos_complement(i), 8),
            Value::String(s) => seq![6u8] + le_bytes(encode_utf8(s).len(), 4) + encode_utf8(s),
            Value::Array(id) => seq![7u8] + le_bytes(id as nat, 4),
            Value::Object(id) => seq![8u8] + le_bytes(id as nat, 4),
            Value::Blob(b) => seq![9u8] + le_bytes(b.len(), 4) + b,
        }
    }
}

/// The wire forms of `values`, one after the other.
pub open spec fn encoded_all(values: Seq<Value>) -> Seq<u8>
    decreases values.len(),
{
    if values.len() == 0 {
        Seq::empty()
    } else {
        encoded_all(values.drop_last()) + values.last().encoded()
    }
}

/// A list of values can be written: its count and every length fit four bytes.
pub open spec fn encodable(values: Seq<Value>) -> bool {
    &&& values.len() <= u32::MAX
    &&& forall|i: int| 0 <= i < values.len() ==> (#[trigger] values[i]).fits()
}

/// The wire form of a list of values: their count, then each of them.
pub open spec fn encoded_list(values: Seq<Value>) -> Seq<u8> {
    le_bytes(values.len(), 4) + encoded_all(values)
}

/// Why a byte string is no list of values.
pub enum Fault {
    /// A value starts with a tag that stands for no kind.
    InvalidType,
    /// The bytes end before the value that they announce.
    Truncated,
}

/// The number in the `width` bytes of `bytes` from `at` on.
pub open spec fn field(bytes: Seq<u8>, at: int, width: int) -> nat {
    le_value(bytes.subrange(at, at + width))
}

/// The value that starts at `at`, with the number of bytes that it takes.
pub open spec fn parse_value(bytes: Seq<u8>, at: int) -> Result<(Value, int), Fault> {
    if at < 0 || at >= bytes.len() {
        Err(Fault::Truncated)
    } else {
        let tag = bytes[at];
        if tag == 0 {
            Ok((Value::Undefined, 1))
        } else if tag == 1 {
            Ok((Value::Null, 1))
        } else if tag == 2 {
            Ok((Value::Bool(true), 1))
        } else if tag == 3 {
            Ok((Value::Bool(false), 1))
        } else if tag == 4 || tag == 5 {
            if at + 9 > bytes.len() {
                Err(Fault::Truncated)
            } else if tag == 4 {
                Ok((Value::Number(field(bytes, at + 1, 8) as u64), 9))
            } else {
                Ok((Value::BigInt(from_twos_complement(field(bytes, at + 1, 8) as u64)), 9))
            }
        } else if tag == 7 || tag == 8 {
            if at + 5 > bytes.len() {
                Err(Fault::Truncated)
            } else if tag == 7 {
                Ok((Value::Array(field(bytes, at + 1, 4) as u32), 5))
            } else {
                Ok((Value::Object(field(bytes, at + 1, 4) as u32), 5))
            }
        } else if tag == 6 || tag == 9 {
            if at + 5 > bytes.len() {
                Err(Fault::Truncated)
            } else {
                let length = field(bytes, at + 1, 4);
                if at + 5 + length > bytes.len() {
                    Err(Fault::Truncated)
                } else {
                    let body = bytes.subrange(at + 5, at + 5 + length);
                    if tag == 6 {
                        Ok((Value::String(text_of(body)), (5 + length) as int))
                    } else {
                        Ok((Value::Blob(body), (5 + length) as int))
                    }
                }
            }
        } else {
            Err(Fault::InvalidType)
        }
    }
}

/// `done`, followed by what is still to come.
pub open spec fn followed_by(done: Seq<Value>, rest: Result<Seq<Value>, Fault>) -> Result<
    Seq<Value>,
    Fault,
> {
    match rest {
        Ok(values) => Ok(done + values),
        Err(fault) => Err(fault),
    }
}

/// The `count` values that start at `at`, or the first fault met on the way.
pub open spec fn parse_values(bytes: Seq<u8>, at: int, count: nat) -> Result<Seq<Value>, Fault>
    decreases count,
{
    if count == 0 {
        Ok(Seq::empty())
    } else {
        match parse_value(bytes, at) {
            Err(fault) => Err(fault),
            Ok((value, size)) => followed_by(
                seq![value],
                parse_values(bytes, at + size, (count - 1) as nat),
            ),
        }
    }
}

/// The list of values that `bytes` starts with. Bytes after the list are not read.
pub open spec fn parse(bytes: Seq<u8>) -> Result<Seq<Value>, Fault> {
    if bytes.len() < 4 {
        Err(Fault::Truncated)
    } else {
        parse_values(bytes, 4, field(bytes, 0, 4))
    }
}

/// The message that stands for a fault.
pub open spec fn message(fault: Fault) -> Seq<char> {
    match fault {
        Fault::InvalidType => "invalid type"@,
        Fault::Truncated => "truncated buffer"@,
    }
}

/// Whether a list of values can be written: its count and every length fit four bytes.
pub fn encodable_values(values: &[JsValue]) -> (fits: bool)
    ensures
        fits == encodable(views(values@)),
{
    if values.len() > u32::MAX as usize {
        return false;
    }
    let mut i: usize = 0;
    while i < values.len()
        invariant
            i <= values@.len(),
            values@.len() <= u32::MAX,
            forall|k: int| 0 <= k < i ==> (#[trigger] views(values@)[k]).fits(),
        decreases values@.len() - i,
    {
        let fits: bool = match &values[i] {
            JsValue::String(s) => s.as_str().as_bytes().len() <= u32::MAX as usize,
            JsValue::Blob(b) => b.len() <= u32::MAX as usize,
            _ => true,
        };
        assert(views(values@)[i as int] == values@[i as int]@);
        if !fits {
            return false;
        }
        i = i + 1;
    }
    true
}

/// Writes a list of values in wire form.
pub fn serialize(values: &[JsValue]) -> (buffer: Vec<u8>)
    requires
        encodable(views(values@)),
    ensures
        buffer@ == encoded_list(views(values@)),
{
    let mut buffer: Vec<u8> = Vec::new();
    push_le(&mut buffer, values.len() as u64, 4);
    let mut i: usize = 0;
    assert(views(values@).take(0) =~= Seq::<Value>::empty());
    while i < values.len()
        invariant
            i <= values@.len(),
            encodable(views(values@)),
            buffer@ == le_bytes(values@.len(), 4) + encoded_all(views(values@).take(i as int)),
        decreases values@.len() - i,
    {
        let ghost before = buffer@;
        let ghost value = values@[i as int]@;
        assert(views(values@)[i as int] == value);
        assert(value.fits());
        match &values[i] {
            JsValue::Undefined => {
                buffer.push(0);
            },
            JsValue::Null => {
                buffer.push(1);
            },
            JsValue::Bool(b) => {
                buffer.push(if *b { 2 } else { 3 });
            },
            JsValue::Number(bits) => {
                buffer.push(4);
                push_le(&mut buffer, *bits, 8);
            },
            JsValue::BigInt(n) => {
                buffer.push(5);
                push_le(&mut buffer, to_twos_complement(*n), 8);
            },
            JsValue::String(s) => {
                buffer.push(6);
                let text: &[u8] = s.as_str().as_bytes();
                push_le(&mut buffer, text.len() as u64, 4);
                buffer.extend_from_slice(text);
            },
            JsValue::Array(r) => {
                buffer.push(7);
                push_le(&mut buffer, r.id() as u64, 4);
            },
            JsValue::Object(r) => {
                buffer.push(8);
                push_le(&mut buffer, r.id() as u64, 4);
            },
            JsValue::Blob(v) => {
                buffer.push(9);
                push_le(&mut buffer, v.len() as u64, 4);
                buffer.extend_from_slice(v.as_slice());
            },
        }
        proof {
            let earlier = views(values@).take(i as int);
            let now = views(values@).take(i + 1);
            assert(now.drop_last() =~= earlier);
            assert(now.last() == value);
            assert(buffer@ =~= before + value.encoded());
            assert(buffer@ =~= le_bytes(values@.len(), 4) + encoded_all(now));
        }
        i = i + 1;
    }
    assert(views(values@).take(values@.len() as int) =~= views(values@));
    buffer
}

/// Reads the list of values that `buffer` starts with.
pub fn deserialize(buffer: &[u8]) -> (result: Result<Vec<JsValue>, &'static str>)
    ensures
        match parse(buffer@) {
            Ok(values) => result is Ok && views(result->Ok_0@) == values,
            Err(fault) => result is Err && result->Err_0@ == message(fault),
        },
{
    let total: usize = buffer.len();
    if total < 4 {
        return Err("truncated buffer");
    }
    let count: u64 = read_le(buffer, 0, 4);
    let mut values: Vec<JsValue> = Vec::new();
    let mut i: usize = 4;
    let mut k: u64 = 0;
    assert(views(values@) =~= Seq::<Value>::empty());
    while k < count
        invariant
            4 <= i <= total,
            total == buffer@.len(),
            k <= count,
            count == field(buffer@, 0, 4),
            parse(buffer@) == followed_by(
                views(values@),
                parse_values(buffer@, i as int, (count - k) as nat),
            ),
        decreases count - k,
    {
        let ghost done = views(values@);
        let ghost rest = parse_values(buffer@, i as int, (count - k) as nat);
        if i >= total {
            return Err("truncated buffer");
        }
        let tag: u8 = buffer[i];
        let left: usize = total - i;
        let size: usize;
        let value: JsValue;
        if tag == 0 {
            size = 1;
            value = JsValue::Undefined;
        } else if tag == 1 {
            size = 1;
            value = JsValue::Null;
        } else if tag == 2 {
            size = 1;
            value = JsValue::Bool(true);
        } else if tag == 3 {
            size = 1;
            value = JsValue::Bool(false);
        } else if tag == 4 || tag == 5 {
            if left < 9 {
                return Err("truncated buffer");
            }
            let pattern: u64 = read_le(buffer, i + 1, 8);
            size = 9;
            if tag == 4 {
                value = JsValue::Number(pattern);
            } else {
                value = JsValue::BigInt(of_twos_complement(pattern));
            }
        } else if tag == 7 || tag == 8 {
            if left < 5 {
                return Err("truncated buffer");
            }
            let id: u64 = read_le(buffer, i + 1, 4);
            proof {
                lemma_le_value_bound(buffer@.subrange(i + 1, i + 5));
                lemma_radix_values();
            }
            size = 5;
            if tag == 7 {
                value = JsValue::Array(ObjectRef::new(id as u32));
            } else {
                value = JsValue::Object(ObjectRef::new(id as u32));
            }
        } else if tag == 6 || tag == 9 {
            if left < 5 {
                return Err("truncated buffer");
            }
            let length: u64 = read_le(buffer, i + 1, 4);
            let room: u64 = (left - 5) as u64;
            if room < length {
                return Err("truncated buffer");
            }
            let length: usize = length as usize;
            let body: &[u8] = slice_subrange(buffer, i + 5, i + 5 + length);
            size = 5 + length;
            if tag == 6 {
                value = JsValue::String(from_utf8_lossy(body));
            } else {
                value = JsValue::Blob(slice_to_vec(body));
            }
        } else {
            return Err("invalid type");
        }
        proof {
            assert(parse_value(buffer@, i as int) == Ok::<(Value, int), Fault>(
                (value@, size as int),
            ));
            let later = parse_values(buffer@, i + size, (count - k - 1) as nat);
            assert(rest == followed_by(seq![value@], later));
            assert(views(values@.push(value)) =~= done.push(value@));
            match later {
                Ok(more) => {
                    assert(done + (seq![value@] + more) =~= done.push(value@) + more);
                },
                Err(_) => {},
            }
        }
        values.push(value);
        i = i + size;
        k = k + 1;
    }
    assert(views(values@) + Seq::<Value>::empty() =~= views(values@));
    Ok(values)
}


/// The text of the host routine that a template with `count` parameters makes.
pub open spec fn routine(code: Seq<char>, count: nat) -> Seq<char> {
    "function("@ + param_list(count) + "){"@ + substituted(code, count) + "}"@
}

/// The text of the host routine for the template `code`: the parameters are named `p0`,
/// `p1`, ... and stand where the markers stood, in order.
pub fn __code(code: &str, params: &[JsValue]) -> (text: String)
    requires
        markers(code@) == params@.len(),
    ensures
        text@ == routine(code@, params@.len()),
{
    let count: usize = params.len();
    let mut text: String = String::from_str("function(");
    push_param_list(&mut text, count);
    text.append("){");
    push_substituted(&mut text, code, count);
    text.append("}");
    text
}

/// A boundary operation that the guest asks of the host.
#[derive(Debug)]
pub enum HostCall {
    /// Run the routine `code` on the values that `params` holds in wire form.
    Invoke { code: String, params: Vec<u8> },
    /// Look up the first element that matches `query`.
    QuerySelector { query: String },
    /// Make an element with the tag name `tag`.
    CreateElement { tag: String },
    /// Free the host-resident object `id`.
    FreeObject { id: u32 },
    /// Have the callback `callback_id` called on each `event` of the object `object_id`.
    AddEventListener { object_id: u32, event: String, callback_id: u32 },
}

/// What a `HostCall` stands for.
pub enum Call {
    Invoke { code: Seq<char>, params: Seq<u8> },
    QuerySelector { query: Seq<char> },
    CreateElement { tag: Seq<char> },
    FreeObject { id: u32 },
    AddEventListener { object_id: u32, event: Seq<char>, callback_id: u32 },
}

impl View for HostCall {
    type V = Call;

    open spec fn view(&self) -> Call {
        match self {
            HostCall::Invoke { code, params } => Call::Invoke { code: code@, params: params@ },
            HostCall::QuerySelector { query } => Call::QuerySelector { query: query@ },
            HostCall::CreateElement { tag } => Call::CreateElement { tag: tag@ },
            HostCall::FreeObject { id } => Call::FreeObject { id: *id },
            HostCall::AddEventListener { object_id, event, callback_id } => Call::AddEventListener {
                object_id: *object_id,
                event: event@,
                callback_id: *callback_id,
            },
        }
    }
}

/// The guest's side of the boundary: the operations asked of the host and not yet
/// carried out, oldest first.
pub struct Host {
    pub calls: Vec<HostCall>,
}

impl View for Host {
    type V = Seq<Call>;

    open spec fn view(&self) -> Seq<Call> {
        self.calls@.map_values(|c: HostCall| c@)
    }
}

impl Host {
    pub fn new() -> (host: Self)
        ensures
            host@ == Seq::<Call>::empty(),
    {
        let host = Host { calls: Vec::new() };
        assert(host@ =~= Seq::<Call>::empty());
        host
    }

    /// Adds one operation behind those asked so far.
    pub fn ask(&mut self, call: HostCall)
        ensures
            final(self)@ == old(self)@.push(call@),
    {
        self.calls.push(call);
        assert(self@ =~= old(self)@.push(call@));
    }

    /// Hands out the operations asked so far, oldest first, and forgets them.
    pub fn take_calls(&mut self) -> (calls: Vec<HostCall>)
        ensures
            calls@.map_values(|c: HostCall| c@) == old(self)@,
            final(self)@ == Seq::<Call>::empty(),
    {
        let mut calls: Vec<HostCall> = Vec::new();
        std::mem::swap(&mut calls, &mut self.calls);
        assert(self@ =~= Seq::<Call>::empty());
        calls
    }
}

/// Gives `handle` up, and asks the host to free the object if this was the last handle to
/// it.
pub fn free(host: &mut Host, handle: ObjectRef)
    ensures
        final(host)@ == old(host)@ || final(host)@ == old(host)@.push(
            Call::FreeObject { id: handle@ },
        ),
{
    announce_freed(host, handle.release());
}

impl ObjectRef {
    /// What giving a handle up comes to, by what became of the owner behind it: the id
    /// of an owner that came free, and nothing while another handle holds the owner.
    pub fn freed_id(owner: Option<ObjectId>) -> (freed: Option<u32>)
        ensures
            freed == match owner {
                Some(came_free) => Some(came_free.0),
                None => None,
            },
    {
        match owner {
            Some(came_free) => Some(came_free.0),
            None => None,
        }
    }
}

/// Tells the host what giving a handle up came to: asks it to free the object `freed`, if
/// one came free, and asks nothing else.
pub fn announce_freed(host: &mut Host, freed: Option<u32>)
    ensures
        final(host)@ == match freed {
            Some(id) => old(host)@.push(Call::FreeObject { id }),
            None => old(host)@,
        },
{
    match freed {
        Some(id) => {
            host.ask(HostCall::FreeObject { id });
        },
        None => {},
    }
}

/// The call that runs the routine of `code` on `params`.
pub open spec fn invocation(code: Seq<char>, params: Seq<Value>) -> Call {
    Call::Invoke { code: routine(code, params.len()), params: encoded_list(params) }
}

/// Asks the host to run the routine that `code` makes on `params`. The reply is read with
/// `reply` from the buffer that the host wrote it to.
pub fn invoke(host: &mut Host, code: &str, params: &[JsValue])
    requires
        markers(code@) == params@.len(),
        encodable(views(params@)),
    ensures
        final(host)@ == old(host)@.push(invocation(code@, views(params@))),
{
    let text: String = __code(code, params);
    let bytes: Vec<u8> = serialize(params);
    host.ask(HostCall::Invoke { code: text, params: bytes });
}

/// Asks the host for the first element that matches `query`.
pub fn query_selector(host: &mut Host, query: &str)
    ensures
        final(host)@ == old(host)@.push(Call::QuerySelector { query: query@ }),
{
    host.ask(HostCall::QuerySelector { query: String::from_str(query) });
}

/// Asks the host for a new element with the tag name `tag`.
pub fn create_element(host: &mut Host, tag: &str)
    ensures
        final(host)@ == old(host)@.push(Call::CreateElement { tag: tag@ }),
{
    host.ask(HostCall::CreateElement { tag: String::from_str(tag) });
}

/// What a reply buffer says: the first value of its list, `Undefined` for an empty list.
pub open spec fn reply_of(bytes: Seq<u8>) -> Result<Value, Fault> {
    match parse(bytes) {
        Ok(values) => if values.len() > 0 {
            Ok(values[0])
        } else {
            Ok(Value::Undefined)
        },
        Err(fault) => Err(fault),
    }
}

/// Reads the host's reply to one operation from the buffer that it was written to.
pub fn reply(buffer: &[u8]) -> (result: Result<JsValue, &'static str>)
    ensures
        match reply_of(buffer@) {
            Ok(value) => result is Ok && result->Ok_0@ == value,
            Err(fault) => result is Err && result->Err_0@ == message(fault),
        },
{
    match deserialize(buffer) {
        Ok(mut values) => {
            if values.len() > 0 {
                let first: JsValue = values.swap_remove(0);
                Ok(first)
            } else {
                Ok(JsValue::Undefined)
            }
        },
        Err(text) => Err(text),
    }
}

/// Makes sure that the reply buffer holds `size` bytes at least: a buffer that is too
/// short is replaced by `size` zero bytes, any other is left as it is.
pub fn get_allocation(buffer: &mut Vec<u8>, size: usize)
    ensures
        final(buffer)@ == if old(buffer)@.len() < size {
            Seq::new(size as nat, |i: int| 0u8)
        } else {
            old(buffer)@
        },
        final(buffer)@.len() >= size,
{
    if buffer.len() < size {
        *buffer = vec![0u8; size];
        assert(buffer@ =~= Seq::new(size as nat, |i: int| 0u8));
    }
}

impl JsValue {
    pub fn to_bool(self) -> (result: Result<bool, &'static str>)
        ensures
            match self@ {
                Value::Bool(b) => result == Ok::<bool, &'static str>(b),
                _ => result is Err && result->Err_0@ == "invalid type"@,
            },
    {
        match self {
            JsValue::Bool(b) => Ok(b),
            _ => Err("invalid type"),
        }
    }

    pub fn to_string(self) -> (result: Result<String, &'static str>)
        ensures
            match self@ {
                Value::String(s) => result is Ok && result->Ok_0@ == s,
                _ => result is Err && result->Err_0@ == "invalid type"@,
            },
    {
        match self {
            JsValue::String(s) => Ok(s),
            _ => Err("invalid type"),
        }
    }

    /// The bit pattern of the number.
    pub fn to_num(self) -> (result: Result<u64, &'static str>)
        ensures
            match self@ {
                Value::Number(bits) => result == Ok::<u64, &'static str>(bits),
                _ => result is Err && result->Err_0@ == "invalid type"@,
            },
    {
        match self {
            JsValue::Number(bits) => Ok(bits),
            _ => Err("invalid type"),
        }
    }

    /// The handle of an object. Any other value is handed back beside the failure, for
    /// the caller to report.
    pub fn to_ref(self) -> (result: Result<ObjectRef, JsValue>)
        ensures
            match self@ {
                Value::Object(id) => result is Ok && result->Ok_0@ == id,
                _ => result is Err && result->Err_0@ == self@,
            },
    {
        match self {
            JsValue::Object(r) => Ok(r),
            other => Err(other),
        }
    }

    pub fn to_buffer(self) -> (result: Result<Vec<u8>, &'static str>)
        ensures
            match self@ {
                Value::Blob(b) => result is Ok && result->Ok_0@ == b,
                _ => result is Err && result->Err_0@ == "invalid type"@,
            },
    {
        match self {
            JsValue::Blob(b) => Ok(b),
            _ => Err("invalid type"),
        }
    }

    pub fn to_bigint(self) -> (result: Result<i64, &'static str>)
        ensures
            match self@ {
                Value::BigInt(i) => result == Ok::<i64, &'static str>(i),
                _ => result is Err && result->Err_0@ == "invalid type"@,
            },
    {
        match self {
            JsValue::BigInt(i) => Ok(i),
            _ => Err("invalid type"),
        }
    }
}

/// Written values can be told apart from the front: the wire form of a list is the wire
/// form of its first value, then that of the rest.
pub proof fn lemma_encoded_all_front(values: Seq<Value>)
    requires
        values.len() > 0,
    ensures
        encoded_all(values) == values[0].encoded() + encoded_all(values.skip(1)),
    decreases values.len(),
{
    if values.len() == 1 {
        assert(values.drop_last() =~= Seq::<Value>::empty());
        assert(values.skip(1) =~= Seq::<Value>::empty());
        assert(encoded_all(values.drop_last()) =~= Seq::<u8>::empty());
        assert(encoded_all(values) =~= values[0].encoded());
    } else {
        let shorter = values.drop_last();
        lemma_encoded_all_front(shorter);
        assert(values.skip(1).drop_last() =~= shorter.skip(1));
        assert(encoded_all(values) =~= values[0].encoded() + encoded_all(values.skip(1)));
    }
}

/// A written value is read back as it was, wherever it stands in a buffer.
pub proof fn lemma_value_round_trip(value: Value, before: Seq<u8>, after: Seq<u8>)
    requires
        value.fits(),
    ensures
        parse_value(before + value.encoded() + after, before.len() as int) == Ok::<
            (Value, int),
            Fault,
        >((value, value.encoded().len() as int)),
{
    let bytes = before + value.encoded() + after;
    let at = before.len() as int;
    lemma_radix_values();
    match value {
        Value::Number(bits) => {
            lemma_le_bytes_len(bits as nat, 8);
            assert(bytes.subrange(at + 1, at + 9) =~= le_bytes(bits as nat, 8));
            lemma_le_value_of_bytes(bits as nat, 8);
        },
        Value::BigInt(i) => {
            lemma_le_bytes_len(twos_complement(i), 8);
            assert(bytes.subrange(at + 1, at + 9) =~= le_bytes(twos_complement(i), 8));
            lemma_twos_complement_inverse(i);
            lemma_le_value_of_bytes(twos_complement(i), 8);
        },
        Value::Array(id) => {
            lemma_le_bytes_len(id as nat, 4);
            assert(bytes.subrange(at + 1, at + 5) =~= le_bytes(id as nat, 4));
            lemma_le_value_of_bytes(id as nat, 4);
        },
        Value::Object(id) => {
            lemma_le_bytes_len(id as nat, 4);
            assert(bytes.subrange(at + 1, at + 5) =~= le_bytes(id as nat, 4));
            lemma_le_value_of_bytes(id as nat, 4);
        },
        Value::String(s) => {
            let body = encode_utf8(s);
            lemma_le_bytes_len(body.len(), 4);
            assert(bytes.subrange(at + 1, at + 5) =~= le_bytes(body.len(), 4));
            lemma_le_value_of_bytes(body.len(), 4);
            assert(bytes.subrange(at + 5, at + 5 + body.len()) =~= body);
            lemma_text_of_encoded(s);
        },
        Value::Blob(b) => {
            lemma_le_bytes_len(b.len(), 4);
            assert(bytes.subrange(at + 1, at + 5) =~= le_bytes(b.len(), 4));
            lemma_le_value_of_bytes(b.len(), 4);
            assert(bytes.subrange(at + 5, at + 5 + b.len()) =~= b);
        },
        _ => {},
    }
}

/// Written values are read back as they were, wherever they stand in a buffer.
pub proof fn lemma_values_round_trip(values: Seq<Value>, before: Seq<u8>, after: Seq<u8>)
    requires
        forall|i: int| 0 <= i < values.len() ==> (#[trigger] values[i]).fits(),
    ensures
        parse_values(before + encoded_all(values) + after, before.len() as int, values.len())
            == Ok::<Seq<Value>, Fault>(values),
    decreases values.len(),
{
    if values.len() > 0 {
        let first = values[0];
        let rest = values.skip(1);
        let bytes = before + encoded_all(values) + after;
        lemma_encoded_all_front(values);
        assert(first.fits());
        assert(bytes =~= before + first.encoded() + (encoded_all(rest) + after));
        lemma_value_round_trip(first, before, encoded_all(rest) + after);
        assert forall|i: int| 0 <= i < rest.len() implies (#[trigger] rest[i]).fits() by {
            assert(rest[i] == values[i + 1]);
        }
        assert(bytes =~= (before + first.encoded()) + encoded_all(rest) + after);
        lemma_values_round_trip(rest, before + first.encoded(), after);
        assert(parse_values(bytes, (before.len() + first.encoded().len()) as int, rest.len()) == Ok::<
            Seq<Value>,
            Fault,
        >(rest));
        assert(seq![first] + rest =~= values);
    } else {
        assert(values =~= Seq::<Value>::empty());
    }
}

/// Round trip: reading what was written gives every value back exactly, text and blobs
/// included, whatever follows the list in the buffer.
pub proof fn lemma_round_trip(values: Seq<Value>, after: Seq<u8>)
    requires
        encodable(values),
    ensures
        parse(encoded_list(values) + after) == Ok::<Seq<Value>, Fault>(values),
{
    let count = le_bytes(values.len(), 4);
    let bytes = encoded_list(values) + after;
    lemma_radix_values();
    lemma_le_bytes_len(values.len(), 4);
    assert(bytes.subrange(0, 4) =~= count);
    lemma_le_value_of_bytes(values.len(), 4);
    lemma_values_round_trip(values, count, after);
}

} // verus!
