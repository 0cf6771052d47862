//! The packed-word protocol: typed values go out as tagged bytes beside the text of a
//! synthesized routine, and one packed word comes back.

use vstd::prelude::*;
use vstd::utf8::encode_utf8;
use vstd::std_specs::convert::FromSpecImpl;
use vstd::string::StringExecFns;
use crate::allocations::reserved;
use crate::allocations::Allocations;
use crate::allocations::Slots;
use crate::bytes::le_bytes;
use crate::bytes::lemma_le_bytes_len;
use crate::bytes::push_le;
use crate::bytes::to_twos_complement;
use crate::bytes::twos_complement;
use crate::template::markers;
use crate::template::param_list;
use crate::template::push_param_list;
use crate::template::push_substituted;
use crate::template::substituted;
use crate::number::double_bits;
use crate::number::double_bits_signed;
use crate::number::number_from_i32;
use crate::number::number_from_u32;
use crate::slots::compact;
use crate::slots::live;
use crate::slots::taken;
use crate::slots::trimmed;
use crate::text::from_utf8_lossy;
use crate::text::lemma_text_of_encoded;
use crate::text::text_of;

verus! {

/// A handle to a host-resident object: the id is passed back to the host, never read.
#[derive(Debug, Clone, Copy, PartialEq, Eq, Structural, Hash)]
pub struct ObjectRef(pub u32);

impl ObjectRef {
    pub fn new(object_id: u32) -> (handle: Self)
        ensures
            handle.0 == object_id,
    {
        Self(object_id)
    }
}

impl std::ops::Deref for ObjectRef {
    type Target = u32;

    fn deref(&self) -> (id: &u32)
        ensures
            *id == self.0,
    {
        &self.0
    }
}

/// A value that crosses the boundary. A number is held as the bit pattern of its
/// double-precision form.
#[derive(Debug)]
pub enum JsValue {
    Undefined,
    Null,
    Number(u64),
    BigInt(i64),
    Str(String),
    Bool(bool),
    Ref(ObjectRef),
    Buffer(Vec<u8>),
}

/// What a `JsValue` stands for.
pub enum Value {
    Undefined,
    Null,
    Number(u64),
    BigInt(i64),
    Str(Seq<char>),
    Bool(bool),
    Ref(u32),
    Buffer(Seq<u8>),
}

impl View for JsValue {
    type V = Value;

    open spec fn view(&self) -> Value {
        match self {
            JsValue::Undefined => Value::Undefined,
            JsValue::Null => Value::Null,
            JsValue::Number(bits) => Value::Number(*bits),
            JsValue::BigInt(i) => Value::BigInt(*i),
            JsValue::Str(s) => Value::Str(s@),
            JsValue::Bool(b) => Value::Bool(*b),
            JsValue::Ref(r) => Value::Ref(r.0),
            JsValue::Buffer(b) => Value::Buffer(b@),
        }
    }
}

impl From<&str> for JsValue {
    fn from(s: &str) -> (value: Self)
        ensures
            value@ == Value::Str(s@),
    {
        Self::Str(String::from_str(s))
    }
}

impl FromSpecImpl<&str> for JsValue {
    open spec fn obeys_from_spec() -> bool {
        false
    }

    open spec fn from_spec(s: &str) -> Self {
        arbitrary()
    }
}

impl From<String> for JsValue {
    fn from(s: String) -> (value: Self) {
        Self::Str(s)
    }
}

impl FromSpecImpl<String> for JsValue {
    open spec fn obeys_from_spec() -> bool {
        true
    }

    open spec fn from_spec(s: String) -> Self {
        JsValue::Str(s)
    }
}

impl From<u32> for JsValue {
    fn from(n: u32) -> (value: Self) {
        Self::Number(number_from_u32(n))
    }
}

impl FromSpecImpl<u32> for JsValue {
    open spec fn obeys_from_spec() -> bool {
        true
    }

    open spec fn from_spec(n: u32) -> Self {
        JsValue::Number(double_bits(n as nat) as u64)
    }
}

impl From<i32> for JsValue {
    fn from(n: i32) -> (value: Self) {
        Self::Number(number_from_i32(n))
    }
}

impl FromSpecImpl<i32> for JsValue {
    open spec fn obeys_from_spec() -> bool {
        true
    }

    open spec fn from_spec(n: i32) -> Self {
        JsValue::Number(double_bits_signed(n as int) as u64)
    }
}

impl From<ObjectRef> for JsValue {
    fn from(s: ObjectRef) -> (value: Self) {
        Self::Ref(s)
    }
}

impl FromSpecImpl<ObjectRef> for JsValue {
    open spec fn obeys_from_spec() -> bool {
        true
    }

    open spec fn from_spec(s: ObjectRef) -> Self {
        JsValue::Ref(s)
    }
}

impl From<&ObjectRef> for JsValue {
    fn from(s: &ObjectRef) -> (value: Self) {
        Self::Ref(*s)
    }
}

impl FromSpecImpl<&ObjectRef> for JsValue {
    open spec fn obeys_from_spec() -> bool {
        true
    }

    open spec fn from_spec(s: &ObjectRef) -> Self {
        JsValue::Ref(*s)
    }
}

/// The number of bytes in which a length is written: the width of a machine word.
pub open spec fn word_width() -> nat {
    (usize::BITS / 8) as nat
}

impl Value {
    /// The wire form: a tag byte, then the payload of the kind. Text goes out by
    /// reference, as the `address` of its UTF-8 bytes and their number.
    pub open spec fn encoded(self, address: u32) -> Seq<u8> {
        match self {
            Value::Undefined => seq![0u8],
            Value::Null => seq![1u8],
            Value::Number(bits) => seq![2u8] + le_bytes(bits as nat, 8),
            Value::BigInt(i) => seq![3u8] + le_bytes(twos_complement(i), 8),
            Value::Str(s) => seq![4u8] + le_bytes(address as nat, 4) + le_bytes(
                encode_utf8(s).len(),
                word_width(),
            ),
            Value::Bool(b) => if b {
                seq![5u8]
            } else {
                seq![6u8]
            },
            Value::Ref(id) => seq![7u8] + le_bytes(id as nat, 4),
            Value::Buffer(b) => seq![8u8] + b,
        }
    }
}

/// `str::as_ptr`, cut to 32 bits: where the bytes of `text` lie in guest memory. Trusted,
/// with nothing claimed of the address.
#[verifier::external_body]
fn address_of(text: &str) -> (address: u32) {
    text.as_ptr() as usize as u32
}

impl JsValue {
    /// The wire form of the value, with text at `address`.
    pub fn serialize_at(&self, address: u32) -> (bytes: Vec<u8>)
        ensures
            bytes@ == self@.encoded(address),
    {
        let mut bytes: Vec<u8> = Vec::new();
        match self {
            JsValue::Undefined => {
                bytes.push(0);
            },
            JsValue::Null => {
                bytes.push(1);
            },
            JsValue::Number(bits) => {
                bytes.push(2);
                push_le(&mut bytes, *bits, 8);
            },
            JsValue::BigInt(i) => {
                bytes.push(3);
                push_le(&mut bytes, to_twos_complement(*i), 8);
            },
            JsValue::Str(s) => {
                bytes.push(4);
                push_le(&mut bytes, address as u64, 4);
                let width: usize = (usize::BITS / 8) as usize;
                let length: usize = s.as_str().as_bytes().len();
                push_le(&mut bytes, length as u64, width);
            },
            JsValue::Bool(b) => {
                bytes.push(if *b { 5 } else { 6 });
            },
            JsValue::Ref(r) => {
                bytes.push(7);
                push_le(&mut bytes, r.0 as u64, 4);
            },
            JsValue::Buffer(b) => {
                bytes.push(8);
                bytes.extend_from_slice(b.as_slice());
            },
        }
        proof {
            lemma_le_bytes_len(address as nat, 4);
            assert(bytes@ =~= self@.encoded(address));
        }
        bytes
    }

    /// The wire form of the value. Text goes out by the address at which it lies now, so
    /// the bytes are good for as long as the value stays where it is.
    pub fn serialize(&self) -> (bytes: Vec<u8>)
        ensures
            exists|address: u32| bytes@ == self@.encoded(address),
            !(self@ is Str) ==> bytes@ == self@.encoded(0),
    {
        match self {
            JsValue::Str(s) => {
                let address: u32 = address_of(s.as_str());
                self.serialize_at(address)
            },
            _ => self.serialize_at(0),
        }
    }
}

/// The type tag of a result that is undefined.
pub const UNDEFINED: u32 = 0;

/// The type tag of a number: its decimal text lies in the slot that the word names.
pub const NUMBER: u32 = 1;

/// The type tag of a handle: the word is the id of the object.
pub const REF: u32 = 2;

/// The type tag of a buffer: its bytes lie in the slot that the word names.
pub const BUFFER: u32 = 3;

/// The type tag of text: its UTF-8 bytes lie in the slot that the word names.
pub const STR: u32 = 4;

/// The type tag of a big integer: the word is its value.
pub const BIGINT: u32 = 5;

/// The type tag of a truth value: the word is 1 for true.
pub const BOOL: u32 = 6;

/// The result kinds whose word is the index of an allocation slot.
pub open spec fn takes_slot(tag: u32) -> bool {
    tag == NUMBER || tag == BUFFER || tag == STR
}

/// The packed result `(tag, word)` can be decoded: the tag is known, a slot that it refers
/// to is live, and the reading of a number's text is at hand.
pub open spec fn decodable(slots: Slots, tag: u32, word: u32, number: Option<u64>) -> bool {
    &&& tag <= BOOL
    &&& takes_slot(tag) ==> live(slots, word as int)
    &&& tag == NUMBER ==> number is Some
}

/// What the packed result `(tag, word)` stands for. Scalar kinds use the word itself;
/// buffers and text are the contents of slot `word`; a number is the reading `number` of
/// the decimal text in slot `word`.
pub open spec fn decoded(slots: Slots, tag: u32, word: u32, number: Option<u64>) -> Value {
    if tag == UNDEFINED {
        Value::Undefined
    } else if tag == NUMBER {
        Value::Number(number->0)
    } else if tag == REF {
        Value::Ref(word)
    } else if tag == BUFFER {
        Value::Buffer(slots[word as int]->0)
    } else if tag == STR {
        Value::Str(text_of(slots[word as int]->0))
    } else if tag == BIGINT {
        Value::BigInt(word as i64)
    } else {
        Value::Bool(word == 1)
    }
}

/// The table after the packed result `(tag, word)` was decoded.
pub open spec fn after_decoding(slots: Slots, tag: u32, word: u32) -> Slots {
    if takes_slot(tag) {
        taken(slots, word as int)
    } else {
        slots
    }
}

impl Value {
    /// The value can come back as a packed result: there is no result form for `Null`,
    /// and a big integer comes back in the value word.
    pub open spec fn returnable(self) -> bool {
        match self {
            Value::Null => false,
            Value::BigInt(i) => 0 <= i <= u32::MAX,
            _ => true,
        }
    }

    /// The type tag under which the value comes back.
    pub open spec fn result_tag(self) -> u32 {
        match self {
            Value::Undefined => UNDEFINED,
            Value::Null => UNDEFINED,
            Value::Number(_) => NUMBER,
            Value::Ref(_) => REF,
            Value::Buffer(_) => BUFFER,
            Value::Str(_) => STR,
            Value::BigInt(_) => BIGINT,
            Value::Bool(_) => BOOL,
        }
    }

    /// The value word with which the value comes back, when the slot that the host wrote
    /// for it is `slot`.
    pub open spec fn result_word(self, slot: u32) -> u32 {
        match self {
            Value::Ref(id) => id,
            Value::BigInt(i) => i as u32,
            Value::Bool(b) => if b {
                1
            } else {
                0
            },
            Value::Undefined => 0,
            Value::Null => 0,
            _ => slot,
        }
    }

    /// What the host writes into the slot of the value: the bytes of a buffer, the UTF-8
    /// form of text, and for a number its decimal `text`.
    pub open spec fn result_bytes(self, text: Seq<u8>) -> Seq<u8> {
        match self {
            Value::Buffer(b) => b,
            Value::Str(s) => encode_utf8(s),
            _ => text,
        }
    }

    /// The reading of the decimal text of a number.
    pub open spec fn reading(self) -> Option<u64> {
        match self {
            Value::Number(bits) => Some(bits),
            _ => None,
        }
    }
}

/// The table after the host reserved a slot for `value` and wrote it, if the kind of the
/// value goes through a slot.
pub open spec fn written_back(slots: Slots, value: Value, text: Seq<u8>) -> Slots {
    if takes_slot(value.result_tag()) {
        reserved(slots, value.result_bytes(text).len()).update(
            slots.len() as int,
            Some(value.result_bytes(text)),
        )
    } else {
        slots
    }
}

/// Round trip through a packed result: a value that the host hands back, through a slot
/// of the table where its kind asks for one, is decoded to exactly that value, and the
/// table is left as it was before the host reserved the slot.
pub proof fn lemma_result_round_trip(slots: Slots, value: Value, text: Seq<u8>)
    requires
        value.returnable(),
        compact(slots),
        slots.len() <= u32::MAX,
    ensures
        ({
            let slot = slots.len() as u32;
            let tag = value.result_tag();
            let word = value.result_word(slot);
            let filled = written_back(slots, value, text);
            &&& decodable(filled, tag, word, value.reading())
            &&& decoded(filled, tag, word, value.reading()) == value
            &&& after_decoding(filled, tag, word) == slots
        }),
{
    let filled = written_back(slots, value, text);
    if takes_slot(value.result_tag()) {
        let emptied = filled.update(slots.len() as int, None);
        assert(emptied.drop_last() =~= slots);
        assert(trimmed(emptied) == trimmed(slots));
        if let Value::Str(s) = value {
            lemma_text_of_encoded(s);
        }
    }
}

impl JsValue {
    /// Decodes one packed result. A slot that the result refers to is taken out of
    /// `allocations`. Floating point is not read here: for a number, the caller reads the
    /// decimal text in the slot and hands the bit pattern in as `number`.
    pub fn deserialize(
        allocations: &mut Allocations,
        r_type: u32,
        r_value: u32,
        number: Option<u64>,
    ) -> (value: JsValue)
        requires
            decodable(old(allocations)@, r_type, r_value, number),
        ensures
            value@ == decoded(old(allocations)@, r_type, r_value, number),
            final(allocations)@ == after_decoding(old(allocations)@, r_type, r_value),
            takes_slot(r_type) ==> !live(final(allocations)@, r_value as int),
            old(allocations).wf() ==> final(allocations).wf(),
    {
        if r_type == UNDEFINED {
            JsValue::Undefined
        } else if r_type == NUMBER {
            let _ = allocations.take(r_value);
            JsValue::Number(number.unwrap())
        } else if r_type == REF {
            JsValue::Ref(ObjectRef(r_value))
        } else if r_type == BUFFER {
            let data: Vec<u8> = allocations.take(r_value).unwrap();
            JsValue::Buffer(data)
        } else if r_type == STR {
            let data: Vec<u8> = allocations.take(r_value).unwrap();
            JsValue::Str(from_utf8_lossy(data.as_slice()))
        } else if r_type == BIGINT {
            JsValue::BigInt(r_value as i64)
        } else {
            JsValue::Bool(r_value == 1)
        }
    }

    /// Decodes one packed result if it can be decoded, as `deserialize` does; a result
    /// that cannot be decoded gives `None` and leaves the table as it is.
    pub fn try_deserialize(
        allocations: &mut Allocations,
        r_type: u32,
        r_value: u32,
        number: Option<u64>,
    ) -> (value: Option<JsValue>)
        ensures
            match value {
                Some(v) => {
                    &&& decodable(old(allocations)@, r_type, r_value, number)
                    &&& v@ == decoded(old(allocations)@, r_type, r_value, number)
                    &&& final(allocations)@ == after_decoding(
                        old(allocations)@,
                        r_type,
                        r_value,
                    )
                },
                None => {
                    &&& !decodable(old(allocations)@, r_type, r_value, number)
                    &&& final(allocations)@ == old(allocations)@
                },
            },
            old(allocations).wf() ==> final(allocations).wf(),
    {
        let takes: bool = r_type == NUMBER || r_type == BUFFER || r_type == STR;
        if r_type > BOOL || (takes && !allocations.is_live(r_value)) || (r_type == NUMBER
            && number.is_none()) {
            None
        } else {
            Some(JsValue::deserialize(allocations, r_type, r_value, number))
        }
    }

    pub fn to_bool(&self) -> (result: Result<bool, String>)
        ensures
            match self@ {
                Value::Bool(b) => result == Ok::<bool, String>(b),
                _ => result is Err && result->Err_0@ == "Invalid type"@,
            },
    {
        match self {
            JsValue::Bool(b) => Ok(*b),
            _ => Err(String::from_str("Invalid type")),
        }
    }

    pub fn to_str(&self) -> (result: Result<String, String>)
        ensures
            match self@ {
                Value::Str(s) => result is Ok && result->Ok_0@ == s,
                _ => result is Err && result->Err_0@ == "Invalid type"@,
            },
    {
        match self {
            JsValue::Str(s) => Ok(s.clone()),
            _ => Err(String::from_str("Invalid type")),
        }
    }

    /// The bit pattern of the number.
    pub fn to_num(&self) -> (result: Result<u64, String>)
        ensures
            match self@ {
                Value::Number(bits) => result == Ok::<u64, String>(bits),
                _ => result is Err && result->Err_0@ == "Invalid type"@,
            },
    {
        match self {
            JsValue::Number(bits) => Ok(*bits),
            _ => Err(String::from_str("Invalid type")),
        }
    }

    pub fn to_ref(&self) -> (result: Result<ObjectRef, String>)
        ensures
            match self@ {
                Value::Ref(id) => result == Ok::<ObjectRef, String>(ObjectRef(id)),
                _ => result is Err && result->Err_0@ == "Invalid type"@,
            },
    {
        match self {
            JsValue::Ref(r) => Ok(*r),
            _ => Err(String::from_str("Invalid type")),
        }
    }

    pub fn to_buffer(&self) -> (result: Result<Vec<u8>, String>)
        ensures
            match self@ {
                Value::Buffer(b) => result is Ok && result->Ok_0@ == b,
                _ => result is Err && result->Err_0@ == "Invalid type"@,
            },
    {
        match self {
            JsValue::Buffer(b) => Ok(b.clone()),
            _ => Err(String::from_str("Invalid type")),
        }
    }

    pub fn to_bigint(&self) -> (result: Result<i64, String>)
        ensures
            match self@ {
                Value::BigInt(i) => result == Ok::<i64, String>(i),
                _ => result is Err && result->Err_0@ == "Invalid type"@,
            },
    {
        match self {
            JsValue::BigInt(i) => Ok(*i),
            _ => Err(String::from_str("Invalid type")),
        }
    }
}

/// What each of `values` stands for.
pub open spec fn views(values: Seq<JsValue>) -> Seq<Value> {
    values.map_values(|v: JsValue| v@)
}

/// The wire forms of `values` one after the other, the text of each at its address.
pub open spec fn encoded_all(values: Seq<Value>, addresses: Seq<u32>) -> Seq<u8>
    decreases values.len(),
{
    if values.len() == 0 {
        Seq::empty()
    } else {
        encoded_all(values.drop_last(), addresses.drop_last()) + values.last().encoded(
            addresses.last(),
        )
    }
}

/// The text of the host routine that a template with `count` parameters makes.
pub open spec fn routine(code: Seq<char>, count: nat) -> Seq<char> {
    "function("@ + param_list(count) + ") { "@ + substituted(code, count) + " }"@
}

/// The type tag of a packed result: its upper 32 bits.
pub open spec fn packed_tag(packed: u64) -> u32 {
    (packed / 0x1_0000_0000) as u32
}

/// The value word of a packed result: its lower 32 bits.
pub open spec fn packed_word(packed: u64) -> u32 {
    (packed % 0x1_0000_0000) as u32
}

/// A boundary operation that the guest asks of the host.
#[derive(Debug)]
pub enum HostCall {
    /// Run the routine `code` on `params`.
    Invoke { code: String, params: Vec<JsValue> },
    /// Release the host-resident object `id`.
    Release { id: u32 },
}

/// What a `HostCall` stands for.
pub enum Call {
    Invoke { code: Seq<char>, params: Seq<Value> },
    Release { id: u32 },
}

impl View for HostCall {
    type V = Call;

    open spec fn view(&self) -> Call {
        match self {
            HostCall::Invoke { code, params } => Call::Invoke {
                code: code@,
                params: views(params@),
            },
            HostCall::Release { id } => Call::Release { id: *id },
        }
    }
}

/// The guest's side of the boundary: the operations asked of the host and not yet
/// carried out, oldest first.
pub struct Js {
    pub calls: Vec<HostCall>,
}

impl View for Js {
    type V = Seq<Call>;

    open spec fn view(&self) -> Seq<Call> {
        self.calls@.map_values(|c: HostCall| c@)
    }
}

impl Js {
    pub fn new() -> (js: Self)
        ensures
            js@ == Seq::<Call>::empty(),
    {
        let js = Js { calls: Vec::new() };
        assert(js@ =~= Seq::<Call>::empty());
        js
    }

    /// The text of the host routine for the template `code`: the parameters are named
    /// `p0`, `p1`, ... and stand where the markers stood, in order.
    pub fn __code(code: &str, params: &[JsValue]) -> (text: String)
        requires
            markers(code@) == params@.len(),
        ensures
            text@ == routine(code@, params@.len()),
    {
        let count: usize = params.len();
        let mut text: String = String::from_str("function(");
        push_param_list(&mut text, count);
        text.append(") { ");
        push_substituted(&mut text, code, count);
        text.append(" }");
        text
    }

    /// Asks the host to run the routine that `code` makes on `params`.
    pub fn invoke(&mut self, code: &str, params: Vec<JsValue>)
        requires
            markers(code@) == params@.len(),
        ensures
            final(self)@ == old(self)@.push(
                Call::Invoke { code: routine(code@, params@.len()), params: views(params@) },
            ),
    {
        let text: String = Js::__code(code, params.as_slice());
        self.calls.push(HostCall::Invoke { code: text, params });
        assert(self@ =~= old(self)@.push(
            Call::Invoke { code: routine(code@, params@.len()), params: views(params@) },
        ));
    }

    /// Asks the host to release the object behind `object_id`.
    pub fn deallocate(&mut self, object_id: ObjectRef)
        ensures
            final(self)@ == old(self)@.push(Call::Release { id: object_id.0 }),
    {
        self.calls.push(HostCall::Release { id: object_id.0 });
        assert(self@ =~= old(self)@.push(Call::Release { id: object_id.0 }));
    }

    /// Hands out the operations asked so far, oldest first, and forgets them.
    pub fn take_calls(&mut self) -> (calls: Vec<HostCall>)
        ensures
            calls@.map_values(|c: HostCall| c@) == old(self)@,
            final(self)@ == Seq::<Call>::empty(),
    {
        let mut calls: Vec<HostCall> = Vec::new();
        std::mem::swap(&mut calls, &mut self.calls);
        assert(self@ =~= Seq::<Call>::empty());
        calls
    }

    /// The wire form of a parameter list: the wire forms of the values, in order.
    pub fn encode(params: &[JsValue]) -> (bytes: Vec<u8>)
        ensures
            exists|addresses: Seq<u32>|
                addresses.len() == params@.len() && bytes@ == encoded_all(
                    views(params@),
                    addresses,
                ),
    {
        let mut bytes: Vec<u8> = Vec::new();
        let ghost mut addresses: Seq<u32> = Seq::empty();
        let mut i: usize = 0;
        assert(views(params@).take(0) =~= Seq::<Value>::empty());
        while i < params.len()
            invariant
                i <= params@.len(),
                addresses.len() == i,
                bytes@ == encoded_all(views(params@).take(i as int), addresses),
            decreases params@.len() - i,
        {
            let mut piece: Vec<u8> = params[i].serialize();
            proof {
                let address = choose|address: u32| piece@ == params@[i as int]@.encoded(address);
                let before = views(params@).take(i as int);
                let now = views(params@).take(i + 1);
                assert(now.drop_last() =~= before);
                assert(now.last() == params@[i as int]@);
                assert(addresses.push(address).drop_last() =~= addresses);
                addresses = addresses.push(address);
            }
            bytes.append(&mut piece);
            i = i + 1;
        }
        assert(views(params@).take(params@.len() as int) =~= views(params@));
        bytes
    }

    /// Splits a packed result into its type tag and its value word.
    pub fn unpack(r_packed: u64) -> (parts: (u32, u32))
        ensures
            parts.0 == packed_tag(r_packed),
            parts.1 == packed_word(r_packed),
    {
        ((r_packed / 0x1_0000_0000) as u32, (r_packed % 0x1_0000_0000) as u32)
    }
}

} // verus!
