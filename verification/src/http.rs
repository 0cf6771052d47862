//! Requests to the network, made through the host's request object. A fetch is a series
//! of operations asked of the host and a future that the host's answer completes.

use vstd::prelude::*;
use vstd::string::StringExecFns;
use crate::handlers::request_empty_callback;
use crate::handlers::empty_trampoline;
use crate::invoke::routine;
use crate::invoke::views;
use crate::invoke::Call;
use crate::invoke::Js;
use crate::invoke::JsValue;
use crate::invoke::ObjectRef;
use crate::invoke::Value;
use crate::runtime::awaiting;
use crate::runtime::created;
use crate::runtime::wake_target;
use crate::runtime::woken;
use crate::runtime::FutureStates;
use crate::runtime::FutureTask;
use crate::runtime::Waker;
use crate::template::markers_from;

verus! {

/// The method of a request.
#[derive(Debug, Clone, Copy, PartialEq, Eq, Structural)]
pub enum HttpMethod {
    GET,
    POST,
    PUT,
    DELETE,
    HEAD,
    OPTIONS,
    PATCH,
}

impl Default for HttpMethod {
    fn default() -> (method: Self)
        ensures
            method == HttpMethod::GET,
    {
        HttpMethod::GET
    }
}

impl HttpMethod {
    /// The name of the method as the host takes it.
    pub open spec fn name(self) -> Seq<char> {
        match self {
            HttpMethod::GET => "GET"@,
            HttpMethod::POST => "POST"@,
            HttpMethod::PUT => "PUT"@,
            HttpMethod::DELETE => "DELETE"@,
            HttpMethod::HEAD => "HEAD"@,
            HttpMethod::OPTIONS => "OPTIONS"@,
            HttpMethod::PATCH => "PATCH"@,
        }
    }

    pub fn to_string(&self) -> (text: String)
        ensures
            text@ == self.name(),
    {
        match self {
            Self::GET => String::from_str("GET"),
            Self::POST => String::from_str("POST"),
            Self::PUT => String::from_str("PUT"),
            Self::DELETE => String::from_str("DELETE"),
            Self::HEAD => String::from_str("HEAD"),
            Self::OPTIONS => String::from_str("OPTIONS"),
            Self::PATCH => String::from_str("PATCH"),
        }
    }
}

/// The form in which the body of the answer is asked for.
#[derive(Debug, Clone, Copy, PartialEq, Eq, Structural)]
pub enum FetchResponseType {
    Text,
    ArrayBuffer,
}

impl Default for FetchResponseType {
    fn default() -> (kind: Self)
        ensures
            kind == FetchResponseType::Text,
    {
        FetchResponseType::Text
    }
}

impl FetchResponseType {
    /// The name of the response type as the host takes it.
    pub open spec fn name(self) -> Seq<char> {
        match self {
            FetchResponseType::Text => "text"@,
            FetchResponseType::ArrayBuffer => "arraybuffer"@,
        }
    }

    pub fn to_string(&self) -> (text: String)
        ensures
            text@ == self.name(),
    {
        match self {
            Self::Text => String::from_str("text"),
            Self::ArrayBuffer => String::from_str("arraybuffer"),
        }
    }
}

/// What to fetch and how. The headers are sent in the order in which they stand.
pub struct FetchOptions<'a> {
    pub url: &'a str,
    pub method: HttpMethod,
    pub body: Option<&'a str>,
    pub headers: Vec<(String, String)>,
    pub response_type: FetchResponseType,
}

/// What came back: the status, and the body in the form that was asked for.
#[derive(Debug)]
pub enum FetchResponse {
    Text(u32, String),
    ArrayBuffer(u32, Vec<u8>),
}

/// One call on the request object with the given template and parameters.
pub open spec fn call(code: Seq<char>, params: Seq<Value>) -> Call {
    Call::Invoke { code: routine(code, params.len()), params }
}

/// The names and values of `headers`, in order.
pub open spec fn header_views(headers: Seq<(String, String)>) -> Seq<(Seq<char>, Seq<char>)> {
    headers.map_values(|h: (String, String)| (h.0@, h.1@))
}

/// The calls that set each of `headers` on `request`, in order.
pub open spec fn header_calls(request: u32, headers: Seq<(Seq<char>, Seq<char>)>) -> Seq<Call> {
    Seq::new(
        headers.len(),
        |i: int|
            call(
                "{}.setRequestHeader({},{})"@,
                seq![Value::Ref(request), Value::Str(headers[i].0), Value::Str(headers[i].1)],
            ),
    )
}

/// The call that sends `request`, with `body` if there is one.
pub open spec fn send_call(request: u32, body: Option<Seq<char>>) -> Call {
    match body {
        Some(text) => call("{}.send({})"@, seq![Value::Ref(request), Value::Str(text)]),
        None => call("{}.send()"@, seq![Value::Ref(request)]),
    }
}

/// Everything that a fetch asks of the host, in order: open the request, set its
/// headers, name the response type, send it, and make the trampoline that the host is to
/// call when the answer has come.
pub open spec fn fetch_calls(
    request: u32,
    method: HttpMethod,
    url: Seq<char>,
    headers: Seq<(Seq<char>, Seq<char>)>,
    response_type: FetchResponseType,
    body: Option<Seq<char>>,
) -> Seq<Call> {
    seq![
        call(
            "{}.open({},{})"@,
            seq![Value::Ref(request), Value::Str(method.name()), Value::Str(url)],
        ),
    ] + header_calls(request, headers) + seq![
        call(
            "{}.responseType = {}"@,
            seq![Value::Ref(request), Value::Str(response_type.name())],
        ),
        send_call(request, body),
        call(empty_trampoline(), Seq::empty()),
    ]
}

fn text(value: &str) -> (param: JsValue)
    ensures
        param@ == Value::Str(value@),
{
    JsValue::Str(String::from_str(value))
}

/// Asks the host for a new request object. Its handle is what `fetch` works on.
pub fn new_request(js: &mut Js)
    ensures
        final(js)@ == old(js)@.push(call("return new XMLHttpRequest()"@, Seq::empty())),
{
    proof {
        reveal_strlit("return new XMLHttpRequest()");
        reveal_with_fuel(markers_from, 30);
    }
    let params: Vec<JsValue> = Vec::new();
    assert(views(params@) =~= Seq::<Value>::empty());
    js.invoke("return new XMLHttpRequest()", params);
}

/// Starts a fetch on the request object `request`: asks the host for everything that
/// sends it, and makes the future that stands for the answer.
pub fn fetch(
    js: &mut Js,
    futures: &mut FutureStates<FetchResponse>,
    options: &FetchOptions,
    request: ObjectRef,
) -> (future: FutureTask<FetchResponse>)
    ensures
        final(js)@ == old(js)@ + fetch_calls(
            request.0,
            options.method,
            options.url@,
            header_views(options.headers@),
            options.response_type,
            match options.body {
                Some(body) => Some(body@),
                None => None,
            },
        ),
        final(futures)@ == created(old(futures)@),
        future.id == old(futures)@.len(),
        old(futures).wf() ==> final(futures).wf(),
{
    proof {
        reveal_strlit("{}.open({},{})");
        reveal_strlit("{}.setRequestHeader({},{})");
        reveal_strlit("{}.responseType = {}");
        reveal_strlit("{}.send({})");
        reveal_strlit("{}.send()");
        reveal_with_fuel(markers_from, 30);
    }
    let ghost headers = header_views(options.headers@);
    let ghost body = match options.body {
        Some(body) => Some(body@),
        None => None::<Seq<char>>,
    };
    let ghost all = fetch_calls(
        request.0,
        options.method,
        options.url@,
        headers,
        options.response_type,
        body,
    );

    let mut params: Vec<JsValue> = Vec::new();
    params.push(JsValue::Ref(request));
    params.push(JsValue::Str(options.method.to_string()));
    params.push(text(options.url));
    assert(views(params@) =~= seq![
        Value::Ref(request.0),
        Value::Str(options.method.name()),
        Value::Str(options.url@),
    ]);
    js.invoke("{}.open({},{})", params);

    let mut i: usize = 0;
    assert(js@ =~= old(js)@ + all.take(1));
    while i < options.headers.len()
        invariant
            i <= options.headers@.len(),
            headers == header_views(options.headers@),
            all == fetch_calls(
                request.0,
                options.method,
                options.url@,
                headers,
                options.response_type,
                body,
            ),
            crate::template::markers("{}.setRequestHeader({},{})"@) == 3,
            js@ == old(js)@ + all.take(1 + i),
        decreases options.headers@.len() - i,
    {
        let mut params: Vec<JsValue> = Vec::new();
        params.push(JsValue::Ref(request));
        params.push(text(options.headers[i].0.as_str()));
        params.push(text(options.headers[i].1.as_str()));
        proof {
            assert(headers[i as int] == (options.headers@[i as int].0@, options.headers@[i as int].1@));
            assert(views(params@) =~= seq![
                Value::Ref(request.0),
                Value::Str(headers[i as int].0),
                Value::Str(headers[i as int].1),
            ]);
            assert(all[1 + i] == header_calls(request.0, headers)[i as int]);
            assert(all.take(1 + i + 1) =~= all.take(1 + i).push(all[1 + i]));
        }
        js.invoke("{}.setRequestHeader({},{})", params);
        i = i + 1;
    }
    let ghost sent = 1 + options.headers@.len();

    let mut params: Vec<JsValue> = Vec::new();
    params.push(JsValue::Ref(request));
    params.push(JsValue::Str(options.response_type.to_string()));
    assert(views(params@) =~= seq![
        Value::Ref(request.0),
        Value::Str(options.response_type.name()),
    ]);
    js.invoke("{}.responseType = {}", params);

    match options.body {
        Some(body) => {
            let mut params: Vec<JsValue> = Vec::new();
            params.push(JsValue::Ref(request));
            params.push(text(body));
            assert(views(params@) =~= seq![Value::Ref(request.0), Value::Str(body@)]);
            js.invoke("{}.send({})", params);
        },
        None => {
            let mut params: Vec<JsValue> = Vec::new();
            params.push(JsValue::Ref(request));
            assert(views(params@) =~= seq![Value::Ref(request.0)]);
            js.invoke("{}.send()", params);
        },
    }
    request_empty_callback(js);
    proof {
        assert(all.len() == sent + 3);
        assert(js@ =~= old(js)@ + all);
    }
    FutureTask::new(futures)
}

/// Has the host call the trampoline `function_ref` when the answer to `request` has come.
pub fn on_load(js: &mut Js, request: ObjectRef, function_ref: ObjectRef)
    ensures
        final(js)@ == old(js)@.push(
            call("{}.onload = {}"@, seq![Value::Ref(request.0), Value::Ref(function_ref.0)]),
        ),
{
    proof {
        reveal_strlit("{}.onload = {}");
        reveal_with_fuel(markers_from, 18);
    }
    let mut params: Vec<JsValue> = Vec::new();
    params.push(JsValue::Ref(request));
    params.push(JsValue::Ref(function_ref));
    assert(views(params@) =~= seq![Value::Ref(request.0), Value::Ref(function_ref.0)]);
    js.invoke("{}.onload = {}", params);
}

/// The template that reads the body of an answer of the given type.
pub open spec fn body_template(response_type: FetchResponseType) -> Seq<char> {
    match response_type {
        FetchResponseType::Text => "return {}.responseText"@,
        FetchResponseType::ArrayBuffer => "return {}.response"@,
    }
}

/// Asks the host for the status and the body of the answer to `request`.
pub fn read_response(js: &mut Js, request: ObjectRef, response_type: FetchResponseType)
    ensures
        final(js)@ == old(js)@.push(call("return {}.status"@, seq![Value::Ref(request.0)])).push(
            call(body_template(response_type), seq![Value::Ref(request.0)]),
        ),
{
    proof {
        reveal_strlit("return {}.status");
        reveal_strlit("return {}.responseText");
        reveal_strlit("return {}.response");
        reveal_with_fuel(markers_from, 26);
    }
    let mut params: Vec<JsValue> = Vec::new();
    params.push(JsValue::Ref(request));
    assert(views(params@) =~= seq![Value::Ref(request.0)]);
    js.invoke("return {}.status", params);
    let mut params: Vec<JsValue> = Vec::new();
    params.push(JsValue::Ref(request));
    assert(views(params@) =~= seq![Value::Ref(request.0)]);
    match response_type {
        FetchResponseType::Text => js.invoke("return {}.responseText", params),
        FetchResponseType::ArrayBuffer => js.invoke("return {}.response", params),
    }
}

/// The body `body` has the form that `response_type` asks for.
pub open spec fn body_matches(response_type: FetchResponseType, body: Value) -> bool {
    match response_type {
        FetchResponseType::Text => body is Str,
        FetchResponseType::ArrayBuffer => body is Buffer,
    }
}

/// The answer that a status and a body make.
pub open spec fn response_matches(
    response: FetchResponse,
    response_type: FetchResponseType,
    status: u32,
    body: Value,
) -> bool {
    match response_type {
        FetchResponseType::Text => response matches FetchResponse::Text(s, text) && s == status
            && Value::Str(text@) == body,
        FetchResponseType::ArrayBuffer => response matches FetchResponse::ArrayBuffer(s, bytes)
            && s == status && Value::Buffer(bytes@) == body,
    }
}

/// Completes the future of a fetch with the status and the body that the host read. The
/// answer is the waker that the future held: the task behind it is to be polled again.
pub fn complete(
    futures: &mut FutureStates<FetchResponse>,
    future_id: usize,
    response_type: FetchResponseType,
    status: u32,
    body: JsValue,
) -> (target: Option<Waker>)
    requires
        awaiting(old(futures)@, future_id as int),
        body_matches(response_type, body@),
    ensures
        exists|response: FetchResponse|
            response_matches(response, response_type, status, body@) && final(futures)@ == woken(
                old(futures)@,
                future_id as int,
                response,
            ),
        target == wake_target(old(futures)@, future_id as int),
        old(futures).wf() ==> final(futures).wf(),
{
    let response: FetchResponse = match response_type {
        FetchResponseType::Text => match body {
            JsValue::Str(text) => FetchResponse::Text(status, text),
            _ => unreached(),
        },
        FetchResponseType::ArrayBuffer => match body {
            JsValue::Buffer(bytes) => FetchResponse::ArrayBuffer(status, bytes),
            _ => unreached(),
        },
    };
    assert(response_matches(response, response_type, status, body@));
    FutureTask::wake(futures, future_id, response)
}

} // verus!
