//! Messages for the host's console.

use vstd::prelude::*;
use vstd::string::StringExecFns;
use crate::js::invocation;
use crate::js::invoke;
use crate::js::short;
use crate::js::views;
use crate::js::Host;
use crate::js::JsValue;
use crate::js::Value;
use crate::template::markers_from;

verus! {

fn message_param(message: &str) -> (params: Vec<JsValue>)
    ensures
        views(params@) == seq![Value::String(message@)],
{
    let mut params: Vec<JsValue> = Vec::new();
    params.push(JsValue::String(String::from_str(message)));
    assert(views(params@) =~= seq![Value::String(message@)]);
    params
}

/// Writes `message` to the host's console.
pub fn console_log(host: &mut Host, message: &str)
    requires
        short(message@),
    ensures
        final(host)@ == old(host)@.push(
            invocation("console.log({})"@, seq![Value::String(message@)]),
        ),
{
    proof {
        reveal_strlit("console.log({})");
        reveal_with_fuel(markers_from, 18);
    }
    invoke(host, "console.log({})", message_param(message).as_slice());
}

/// Writes `message` to the host's console as a piece of information.
pub fn console_info(host: &mut Host, message: &str)
    requires
        short(message@),
    ensures
        final(host)@ == old(host)@.push(
            invocation("console.info({})"@, seq![Value::String(message@)]),
        ),
{
    proof {
        reveal_strlit("console.info({})");
        reveal_with_fuel(markers_from, 18);
    }
    invoke(host, "console.info({})", message_param(message).as_slice());
}

/// Writes `message` to the host's console as a warning.
pub fn console_warn(host: &mut Host, message: &str)
    requires
        short(message@),
    ensures
        final(host)@ == old(host)@.push(
            invocation("console.warn({})"@, seq![Value::String(message@)]),
        ),
{
    proof {
        reveal_strlit("console.warn({})");
        reveal_with_fuel(markers_from, 18);
    }
    invoke(host, "console.warn({})", message_param(message).as_slice());
}

/// Writes `message` to the host's console as an error.
pub fn console_error(host: &mut Host, message: &str)
    requires
        short(message@),
    ensures
        final(host)@ == old(host)@.push(
            invocation("console.error({})"@, seq![Value::String(message@)]),
        ),
{
    proof {
        reveal_strlit("console.error({})");
        reveal_with_fuel(markers_from, 18);
    }
    invoke(host, "console.error({})", message_param(message).as_slice());
}

} // verus!
