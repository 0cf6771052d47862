use tinyweb::console::console_error;
use tinyweb::console::console_info;
use tinyweb::console::console_log;
use tinyweb::console::console_warn;
use tinyweb::js::serialize;
use tinyweb::js::Host;
use tinyweb::js::HostCall;
use tinyweb::js::JsValue;

#[test]
fn console_messages_go_to_their_channel() {
    let mut host = Host::new();
    console_log(&mut host, "a");
    console_info(&mut host, "b");
    console_warn(&mut host, "c");
    console_error(&mut host, "d");
    let calls = host.take_calls();
    let expected = [("log", "a"), ("info", "b"), ("warn", "c"), ("error", "d")];
    assert_eq!(calls.len(), expected.len());
    for (call, (channel, message)) in calls.iter().zip(expected) {
        match call {
            HostCall::Invoke { code, params } => {
                assert_eq!(code, &format!("function(p0){{console.{}(p0)}}", channel));
                assert_eq!(params, &serialize(&[JsValue::from(message)]));
            }
            other => panic!("unexpected call {:?}", other),
        }
    }
}
