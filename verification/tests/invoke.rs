use tinyweb::allocations::create_allocation;
use tinyweb::allocations::Allocations;
use tinyweb::invoke::HostCall;
use tinyweb::invoke::Js;
use tinyweb::invoke::JsValue;
use tinyweb::invoke::ObjectRef;
use tinyweb::template::count_markers;

fn cs(s: &str) -> String {
    s.chars().filter(|c| !c.is_whitespace()).collect::<String>()
}

fn text(s: &str) -> JsValue {
    JsValue::Str(s.to_owned())
}

fn object(id: u32) -> JsValue {
    JsValue::Ref(ObjectRef(id))
}

#[test]
fn test_params() {
    // undefined
    assert_eq!(JsValue::Undefined.serialize(), vec![0]);

    // null
    assert_eq!(JsValue::Null.serialize(), vec![1]);

    // number
    assert_eq!(
        JsValue::Number(42f64.to_bits()).serialize(),
        [vec![2], 42f64.to_le_bytes().to_vec()].concat()
    );

    // bigint
    assert_eq!(JsValue::BigInt(42).serialize(), [vec![3], 42u64.to_le_bytes().to_vec()].concat());

    // string
    let text = "hello".to_owned();
    let text_ptr = text.as_ptr() as u32;
    let text_len = text.len() as u64;
    let expected =
        [vec![4], text_ptr.to_le_bytes().to_vec(), text_len.to_le_bytes().to_vec()].concat();
    assert_eq!(JsValue::Str(text).serialize(), expected);

    // bool
    assert_eq!(JsValue::Bool(true).serialize(), vec![5]);
    assert_eq!(JsValue::Bool(false).serialize(), vec![6]);

    // object ref
    assert_eq!(
        JsValue::Ref(ObjectRef(42)).serialize(),
        [vec![7], 42u32.to_le_bytes().to_vec()].concat()
    );

    // buffer
    assert_eq!(JsValue::Buffer(vec![1, 2, 3]).serialize(), [vec![8], vec![1, 2, 3]].concat());
}

#[test]
fn test_code() {
    // prompt
    let code = Js::__code("return prompt({},{})", &["a".into(), "b".into()]);
    let expected_code = "function(p0,p1){ return prompt(p0,p1) }";
    assert_eq!(cs(&code), cs(&expected_code));

    // console log
    let code = Js::__code("console.log({})", &["a".into()]);
    let expected_code = "function(p0){ console.log(p0) }";
    assert_eq!(cs(&code), cs(&expected_code));

    // alert
    let code = Js::__code("alert({})", &["a".into()]);
    let expected_code = "function(p0){ alert(p0) }";
    assert_eq!(cs(&code), cs(&expected_code));

    // set attribute
    let code = Js::__code("{}.setAttribute({},{})", &[ObjectRef(0).into(), "a".into(), "b".into()]);
    let expected_code = "function(p0,p1,p2){ p0.setAttribute(p1, p2) }";
    assert_eq!(cs(&code), cs(&expected_code));

    // append child
    let code = Js::__code("{}.appendChild({})", &[ObjectRef(0).into(), ObjectRef(0).into()]);
    let expected_code = "function(p0,p1){ p0.appendChild(p1) }";
    assert_eq!(cs(&code), cs(&expected_code));

    // add class
    let code = Js::__code("{}.classList.add({})", &[ObjectRef(0).into(), "a".into()]);
    let expected_code = "function(p0,p1){ p0.classList.add(p1) }";
    assert_eq!(cs(&code), cs(&expected_code));

    // set property
    let code = Js::__code("{}[{}] = {}", &[ObjectRef(0).into(), "a".into(), "a".into()]);
    let expected_code = "function(p0,p1,p2){ p0[p1] = p2 }";
    assert_eq!(cs(&code), cs(&expected_code));

    // set inner html
    let code = Js::__code("{}.innerHTML = {}", &[ObjectRef(0).into(), "a".into()]);
    let expected_code = "function(p0,p1){ p0.innerHTML = p1 }";
    assert_eq!(cs(&code), cs(&expected_code));

    // history push state
    // NOTE: {} is parsed as the first parameter
    let code = Js::__code("window.history.pushState({ },{},{})", &["a".into(), "b".into()]);
    let expected_code = "function(p0,p1){ window.history.pushState({ },p0,p1) }";
    assert_eq!(cs(&code), cs(&expected_code));

    // location pathname
    let code = Js::__code("return window.location.pathname", &[]);
    let expected_code = "function() { return window.location.pathname }";
    assert_eq!(cs(&code), cs(&expected_code));

    // get property string
    let code = Js::__code("return {}[{}]", &[ObjectRef(0).into(), "b".into()]);
    let expected_code = "function(p0,p1){ return p0[p1] }";
    assert_eq!(cs(&code), cs(&expected_code));

    // prompt dialog
    let code = Js::__code("return prompt({},{})", &["a".into(), "b".into()]);
    let expected_code = "function(p0,p1){ return prompt(p0,p1) }";
    assert_eq!(cs(&code), cs(&expected_code));

    // random number
    let code = Js::__code("return Math.random()", &[]);
    let expected_code = "function(){ return Math.random() }";
    assert_eq!(cs(&code), cs(&expected_code));

    // get property
    let code = Js::__code("return {}[{}]", &[ObjectRef(0).into(), "a".into()]);
    let expected_code = "function(p0,p1){ return p0[p1] }";
    assert_eq!(cs(&code), cs(&expected_code));

    // query selector
    let code = Js::__code("return document.querySelector({})", &["a".into()]);
    let expected_code = "function(p0){ return document.querySelector(p0) }";
    assert_eq!(cs(&code), cs(&expected_code));

    // create element
    let code = Js::__code("return document.createElement({})", &["a".into()]);
    let expected_code = "function(p0){ return document.createElement(p0) }";
    assert_eq!(cs(&code), cs(&expected_code));

    // create text node
    let code = Js::__code("return document.createTextNode({})", &["a".into()]);
    let expected_code = "function(p0){ return document.createTextNode(p0) }";
    assert_eq!(cs(&code), cs(&expected_code));
}

#[test]
fn routine_names_three_parameters_in_place() {
    let code = Js::__code("{}.f({},{})", &[object(1), text("a"), JsValue::Null]);
    assert_eq!(code, "function(p0,p1,p2) { p0.f(p1,p2) }");
}

#[test]
fn routine_counts_parameters_past_nine() {
    let template = "f({},{},{},{},{},{},{},{},{},{},{},{})";
    assert_eq!(count_markers(template), 12);
    let params: Vec<JsValue> = (0..12).map(|_| JsValue::Null).collect();
    let code = Js::__code(template, &params);
    assert_eq!(
        code,
        "function(p0,p1,p2,p3,p4,p5,p6,p7,p8,p9,p10,p11) { f(p0,p1,p2,p3,p4,p5,p6,p7,p8,p9,p10,p11) }"
    );
}

#[test]
fn markers_are_counted_left_to_right() {
    assert_eq!(count_markers(""), 0);
    assert_eq!(count_markers("{ }"), 0);
    assert_eq!(count_markers("{}"), 1);
    assert_eq!(count_markers("{{}}"), 1);
    assert_eq!(count_markers("{}{}"), 2);
    assert_eq!(count_markers("}{"), 0);
    assert_eq!(count_markers("window.history.pushState({ },{},{})"), 2);
}

#[test]
fn negative_bigint_is_written_in_twos_complement() {
    assert_eq!(JsValue::BigInt(-1).serialize(), [vec![3], vec![0xff; 8]].concat());
    assert_eq!(
        JsValue::BigInt(i64::MIN).serialize(),
        [vec![3], i64::MIN.to_le_bytes().to_vec()].concat()
    );
    assert_eq!(
        JsValue::BigInt(-2).serialize(),
        [vec![3], (-2i64).to_le_bytes().to_vec()].concat()
    );
}

#[test]
fn text_goes_out_by_the_address_given() {
    let bytes = JsValue::Str("héllo".to_owned()).serialize_at(0x0102_0304);
    let expected = [vec![4], vec![4, 3, 2, 1], 6usize.to_le_bytes().to_vec()].concat();
    assert_eq!(bytes, expected);
}

#[test]
fn parameter_list_is_the_values_in_order() {
    let params = vec![JsValue::Bool(true), JsValue::Ref(ObjectRef(3)), JsValue::Undefined];
    assert_eq!(Js::encode(&params), vec![5, 7, 3, 0, 0, 0, 0]);
    assert_eq!(Js::encode(&[]), Vec::<u8>::new());
}

#[test]
fn packed_result_is_split_into_tag_and_word() {
    assert_eq!(Js::unpack(0), (0, 0));
    assert_eq!(Js::unpack((6u64 << 32) | 1), (6, 1));
    assert_eq!(Js::unpack(u64::MAX), (u32::MAX, u32::MAX));
    assert_eq!(Js::unpack(0x0000_0002_0000_002a), (2, 42));
}

#[test]
fn scalar_results_use_the_word() {
    let mut allocations = Allocations::new();
    assert!(matches!(
        JsValue::deserialize(&mut allocations, 0, 9, None),
        JsValue::Undefined
    ));
    assert!(matches!(
        JsValue::deserialize(&mut allocations, 2, 42, None),
        JsValue::Ref(ObjectRef(42))
    ));
    assert!(matches!(
        JsValue::deserialize(&mut allocations, 5, 42, None),
        JsValue::BigInt(42)
    ));
    assert!(matches!(
        JsValue::deserialize(&mut allocations, 5, u32::MAX, None),
        JsValue::BigInt(4294967295)
    ));
    assert!(matches!(
        JsValue::deserialize(&mut allocations, 6, 1, None),
        JsValue::Bool(true)
    ));
    assert!(matches!(
        JsValue::deserialize(&mut allocations, 6, 0, None),
        JsValue::Bool(false)
    ));
    assert!(matches!(
        JsValue::deserialize(&mut allocations, 6, 2, None),
        JsValue::Bool(false)
    ));
    assert_eq!(allocations.len(), 0);
}

#[test]
fn results_behind_a_slot_take_it_exactly_once() {
    let mut allocations = Allocations::new();

    // text
    let id = create_allocation(&mut allocations, 5);
    allocations.write(id, "héllo".as_bytes().to_vec());
    let value = JsValue::deserialize(&mut allocations, 4, id, None);
    assert_eq!(value.to_str(), Ok("héllo".to_owned()));
    assert!(!allocations.is_live(id));

    // buffer
    let id = create_allocation(&mut allocations, 3);
    allocations.write(id, vec![1, 2, 3]);
    let value = JsValue::deserialize(&mut allocations, 3, id, None);
    assert_eq!(value.to_buffer(), Ok(vec![1, 2, 3]));
    assert!(!allocations.is_live(id));

    // number: the text in the slot is read by the caller
    let id = create_allocation(&mut allocations, 4);
    allocations.write(id, b"1.5".to_vec());
    let reading: f64 = "1.5".parse().unwrap();
    let value = JsValue::deserialize(&mut allocations, 1, id, Some(reading.to_bits()));
    assert_eq!(value.to_num().map(f64::from_bits), Ok(1.5));
    assert!(!allocations.is_live(id));
    assert_eq!(allocations.len(), 0);
}

#[test]
fn ill_formed_text_is_read_lossily() {
    let mut allocations = Allocations::new();
    let id = create_allocation(&mut allocations, 0);
    allocations.write(id, vec![b'a', 0xff, b'b']);
    let value = JsValue::deserialize(&mut allocations, 4, id, None);
    assert_eq!(value.to_str(), Ok("a\u{fffd}b".to_owned()));
}

#[test]
fn typed_accessors_fail_on_another_kind() {
    let invalid = Err("Invalid type".to_owned());
    assert_eq!(JsValue::Null.to_bool(), invalid);
    assert_eq!(JsValue::Bool(true).to_bool(), Ok(true));
    assert_eq!(JsValue::Number(7).to_str(), Err("Invalid type".to_owned()));
    assert_eq!(JsValue::Str("x".to_owned()).to_num(), Err("Invalid type".to_owned()));
    assert_eq!(JsValue::Number(7).to_num(), Ok(7));
    assert_eq!(JsValue::Undefined.to_ref(), Err("Invalid type".to_owned()));
    assert_eq!(JsValue::Ref(ObjectRef::new(3)).to_ref(), Ok(ObjectRef(3)));
    assert_eq!(JsValue::Bool(false).to_buffer(), Err("Invalid type".to_owned()));
    assert_eq!(JsValue::Buffer(vec![1]).to_bigint(), Err("Invalid type".to_owned()));
    assert_eq!(JsValue::BigInt(-5).to_bigint(), Ok(-5));
}

#[test]
fn calls_are_queued_in_order_and_handed_out_once() {
    let mut js = Js::new();
    js.invoke("{}.remove()", vec![JsValue::Ref(ObjectRef(4))]);
    js.deallocate(ObjectRef(4));
    let calls = js.take_calls();
    assert_eq!(calls.len(), 2);
    match &calls[0] {
        HostCall::Invoke { code, params } => {
            assert_eq!(code, "function(p0) { p0.remove() }");
            assert_eq!(Js::encode(params), vec![7, 4, 0, 0, 0]);
        }
        other => panic!("unexpected call {:?}", other),
    }
    assert!(matches!(calls[1], HostCall::Release { id: 4 }));
    assert!(js.take_calls().is_empty());
}

#[test]
fn values_are_made_from_plain_values_of_the_guest() {
    assert!(matches!(JsValue::from("a"), JsValue::Str(s) if s == "a"));
    assert!(matches!(JsValue::from("b".to_owned()), JsValue::Str(s) if s == "b"));
    assert!(matches!(JsValue::from(ObjectRef(2)), JsValue::Ref(ObjectRef(2))));
    assert!(matches!(JsValue::from(&ObjectRef(3)), JsValue::Ref(ObjectRef(3))));
    assert!(matches!(JsValue::from(7u32), JsValue::Number(n) if n == 7f64.to_bits()));
    assert!(matches!(JsValue::from(-7i32), JsValue::Number(n) if n == (-7f64).to_bits()));
    assert_eq!(*ObjectRef::new(9), 9);
}

#[test]
fn result_that_cannot_be_decoded_changes_nothing() {
    let mut allocations = Allocations::new();
    let id = create_allocation(&mut allocations, 1);

    // a tag that stands for no kind
    assert!(JsValue::try_deserialize(&mut allocations, 7, 0, None).is_none());
    assert!(JsValue::try_deserialize(&mut allocations, u32::MAX, 0, None).is_none());
    // a slot that is not live
    assert!(JsValue::try_deserialize(&mut allocations, 3, id + 1, None).is_none());
    assert!(JsValue::try_deserialize(&mut allocations, 4, 99, None).is_none());
    // a number without its reading
    assert!(JsValue::try_deserialize(&mut allocations, 1, id, None).is_none());
    assert!(allocations.is_live(id));
    assert_eq!(allocations.len(), 1);

    let value = JsValue::try_deserialize(&mut allocations, 3, id, None).unwrap();
    assert_eq!(value.to_buffer(), Ok(vec![0]));
    assert!(JsValue::try_deserialize(&mut allocations, 3, id, None).is_none());
    assert!(matches!(
        JsValue::try_deserialize(&mut allocations, 2, 5, None),
        Some(JsValue::Ref(ObjectRef(5)))
    ));
}
