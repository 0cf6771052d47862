use tinyweb::bytes::of_twos_complement;
use tinyweb::bytes::push_le;
use tinyweb::bytes::read_le;
use tinyweb::bytes::to_twos_complement;
use tinyweb::slots::take_slot;
use tinyweb::template::chars_of;
use tinyweb::template::push_decimal;
use tinyweb::template::push_param_list;
use tinyweb::template::push_param_name;
use tinyweb::template::push_substituted;

#[test]
fn numbers_are_written_least_significant_byte_first() {
    let mut buffer = vec![9u8];
    push_le(&mut buffer, 0x0102_0304, 4);
    assert_eq!(buffer, vec![9, 4, 3, 2, 1]);
    push_le(&mut buffer, 0x0102_0304, 2);
    assert_eq!(buffer, vec![9, 4, 3, 2, 1, 4, 3]);
    push_le(&mut buffer, 7, 0);
    assert_eq!(buffer.len(), 7);
    let mut buffer = Vec::new();
    push_le(&mut buffer, u64::MAX - 1, 8);
    assert_eq!(buffer, (u64::MAX - 1).to_le_bytes().to_vec());
}

#[test]
fn numbers_are_read_back_from_their_bytes() {
    let bytes = [0xaa, 4, 3, 2, 1, 0, 0, 0, 0x80, 0xbb];
    assert_eq!(read_le(&bytes, 1, 4), 0x0102_0304);
    assert_eq!(read_le(&bytes, 1, 8), 0x8000_0000_0102_0304);
    assert_eq!(read_le(&bytes, 0, 1), 0xaa);
    assert_eq!(read_le(&bytes, 3, 0), 0);
    assert_eq!(read_le(&[0xff; 8], 0, 8), u64::MAX);
}

#[test]
fn twos_complement_is_the_machine_pattern() {
    for n in [0i64, 1, -1, 42, -42, i64::MAX, i64::MIN, i64::MIN + 1] {
        assert_eq!(to_twos_complement(n), n as u64, "{}", n);
        assert_eq!(of_twos_complement(n as u64), n, "{}", n);
    }
}

#[test]
fn decimal_has_no_leading_zeros() {
    for n in [0usize, 7, 9, 10, 11, 99, 100, 101, 1234567890] {
        let mut out = "n=".to_owned();
        push_decimal(&mut out, n);
        assert_eq!(out, format!("n={}", n));
    }
}

#[test]
fn parameter_names_are_listed_with_commas() {
    let mut out = String::new();
    push_param_list(&mut out, 0);
    assert_eq!(out, "");
    push_param_list(&mut out, 1);
    assert_eq!(out, "p0");
    let mut out = "(".to_owned();
    push_param_list(&mut out, 3);
    assert_eq!(out, "(p0,p1,p2");
    let mut out = String::new();
    push_param_name(&mut out, 12);
    assert_eq!(out, "p12");
}

#[test]
fn markers_are_replaced_from_the_left_while_names_are_left() {
    let substituted = |code: &str, count: usize| {
        let mut out = String::new();
        push_substituted(&mut out, code, count);
        out
    };
    assert_eq!(substituted("{}+{}", 2), "p0+p1");
    assert_eq!(substituted("{}+{}", 1), "p0+{}");
    assert_eq!(substituted("{}+{}", 0), "{}+{}");
    assert_eq!(substituted("{}+{}", 3), "p0+p1");
    assert_eq!(substituted("{{}}", 1), "{p0}");
    assert_eq!(substituted("é{}ü", 1), "ép0ü");
    assert_eq!(substituted("", 2), "");
    assert_eq!(substituted("{", 1), "{");
    assert_eq!(chars_of("aé"), vec!['a', 'é']);
}

#[test]
fn slot_table_shrinks_past_the_taken_slots_at_its_end() {
    let mut slots = vec![Some('a'), Some('b'), Some('c')];
    assert_eq!(take_slot(&mut slots, 1), Some('b'));
    assert_eq!(slots, vec![Some('a'), None, Some('c')]);
    assert_eq!(take_slot(&mut slots, 1), None);
    assert_eq!(take_slot(&mut slots, 2), Some('c'));
    assert_eq!(slots, vec![Some('a')]);
    assert_eq!(take_slot(&mut slots, 7), None);
    assert_eq!(take_slot(&mut slots, 0), Some('a'));
    assert!(slots.is_empty());
}
