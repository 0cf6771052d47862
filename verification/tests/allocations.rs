use tinyweb::allocations::create_allocation;
use tinyweb::allocations::get_allocation;
use tinyweb::allocations::Allocations;

#[test]
fn test_allocation() {
    let mut allocations = Allocations::new();

    // test string
    let text = "hello";
    let id = create_allocation(&mut allocations, 1);
    allocations.write(id, text.as_bytes().to_vec());
    let allocation_data = get_allocation(&allocations, id).to_owned();
    let memory_text = String::from_utf8(allocation_data).unwrap();
    assert_eq!(memory_text, text);

    // test vec
    let vec = vec![1, 2];
    let id = create_allocation(&mut allocations, 1);
    allocations.write(id, vec.clone());
    let memory_vec = get_allocation(&allocations, id).to_owned();
    assert_eq!(memory_vec, vec);
}

#[test]
fn reserved_slot_is_zero_filled_and_indexed_in_order() {
    let mut allocations = Allocations::new();
    assert_eq!(create_allocation(&mut allocations, 3), 0);
    assert_eq!(create_allocation(&mut allocations, 0), 1);
    assert_eq!(get_allocation(&allocations, 0), &vec![0u8, 0, 0]);
    assert_eq!(get_allocation(&allocations, 1), &Vec::<u8>::new());
    assert_eq!(allocations.len(), 2);
}

#[test]
fn slot_is_taken_exactly_once() {
    let mut allocations = Allocations::new();
    let first = create_allocation(&mut allocations, 2);
    let second = create_allocation(&mut allocations, 1);
    allocations.write(first, vec![7, 8]);
    allocations.write(second, vec![9]);

    assert_eq!(allocations.take(first), Some(vec![7, 8]));
    assert_eq!(allocations.take(first), None);
    assert!(!allocations.is_live(first));

    // the other slot kept its index and its contents
    assert!(allocations.is_live(second));
    assert_eq!(allocations.take(second), Some(vec![9]));
    assert_eq!(allocations.take(second), None);

    // every slot was taken: the table is empty again
    assert_eq!(allocations.len(), 0);
}

#[test]
fn taking_an_index_that_was_never_reserved_fails() {
    let mut allocations = Allocations::new();
    assert_eq!(allocations.take(0), None);
    create_allocation(&mut allocations, 1);
    assert_eq!(allocations.take(5), None);
    assert_eq!(allocations.len(), 1);
}
