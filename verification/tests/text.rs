use turn_recovery::text::{decimal_text, item_id_text, parse_item_index};

#[test]
fn numbers_are_written_in_decimal() {
    assert_eq!(decimal_text(0), "0");
    assert_eq!(decimal_text(9), "9");
    assert_eq!(decimal_text(10), "10");
    assert_eq!(decimal_text(2048), "2048");
    assert_eq!(decimal_text(u64::MAX), "18446744073709551615");
}

#[test]
fn item_ids_are_read_back() {
    for index in [0, 1, 9, 10, 123, u64::MAX] {
        assert_eq!(parse_item_index(&item_id_text(index)), Some(index));
    }
    assert_eq!(item_id_text(3), "item-3");
}

#[test]
fn other_ids_have_no_number() {
    for id in [
        "",
        "item-",
        "item",
        "items-1",
        "Item-1",
        "item-1a",
        "item--1",
        "item-+1",
        "item-18446744073709551616",
        "item-99999999999999999999999",
        "saved-progress",
        "ítem-1",
    ] {
        assert_eq!(parse_item_index(id), None, "{id}");
    }
    assert_eq!(parse_item_index("item-007"), Some(7));
}
