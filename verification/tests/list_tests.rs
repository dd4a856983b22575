use picklist::list::SelectableList;

fn three_items() -> SelectableList {
    SelectableList {
        items: vec!["a".to_string(), "b".to_string(), "c".to_string()],
        cursor: Some(0),
    }
}

fn cursor_invariant_holds(list: &SelectableList) -> bool {
    match list.cursor {
        None => list.items.is_empty(),
        Some(i) => i < list.items.len(),
    }
}

#[test]
fn advance_wraps_around() {
    let mut list = three_items();
    list.advance();
    assert_eq!(list.cursor, Some(1));
    list.advance();
    assert_eq!(list.cursor, Some(2));
    list.advance();
    assert_eq!(list.cursor, Some(0));
}

#[test]
fn retreat_wraps_around() {
    let mut list = three_items();
    list.retreat();
    assert_eq!(list.cursor, Some(2));
    list.retreat();
    assert_eq!(list.cursor, Some(1));
    list.retreat();
    assert_eq!(list.cursor, Some(0));
}

#[test]
fn advance_then_retreat_is_a_round_trip() {
    let mut list = three_items();
    list.advance();
    let start = list.cursor;
    list.advance();
    list.retreat();
    assert_eq!(list.cursor, start);
    list.retreat();
    list.advance();
    assert_eq!(list.cursor, start);
}

#[test]
fn navigation_on_empty_list_is_a_noop() {
    let mut list = SelectableList { items: Vec::new(), cursor: None };
    list.advance();
    assert_eq!(list.cursor, None);
    list.retreat();
    assert_eq!(list.cursor, None);
}

#[test]
fn single_item_list_stays_on_its_item() {
    let mut list = SelectableList { items: vec!["a".to_string()], cursor: Some(0) };
    list.advance();
    assert_eq!(list.cursor, Some(0));
    list.retreat();
    assert_eq!(list.cursor, Some(0));
}

#[test]
fn reset_selection_restores_the_invariant() {
    let mut list = three_items();
    list.advance();
    list.reset_selection(vec!["x".to_string(), "y".to_string()]);
    assert_eq!(list.cursor, Some(0));
    assert_eq!(list.items, vec!["x".to_string(), "y".to_string()]);
    assert!(cursor_invariant_holds(&list));

    list.reset_selection(Vec::new());
    assert_eq!(list.cursor, None);
    assert!(list.items.is_empty());
    assert!(cursor_invariant_holds(&list));
}

#[test]
fn operations_preserve_the_cursor_invariant() {
    let mut list = three_items();
    for _ in 0..5 {
        list.advance();
        assert!(cursor_invariant_holds(&list));
        list.retreat();
        assert!(cursor_invariant_holds(&list));
    }
}
