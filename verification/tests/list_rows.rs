use bevy_tinkerbox_editor::list_rows::{list_rows, MAX_LIST_ROWS};

#[test]
fn rows_follow_the_header() {
    let rows = list_rows("inventory.items", 3);
    assert_eq!(rows.len(), 3);
    assert_eq!(rows[0].grid_row, 1);
    assert_eq!(rows[2].grid_row, 3);
    assert_eq!(rows[1].path, "inventory.items[1]");
    assert_eq!(rows[2].name, "2");
}

#[test]
fn empty_list_has_no_rows() {
    assert!(list_rows("items", 0).is_empty());
}

#[test]
fn longest_list_fills_the_last_row() {
    let rows = list_rows("v", MAX_LIST_ROWS);
    assert_eq!(rows.last().unwrap().grid_row, i16::MAX);
    assert_eq!(rows.last().unwrap().path, "v[32766]");
}
