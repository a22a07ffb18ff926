//! Basic library-level behaviour: arithmetic, node identifiers, widths.
use sytui::add;
use sytui::model::{calculate_item_width, calculate_items_width, calculate_line_width,
    DocumentLine, InLineItem};
use sytui::node::is_node_id_pattern;

fn title_item(content: &str) -> InLineItem {
    InLineItem::default_title(content.to_string())
}

#[test]
fn lib_it_works() {
    let result = add(2, 2);
    assert_eq!(result, 4);
}

#[test]
fn node_id_pattern_accepts_real_ids() {
    assert!(is_node_id_pattern("20230620165438-1pqr39r"));
    assert!(is_node_id_pattern("20060102150405-1a2b3c4"));
}

#[test]
fn node_id_pattern_rejects_malformed_ids() {
    // wrong length
    assert!(!is_node_id_pattern("20230620165438-1pqr39"));
    assert!(!is_node_id_pattern(""));
    // no dash at the split point
    assert!(!is_node_id_pattern("202306201654381xpqr39r"));
    // non-digit in the timestamp
    assert!(!is_node_id_pattern("2023062016543x-1pqr39r"));
    // uppercase in the random part
    assert!(!is_node_id_pattern("20230620165438-1PQR39R"));
    // multibyte text of the right byte length is not an id
    assert!(!is_node_id_pattern("2023062016543（-1pqr39r"));
}

#[test]
fn item_width_counts_display_columns() {
    // ASCII is one column per character; CJK is two.
    assert_eq!(calculate_item_width(&title_item("abc")), 3);
    assert_eq!(calculate_item_width(&title_item("测试")), 4);
    assert_eq!(calculate_item_width(&title_item("")), 0);
}

#[test]
fn items_width_sums_the_row() {
    let items = vec![title_item("ab"), title_item("测"), title_item("c")];
    assert_eq!(calculate_items_width(&items), 2 + 2 + 1);
}

#[test]
fn line_width_matches_its_items() {
    let line = DocumentLine::default_with_items(vec![title_item("hello"), title_item("!")]);
    assert_eq!(calculate_line_width(&line), 6);
}

#[test]
fn default_with_item_keeps_the_break_flag() {
    let mut item = title_item("x");
    item.line_break = true;
    let line = DocumentLine::default_with_item(item);
    assert!(line.break_line);
    assert_eq!(line.content.len(), 1);
}
