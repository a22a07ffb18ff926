//! The search box on its own: query editing, selection movement, and the
//! staleness rule for applying results.
use sytui::compositor::{Callback, EventResult};
use sytui::domain::SearchResultItem;
use sytui::keys::{KeyCode, KeyEvent};
use sytui::search_box::SearchBox;

fn press(b: &mut SearchBox, code: KeyCode) -> EventResult {
    b.handle_key_event(&KeyEvent::plain(code))
}

fn item(id: &str, hpath: &str) -> SearchResultItem {
    SearchResultItem {
        id: id.to_string(),
        box_id: "box".to_string(),
        content: "content".to_string(),
        path: "/p".to_string(),
        hpath: hpath.to_string(),
    }
}

#[test]
fn search_box_initial_state() {
    let b = SearchBox::new("Search", "Result");
    assert!(b.input().is_empty());
    assert!(b.results.is_empty());
    assert_eq!(b.title, "Search");
    assert_eq!(b.cursor_position, 0);
}

#[test]
fn typing_inserts_at_the_cursor() {
    let mut b = SearchBox::new("Search", "Result");
    press(&mut b, KeyCode::Char('a'));
    press(&mut b, KeyCode::Char('c'));
    press(&mut b, KeyCode::Left);
    press(&mut b, KeyCode::Char('b'));
    assert_eq!(b.input(), &vec!['a', 'b', 'c']);
    assert_eq!(b.cursor_position, 2);
}

#[test]
fn backspace_deletes_before_the_cursor() {
    let mut b = SearchBox::new("Search", "Result");
    press(&mut b, KeyCode::Char('a'));
    press(&mut b, KeyCode::Char('b'));
    press(&mut b, KeyCode::Backspace);
    assert_eq!(b.input(), &vec!['a']);
    assert_eq!(b.cursor_position, 1);
    // backspace at the start is a no-op
    press(&mut b, KeyCode::Home);
    press(&mut b, KeyCode::Backspace);
    assert_eq!(b.input(), &vec!['a']);
}

#[test]
fn delete_removes_under_the_cursor() {
    let mut b = SearchBox::new("Search", "Result");
    press(&mut b, KeyCode::Char('a'));
    press(&mut b, KeyCode::Char('b'));
    press(&mut b, KeyCode::Home);
    press(&mut b, KeyCode::Delete);
    assert_eq!(b.input(), &vec!['b']);
    assert_eq!(b.cursor_position, 0);
}

#[test]
fn cursor_movement_clamps_to_the_query() {
    let mut b = SearchBox::new("Search", "Result");
    press(&mut b, KeyCode::Char('测'));
    press(&mut b, KeyCode::Char('试'));
    press(&mut b, KeyCode::Home);
    assert_eq!(b.cursor_position, 0);
    press(&mut b, KeyCode::Left);
    assert_eq!(b.cursor_position, 0);
    press(&mut b, KeyCode::Right);
    assert_eq!(b.cursor_position, 1);
    press(&mut b, KeyCode::End);
    assert_eq!(b.cursor_position, 2);
    press(&mut b, KeyCode::Right);
    assert_eq!(b.cursor_position, 2);
}

#[test]
fn edits_leave_the_latest_query_for_the_debounce_hook() {
    let mut b = SearchBox::new("Search", "Result");
    press(&mut b, KeyCode::Char('a'));
    press(&mut b, KeyCode::Char('b'));
    // latest value wins: only "ab" is waiting
    assert_eq!(b.take_debounce_feed(), Some(vec!['a', 'b']));
    assert_eq!(b.take_debounce_feed(), None);
    // cursor movement alone queues nothing
    press(&mut b, KeyCode::Left);
    assert_eq!(b.take_debounce_feed(), None);
}

#[test]
fn selection_moves_within_the_results() {
    let mut b = SearchBox::new("Search", "Result");
    b.results = vec![item("1", "/a"), item("2", "/b")];
    assert_eq!(b.selected_result, None);
    press(&mut b, KeyCode::Down);
    assert_eq!(b.selected_result, Some(0));
    press(&mut b, KeyCode::Down);
    assert_eq!(b.selected_result, Some(1));
    // stops at the last result
    press(&mut b, KeyCode::Down);
    assert_eq!(b.selected_result, Some(1));
    press(&mut b, KeyCode::Up);
    assert_eq!(b.selected_result, Some(0));
    press(&mut b, KeyCode::Up);
    assert_eq!(b.selected_result, Some(0));
    assert_eq!(b.selected_result(), Some(&"/a".to_string()));
    b.clear_selection();
    assert_eq!(b.selected_result, None);
}

#[test]
fn enter_asks_to_open_the_selected_document() {
    let mut b = SearchBox::new("Search", "Result");
    b.results = vec![item("1", "/a")];
    press(&mut b, KeyCode::Down);
    press(&mut b, KeyCode::Enter);
    assert_eq!(b.take_pending_open(), Some("box/p".to_string()));
    assert_eq!(b.take_pending_open(), None);
}

#[test]
fn escape_hands_back_a_pop_callback() {
    let mut b = SearchBox::new("Search", "Result");
    let r = press(&mut b, KeyCode::Esc);
    assert!(matches!(r, EventResult::Consumed(Some(Callback::Pop))));
}

#[test]
fn newer_results_replace_older_ones_only() {
    let mut b = SearchBox::new("Search", "Result");
    assert!(b.apply_results(1, vec![item("1", "/one")]));
    assert_eq!(b.results.len(), 1);
    assert_eq!(b.current_search_id, 1);
    // an equal or older sequence number is discarded
    assert!(!b.apply_results(1, vec![item("x", "/x")]));
    assert!(!b.apply_results(0, vec![item("y", "/y")]));
    assert_eq!(b.results[0].hpath, "/one");
    assert!(b.apply_results(3, vec![item("2", "/two")]));
    assert_eq!(b.results[0].hpath, "/two");
}
