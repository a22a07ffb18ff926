//! The compositor stack: dispatch, callbacks, the base-layer invariant, and
//! type-directed lookup.
use sytui::compositor::{AppAction, Component, Compositor, CompositorContext, Rect};
use sytui::keys::{Event, KeyCode, KeyEvent};
use sytui::search_box::SearchBox;

fn area() -> Rect {
    Rect { x: 0, y: 0, width: 80, height: 24 }
}

fn key_event(c: char) -> Event {
    Event::Key(KeyEvent::plain(KeyCode::Char(c)))
}

#[test]
fn base_layer_always_exists() {
    let mut compositor = Compositor::new(area());
    assert_eq!(compositor.height(), 1);
    // popping the base layer is refused
    assert!(compositor.pop().is_none());
    assert_eq!(compositor.height(), 1);

    compositor.push(Component::Search(SearchBox::new("Search", "Result")));
    assert_eq!(compositor.height(), 2);
    assert!(compositor.pop().is_some());
    assert_eq!(compositor.height(), 1);
    assert!(compositor.pop().is_none());
    assert_eq!(compositor.height(), 1);
}

#[test]
fn find_after_pop_of_last_search_returns_none() {
    let mut compositor = Compositor::new(area());
    compositor.push(Component::Search(SearchBox::new("Search", "Result")));
    assert!(compositor.find_search().is_some());
    let popped = compositor.pop();
    assert!(matches!(popped, Some(Component::Search(_))));
    assert!(compositor.find_search().is_none());
}

#[test]
fn space_opens_the_search_box() {
    let mut compositor = Compositor::new(area());
    let mut cx = CompositorContext::new();
    let redraw = compositor.handle_event(&key_event(' '), &mut cx);
    assert!(redraw);
    assert_eq!(compositor.height(), 2);
    assert!(matches!(compositor.top(), Component::Search(_)));
    assert!(compositor.find_search().is_some());
}

#[test]
fn escape_pops_the_search_box() {
    let mut compositor = Compositor::new(area());
    let mut cx = CompositorContext::new();
    compositor.handle_event(&key_event(' '), &mut cx);
    assert_eq!(compositor.height(), 2);
    compositor.handle_event(&Event::Key(KeyEvent::plain(KeyCode::Esc)), &mut cx);
    assert_eq!(compositor.height(), 1);
    assert!(matches!(compositor.top(), Component::Editor(_)));
}

#[test]
fn search_box_consumes_keys_above_the_editor() {
    let mut compositor = Compositor::new(area());
    let mut cx = CompositorContext::new();
    compositor.handle_event(&key_event(' '), &mut cx);
    // 'a' goes to the search box, not to the editor
    compositor.handle_event(&key_event('a'), &mut cx);
    let search = compositor.find_search().expect("search layer");
    assert_eq!(search.input(), &vec!['a']);
}

#[test]
fn cursor_owner_follows_the_top_layer() {
    let mut compositor = Compositor::new(area());
    let mut cx = CompositorContext::new();
    let editor_cursor = compositor.cursor_position(area());
    assert!(editor_cursor.is_some());

    compositor.handle_event(&key_event(' '), &mut cx);
    let search_cursor = compositor.cursor_position(area());
    // the search box puts the cursor after its prompt on the input line
    assert_eq!(search_cursor, Some((9, 6)));

    compositor.handle_event(&Event::Key(KeyEvent::plain(KeyCode::Esc)), &mut cx);
    assert_eq!(compositor.cursor_position(area()), editor_cursor);
}

#[test]
fn ctrl_c_asks_for_exit() {
    let mut compositor = Compositor::new(area());
    let mut cx = CompositorContext::new();
    let ctrl_c = Event::Key(KeyEvent {
        code: KeyCode::Char('c'),
        modifiers: sytui::keys::KeyModifiers { shift: false, alt: false, control: true },
    });
    assert_eq!(compositor.handle_terminal_event(&ctrl_c, &mut cx), AppAction::Exit);
    assert_eq!(
        compositor.handle_terminal_event(&key_event('c'), &mut cx),
        AppAction::Continue
    );
}

#[test]
fn resize_updates_the_area_before_dispatch() {
    let mut compositor = Compositor::new(area());
    let mut cx = CompositorContext::new();
    let action = compositor.handle_terminal_event(&Event::Resize(100, 40), &mut cx);
    assert_eq!(action, AppAction::Continue);
    assert_eq!(compositor.height(), 1);
}

#[test]
fn arrow_keys_move_the_editor_cursor() {
    let mut compositor = Compositor::new(area());
    let mut cx = CompositorContext::new();
    let before = compositor.cursor_position(area());
    compositor.handle_event(&Event::Key(KeyEvent::plain(KeyCode::Down)), &mut cx);
    let after = compositor.cursor_position(area());
    // a fresh editor has a zero-sized content area, so the cursor stays put
    assert_eq!(before, after);
}
