//! The editor view: the base layer that shows the open document, moves the
//! cursor within the content area, and opens the search box.
use vstd::prelude::*;

use crate::compositor::{Callback, CallbackV, Component, ComponentV, EventResult, EventResultV,
    Position, Rect};
use crate::gutter::{GutterConfig, GutterType};
use crate::keys::{Event, KeyCode, KeyEvent};
use crate::search_box::{spec_search_box_new, SearchBox};

verus! {

/// The mathematical value of the editor view.
#[verifier::ext_equal]
pub struct EditorViewV {
    pub cursor_position: Position,
    pub gutter_area: Rect,
    pub content_area: Rect,
    pub document: Option<Seq<char>>,
    pub status_msg: Option<Seq<char>>,
    pub count: Option<u32>,
    pub gutter: Seq<GutterType>,
}

/// The editor view component.
pub struct EditorView {
    /// Cursor position within the content area.
    pub cursor_position: Position,
    /// Where the gutter was laid out at the last render.
    pub gutter_area: Rect,
    /// Where the document content was laid out at the last render.
    pub content_area: Rect,
    /// Location of the open document, if one is loaded.
    pub document: Option<String>,
    /// The status line's message.
    pub status_msg: Option<String>,
    /// Pending count prefix for repeatable commands.
    pub count: Option<u32>,
    /// The gutter configuration.
    pub gutter: GutterConfig,
}

impl View for EditorView {
    type V = EditorViewV;

    open spec fn view(&self) -> EditorViewV {
        EditorViewV {
            cursor_position: self.cursor_position,
            gutter_area: self.gutter_area,
            content_area: self.content_area,
            document: match self.document {
                Some(ref d) => Some(d@),
                None => None,
            },
            status_msg: match self.status_msg {
                Some(ref s) => Some(s@),
                None => None,
            },
            count: self.count,
            gutter: self.gutter.layout@,
        }
    }
}

/// The value of a fresh editor view.
pub open spec fn spec_editor_view_new() -> EditorViewV {
    EditorViewV {
        cursor_position: Position { x: 0, y: 0 },
        gutter_area: Rect { x: 0, y: 0, width: 0, height: 0 },
        content_area: Rect { x: 0, y: 0, width: 0, height: 0 },
        document: None,
        status_msg: Some("status"@),
        count: None,
        gutter: seq![GutterType::Spacer, GutterType::Icon],
    }
}

/// Where an arrow key moves the cursor: down and right stop at the content
/// area's edge, up and left stop at zero.
pub open spec fn spec_cursor_move(v: EditorViewV, code: KeyCode) -> EditorViewV {
    let p = v.cursor_position;
    match code {
        KeyCode::Down => if p.y + 1 < v.content_area.height {
            EditorViewV { cursor_position: Position { x: p.x, y: (p.y + 1) as u16 }, ..v }
        } else {
            v
        },
        KeyCode::Up => EditorViewV {
            cursor_position: Position { x: p.x, y: if p.y > 0 {
                (p.y - 1) as u16
            } else {
                0
            } },
            ..v
        },
        KeyCode::Left => EditorViewV {
            cursor_position: Position { x: if p.x > 0 {
                (p.x - 1) as u16
            } else {
                0
            }, y: p.y },
            ..v
        },
        KeyCode::Right => if p.x + 1 < v.content_area.width {
            EditorViewV { cursor_position: Position { x: (p.x + 1) as u16, y: p.y }, ..v }
        } else {
            v
        },
        _ => v,
    }
}

/// What one key does to the editor view: space opens the search box through
/// a callback, arrows move the cursor, anything else bubbles on.
pub open spec fn spec_editor_handle_key(v: EditorViewV, k: KeyEvent) -> (
    EditorViewV,
    EventResultV,
) {
    match k.code {
        KeyCode::Char(c) => if c == ' ' {
            (
                v,
                EventResultV::Consumed(
                    Some(CallbackV::Push(ComponentV::Search(spec_search_box_new("Search"@)))),
                ),
            )
        } else {
            (v, EventResultV::Ignored(None))
        },
        KeyCode::Down => (spec_cursor_move(v, k.code), EventResultV::Consumed(None)),
        KeyCode::Up => (spec_cursor_move(v, k.code), EventResultV::Consumed(None)),
        KeyCode::Left => (spec_cursor_move(v, k.code), EventResultV::Consumed(None)),
        KeyCode::Right => (spec_cursor_move(v, k.code), EventResultV::Consumed(None)),
        _ => (v, EventResultV::Ignored(None)),
    }
}

/// Where the editor view claims the terminal cursor: its own cursor, offset
/// into the content area, saturating at the screen edge.
pub open spec fn spec_editor_cursor(v: EditorViewV) -> (int, int) {
    (
        crate::compositor::spec_sat_add_u16(v.content_area.x as int, v.cursor_position.x as int),
        crate::compositor::spec_sat_add_u16(v.content_area.y as int, v.cursor_position.y as int),
    )
}

/// What any terminal event does to the editor view.
pub open spec fn spec_editor_handle(v: EditorViewV, e: Event) -> (EditorViewV, EventResultV) {
    match e {
        Event::Key(k) => spec_editor_handle_key(v, k),
        _ => (v, EventResultV::Consumed(None)),
    }
}

impl EditorView {
    /// A fresh editor view with nothing loaded.
    pub fn new() -> (r: EditorView)
        ensures
            r@ == spec_editor_view_new(),
    {
        let r = EditorView {
            cursor_position: Position { x: 0, y: 0 },
            gutter_area: Rect { x: 0, y: 0, width: 0, height: 0 },
            content_area: Rect { x: 0, y: 0, width: 0, height: 0 },
            document: None,
            status_msg: Some(String::from_str("status")),
            count: None,
            gutter: GutterConfig::default(),
        };
        proof {
            assert(r@ =~= spec_editor_view_new());
        }
        r
    }

    /// Move the cursor one step, staying inside the content area.
    fn cursor_move(&mut self, code: KeyCode) -> (r: EventResult)
        ensures
            final(self)@ == spec_cursor_move(old(self)@, code),
            r@ == EventResultV::Consumed(None),
    {
        let p = self.cursor_position;
        match code {
            KeyCode::Down => {
                if p.y < u16::MAX && p.y + 1 < self.content_area.height {
                    self.cursor_position = Position { x: p.x, y: p.y + 1 };
                }
            },
            KeyCode::Up => {
                if p.y > 0 {
                    self.cursor_position = Position { x: p.x, y: p.y - 1 };
                }
            },
            KeyCode::Left => {
                if p.x > 0 {
                    self.cursor_position = Position { x: p.x - 1, y: p.y };
                }
            },
            KeyCode::Right => {
                if p.x < u16::MAX && p.x + 1 < self.content_area.width {
                    self.cursor_position = Position { x: p.x + 1, y: p.y };
                }
            },
            _ => {},
        }
        EventResult::Consumed(None)
    }

    /// Handle one key press.
    pub fn handle_key_event(&mut self, event: &KeyEvent) -> (r: EventResult)
        ensures
            (final(self)@, r@) == spec_editor_handle_key(old(self)@, *event),
    {
        match event.code {
            KeyCode::Char(c) => {
                if c == ' ' {
                    let search_box = SearchBox::new("Search", "Result");
                    EventResult::Consumed(Some(Callback::Push(Component::Search(search_box))))
                } else {
                    EventResult::Ignored(None)
                }
            },
            KeyCode::Down => self.cursor_move(event.code),
            KeyCode::Up => self.cursor_move(event.code),
            KeyCode::Left => self.cursor_move(event.code),
            KeyCode::Right => self.cursor_move(event.code),
            _ => EventResult::Ignored(None),
        }
    }

    /// Handle one terminal event.
    pub fn handle_event(&mut self, event: &Event) -> (r: EventResult)
        ensures
            (final(self)@, r@) == spec_editor_handle(old(self)@, *event),
    {
        match event {
            Event::Key(k) => self.handle_key_event(k),
            _ => EventResult::Consumed(None),
        }
    }

    /// Where the terminal cursor belongs: the view's cursor, offset into the
    /// content area.
    pub fn cursor_position(&self, area: Rect) -> (r: Option<(u16, u16)>)
        ensures
            r matches Some(p) && p.0 as int == spec_editor_cursor(self@).0 && p.1 as int
                == spec_editor_cursor(self@).1,
    {
        let x = crate::compositor::sat_add_u16(self.content_area.x, self.cursor_position.x);
        let y = crate::compositor::sat_add_u16(self.content_area.y, self.cursor_position.y);
        Some((x, y))
    }
}

} // verus!
