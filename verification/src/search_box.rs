//! The modal search box: an editable query line, the result list, and the
//! staleness rule that keeps late results from clobbering newer ones.
use vstd::prelude::*;

use crate::compositor::{Callback, EventResult, EventResultV};
use crate::domain::SearchResultItem;
use crate::keys::{Event, KeyCode, KeyEvent};
use crate::text::copy_vec;

verus! {

/// The mathematical value of one search hit.
#[verifier::ext_equal]
pub struct SearchResultItemV {
    pub id: Seq<char>,
    pub box_id: Seq<char>,
    pub content: Seq<char>,
    pub path: Seq<char>,
    pub hpath: Seq<char>,
}

impl View for SearchResultItem {
    type V = SearchResultItemV;

    open spec fn view(&self) -> SearchResultItemV {
        SearchResultItemV {
            id: self.id@,
            box_id: self.box_id@,
            content: self.content@,
            path: self.path@,
            hpath: self.hpath@,
        }
    }
}

/// The mathematical value of the search box.
#[verifier::ext_equal]
pub struct SearchBoxV {
    pub cursor_position: int,
    pub input: Seq<char>,
    pub results: Seq<SearchResultItemV>,
    pub selected_result: Option<int>,
    pub title: Seq<char>,
    pub width: u16,
    pub height: u16,
    pub current_search_id: int,
    pub pending_feed: Option<Seq<char>>,
    pub pending_open: Option<Seq<char>>,
}

/// The search box component. The query is held as characters, so the cursor
/// is a plain index. Edits leave the latest query in `pending_feed` for the
/// debounce hook (a latest-value-wins slot), and Enter leaves the selected
/// document's location in `pending_open` for the loader.
#[derive(Debug)]
pub struct SearchBox {
    pub cursor_position: usize,
    /// The current query, one element per character.
    pub input: Vec<char>,
    /// The search results shown.
    pub results: Vec<SearchResultItem>,
    pub selected_result: Option<usize>,
    /// The input line's title.
    pub title: String,
    pub width: u16,
    pub height: u16,
    /// The newest search sequence number whose results were applied.
    pub current_search_id: u64,
    /// The latest query not yet handed to the debounce hook.
    pub pending_feed: Option<Vec<char>>,
    /// The location of a document the user asked to open.
    pub pending_open: Option<String>,
}

impl View for SearchBox {
    type V = SearchBoxV;

    open spec fn view(&self) -> SearchBoxV {
        SearchBoxV {
            cursor_position: self.cursor_position as int,
            input: self.input@,
            results: Seq::new(
                self.results@.len(),
                |i: int|
                    if 0 <= i < self.results@.len() {
                        self.results@[i]@
                    } else {
                        arbitrary()
                    },
            ),
            selected_result: match self.selected_result {
                Some(i) => Some(i as int),
                None => None,
            },
            title: self.title@,
            width: self.width,
            height: self.height,
            current_search_id: self.current_search_id as int,
            pending_feed: match self.pending_feed {
                Some(ref f) => Some(f@),
                None => None,
            },
            pending_open: match self.pending_open {
                Some(ref p) => Some(p@),
                None => None,
            },
        }
    }
}

impl SearchBoxV {
    /// The cursor sits inside the query and the selection inside the results.
    pub open spec fn wf(&self) -> bool {
        &&& 0 <= self.cursor_position <= self.input.len()
        &&& match self.selected_result {
            Some(i) => 0 <= i < self.results.len(),
            None => true,
        }
    }
}

/// The value of a fresh search box with the given title.
pub open spec fn spec_search_box_new(title: Seq<char>) -> SearchBoxV {
    SearchBoxV {
        cursor_position: 0,
        input: Seq::<char>::empty(),
        results: Seq::<SearchResultItemV>::empty(),
        selected_result: None,
        title: title,
        width: 0,
        height: 0,
        current_search_id: 0,
        pending_feed: None,
        pending_open: None,
    }
}

/// What one key does to the search box, and what the compositor is told.
pub open spec fn spec_search_box_handle_key(v: SearchBoxV, k: KeyEvent) -> (
    SearchBoxV,
    EventResultV,
) {
    match k.code {
        KeyCode::Char(c) => {
            let input2 = v.input.insert(v.cursor_position, c);
            (
                SearchBoxV {
                    input: input2,
                    cursor_position: v.cursor_position + 1,
                    pending_feed: Some(input2),
                    ..v
                },
                EventResultV::Consumed(None),
            )
        },
        KeyCode::Backspace => {
            if v.cursor_position > 0 {
                let input2 = v.input.remove(v.cursor_position - 1);
                (
                    SearchBoxV {
                        input: input2,
                        cursor_position: v.cursor_position - 1,
                        pending_feed: Some(input2),
                        ..v
                    },
                    EventResultV::Consumed(None),
                )
            } else {
                (v, EventResultV::Consumed(None))
            }
        },
        KeyCode::Delete => {
            if v.cursor_position < v.input.len() {
                let input2 = v.input.remove(v.cursor_position);
                (
                    SearchBoxV { input: input2, pending_feed: Some(input2), ..v },
                    EventResultV::Consumed(None),
                )
            } else {
                (v, EventResultV::Consumed(None))
            }
        },
        KeyCode::Left => {
            if v.cursor_position > 0 {
                (
                    SearchBoxV { cursor_position: v.cursor_position - 1, ..v },
                    EventResultV::Consumed(None),
                )
            } else {
                (v, EventResultV::Consumed(None))
            }
        },
        KeyCode::Right => {
            if v.cursor_position < v.input.len() {
                (
                    SearchBoxV { cursor_position: v.cursor_position + 1, ..v },
                    EventResultV::Consumed(None),
                )
            } else {
                (v, EventResultV::Consumed(None))
            }
        },
        KeyCode::Home => (SearchBoxV { cursor_position: 0, ..v }, EventResultV::Consumed(None)),
        KeyCode::End => (
            SearchBoxV { cursor_position: v.input.len() as int, ..v },
            EventResultV::Consumed(None),
        ),
        KeyCode::Enter => {
            match v.selected_result {
                Some(i) => if 0 <= i < v.results.len() {
                    (
                        SearchBoxV {
                            pending_open: Some(v.results[i].box_id + v.results[i].path),
                            ..v
                        },
                        EventResultV::Consumed(None),
                    )
                } else {
                    (v, EventResultV::Consumed(None))
                },
                None => (v, EventResultV::Consumed(None)),
            }
        },
        KeyCode::Down => {
            if v.results.len() > 0 {
                let sel = match v.selected_result {
                    Some(i) => if i < v.results.len() - 1 {
                        i + 1
                    } else {
                        v.results.len() - 1
                    },
                    None => 0int,
                };
                (SearchBoxV { selected_result: Some(sel), ..v }, EventResultV::Consumed(None))
            } else {
                (v, EventResultV::Consumed(None))
            }
        },
        KeyCode::Up => {
            if v.results.len() > 0 {
                let sel = match v.selected_result {
                    Some(i) => if i > 0 {
                        i - 1
                    } else {
                        0int
                    },
                    None => 0int,
                };
                (SearchBoxV { selected_result: Some(sel), ..v }, EventResultV::Consumed(None))
            } else {
                (v, EventResultV::Consumed(None))
            }
        },
        KeyCode::Esc => (v, EventResultV::Consumed(Some(crate::compositor::CallbackV::Pop))),
        _ => (v, EventResultV::Ignored(None)),
    }
}

/// Where the search box claims the terminal cursor: just right of the
/// prompt, past the query text before the cursor, on the input line of the
/// box's inset frame, saturating at the screen edge.
pub open spec fn spec_search_cursor(v: SearchBoxV, area: crate::compositor::Rect) -> (int, int) {
    (
        crate::compositor::spec_sat_add_u16(
            area.x as int,
            crate::compositor::spec_sat_add_u16(
                9,
                crate::width::spec_chars_width_clamped(v.input.take(v.cursor_position)),
            ),
        ),
        crate::compositor::spec_sat_add_u16(area.y as int, 6),
    )
}

/// What any terminal event does to the search box: keys are handled, other
/// events are consumed without effect.
pub open spec fn spec_search_box_handle(v: SearchBoxV, e: Event) -> (SearchBoxV, EventResultV) {
    match e {
        Event::Key(k) => spec_search_box_handle_key(v, k),
        _ => (v, EventResultV::Consumed(None)),
    }
}

impl Default for SearchBox {
    /// An empty, titled search box.
    fn default() -> (r: SearchBox)
        ensures
            r@ == spec_search_box_new("Search"@),
            r@.wf(),
    {
        let r = SearchBox {
            cursor_position: 0,
            input: Vec::new(),
            results: Vec::new(),
            selected_result: None,
            title: String::from_str("Search"),
            width: 0,
            height: 0,
            current_search_id: 0,
            pending_feed: None,
            pending_open: None,
        };
        proof {
            assert(r@.results =~= Seq::<SearchResultItemV>::empty());
            assert(r@ =~= spec_search_box_new("Search"@));
        }
        r
    }
}

impl SearchBox {
    /// A search box with the given title.
    pub fn new(title: &str, results_title: &str) -> (r: SearchBox)
        ensures
            r@ == spec_search_box_new(title@),
            r@.wf(),
    {
        let mut r = SearchBox::default();
        r.title = title.to_owned();
        proof {
            assert(r@ =~= spec_search_box_new(title@));
        }
        r
    }

    /// The current query.
    pub fn input(&self) -> (r: &Vec<char>)
        ensures
            r == &self.input,
    {
        &self.input
    }

    /// The location of the currently selected result.
    pub fn selected_result(&self) -> (r: Option<&String>)
        ensures
            match r {
                Some(s) => {
                    &&& self@.selected_result matches Some(i)
                    &&& 0 <= i < self@.results.len()
                    &&& s@ == self@.results[self@.selected_result->Some_0].hpath
                },
                None => match self@.selected_result {
                    Some(i) => !(0 <= i < self@.results.len()),
                    None => true,
                },
            },
    {
        match self.selected_result {
            Some(i) => if i < self.results.len() {
                Some(&self.results[i].hpath)
            } else {
                None
            },
            None => None,
        }
    }

    /// Clear the selection.
    pub fn clear_selection(&mut self)
        ensures
            *final(self) == (SearchBox { selected_result: None, ..*old(self) }),
    {
        self.selected_result = None;
    }

    /// Hand out the latest query edit, if one is waiting for the debounce
    /// hook. The slot keeps only the latest value.
    pub fn take_debounce_feed(&mut self) -> (r: Option<Vec<char>>)
        ensures
            *final(self) == (SearchBox { pending_feed: None, ..*old(self) }),
            match r {
                Some(f) => old(self)@.pending_feed == Some(f@),
                None => old(self)@.pending_feed is None,
            },
    {
        let mut out: Option<Vec<char>> = None;
        core::mem::swap(&mut out, &mut self.pending_feed);
        out
    }

    /// Hand out the location of a document the user asked to open.
    pub fn take_pending_open(&mut self) -> (r: Option<String>)
        ensures
            *final(self) == (SearchBox { pending_open: None, ..*old(self) }),
            match r {
                Some(p) => old(self)@.pending_open == Some(p@),
                None => old(self)@.pending_open is None,
            },
    {
        let mut out: Option<String> = None;
        core::mem::swap(&mut out, &mut self.pending_open);
        out
    }

    /// Apply the results of a finished search, unless something newer was
    /// already applied: a result tagged with a sequence number no greater
    /// than the last applied one is discarded unchanged.
    pub fn apply_results(&mut self, search_id: u64, results: Vec<SearchResultItem>) -> (applied:
        bool)
        ensures
            applied == (search_id > old(self).current_search_id),
            applied ==> {
                &&& final(self)@ == (SearchBoxV {
                    results: results@.map_values(|it: SearchResultItem| it@),
                    selected_result: None,
                    current_search_id: search_id as int,
                    ..old(self)@
                })
            },
            !applied ==> *final(self) == *old(self),
            old(self)@.wf() ==> final(self)@.wf(),
    {
        if search_id > self.current_search_id {
            self.results = results;
            self.selected_result = None;
            self.current_search_id = search_id;
            proof {
                assert(final(self)@.results =~= results@.map_values(|it: SearchResultItem| it@));
                assert(final(self)@ =~= (SearchBoxV {
                    results: results@.map_values(|it: SearchResultItem| it@),
                    selected_result: None,
                    current_search_id: search_id as int,
                    ..old(self)@
                }));
            }
            true
        } else {
            false
        }
    }

    /// Handle one key press: edit the query, move the cursor or the
    /// selection, ask for a document to be opened, or — on Escape — hand the
    /// compositor a callback that pops this layer.
    pub fn handle_key_event(&mut self, event: &KeyEvent) -> (r: EventResult)
        requires
            old(self)@.wf(),
        ensures
            (final(self)@, r@) == spec_search_box_handle_key(old(self)@, *event),
            final(self)@.wf(),
    {
        let ghost v0 = self@;
        match event.code {
            KeyCode::Char(c) => {
                self.input.insert(self.cursor_position, c);
                let grown = self.input.len();
                proof {
                    assert(self.cursor_position < grown);
                }
                self.cursor_position = self.cursor_position + 1;
                let feed = copy_vec(&self.input);
                self.pending_feed = Some(feed);
                proof {
                    assert(final(self)@ =~= spec_search_box_handle_key(v0, *event).0);
                }
                EventResult::Consumed(None)
            },
            KeyCode::Backspace => {
                if self.cursor_position > 0 {
                    self.input.remove(self.cursor_position - 1);
                    self.cursor_position = self.cursor_position - 1;
                    let feed = copy_vec(&self.input);
                    self.pending_feed = Some(feed);
                    proof {
                        assert(final(self)@ =~= spec_search_box_handle_key(v0, *event).0);
                    }
                }
                EventResult::Consumed(None)
            },
            KeyCode::Delete => {
                if self.cursor_position < self.input.len() {
                    self.input.remove(self.cursor_position);
                    let feed = copy_vec(&self.input);
                    self.pending_feed = Some(feed);
                    proof {
                        assert(final(self)@ =~= spec_search_box_handle_key(v0, *event).0);
                    }
                }
                EventResult::Consumed(None)
            },
            KeyCode::Left => {
                if self.cursor_position > 0 {
                    self.cursor_position = self.cursor_position - 1;
                    proof {
                        assert(final(self)@ =~= spec_search_box_handle_key(v0, *event).0);
                    }
                }
                EventResult::Consumed(None)
            },
            KeyCode::Right => {
                if self.cursor_position < self.input.len() {
                    self.cursor_position = self.cursor_position + 1;
                    proof {
                        assert(final(self)@ =~= spec_search_box_handle_key(v0, *event).0);
                    }
                }
                EventResult::Consumed(None)
            },
            KeyCode::Home => {
                self.cursor_position = 0;
                proof {
                    assert(final(self)@ =~= spec_search_box_handle_key(v0, *event).0);
                }
                EventResult::Consumed(None)
            },
            KeyCode::End => {
                self.cursor_position = self.input.len();
                proof {
                    assert(final(self)@ =~= spec_search_box_handle_key(v0, *event).0);
                }
                EventResult::Consumed(None)
            },
            KeyCode::Enter => {
                match self.selected_result {
                    Some(i) => if i < self.results.len() {
                        let mut loc = self.results[i].box_id.clone();
                        loc.append(self.results[i].path.as_str());
                        self.pending_open = Some(loc);
                        proof {
                            assert(final(self)@ =~= spec_search_box_handle_key(v0, *event).0);
                        }
                    },
                    None => {},
                }
                EventResult::Consumed(None)
            },
            KeyCode::Down => {
                if self.results.len() > 0 {
                    let sel: usize = match self.selected_result {
                        Some(i) => if i < self.results.len() - 1 {
                            i + 1
                        } else {
                            self.results.len() - 1
                        },
                        None => 0,
                    };
                    self.selected_result = Some(sel);
                    proof {
                        assert(final(self)@ =~= spec_search_box_handle_key(v0, *event).0);
                    }
                }
                EventResult::Consumed(None)
            },
            KeyCode::Up => {
                if self.results.len() > 0 {
                    let sel: usize = match self.selected_result {
                        Some(i) => if i > 0 {
                            i - 1
                        } else {
                            0
                        },
                        None => 0,
                    };
                    self.selected_result = Some(sel);
                    proof {
                        assert(final(self)@ =~= spec_search_box_handle_key(v0, *event).0);
                    }
                }
                EventResult::Consumed(None)
            },
            KeyCode::Esc => EventResult::Consumed(Some(Callback::Pop)),
            _ => EventResult::Ignored(None),
        }
    }

    /// Where the terminal cursor belongs: see `spec_search_cursor`.
    pub fn cursor_position(&self, area: crate::compositor::Rect) -> (r: Option<(u16, u16)>)
        requires
            self@.wf(),
        ensures
            r matches Some(p) && p.0 as int == spec_search_cursor(self@, area).0 && p.1 as int
                == spec_search_cursor(self@, area).1,
    {
        let mut w: u16 = 0;
        let mut j: usize = 0;
        proof {
            assert(self@.input.take(0) =~= Seq::<char>::empty());
        }
        while j < self.cursor_position
            invariant
                self@.wf(),
                j <= self@.cursor_position,
                w as int == (if crate::width::spec_chars_width(self@.input.take(j as int)) > 0xffff {
                    0xffff
                } else {
                    crate::width::spec_chars_width(self@.input.take(j as int)) as int
                }),
            decreases self@.cursor_position - j,
        {
            proof {
                assert(self@.input.take(j as int + 1).drop_last() =~= self@.input.take(j as int));
                assert(self@.input.take(j as int + 1).last() == self@.input[j as int]);
            }
            let cw = crate::width::char_display_width(self.input[j]);
            w = crate::compositor::sat_add_u16(w, cw as u16);
            j = j + 1;
        }
        let x = crate::compositor::sat_add_u16(area.x, crate::compositor::sat_add_u16(9, w));
        let y = crate::compositor::sat_add_u16(area.y, 6);
        Some((x, y))
    }

    /// Handle one terminal event: keys are handled, everything else is
    /// consumed without effect.
    pub fn handle_event(&mut self, event: &Event) -> (r: EventResult)
        requires
            old(self)@.wf(),
        ensures
            (final(self)@, r@) == spec_search_box_handle(old(self)@, *event),
            final(self)@.wf(),
    {
        match event {
            Event::Key(k) => self.handle_key_event(k),
            _ => EventResult::Consumed(None),
        }
    }
}

} // verus!
