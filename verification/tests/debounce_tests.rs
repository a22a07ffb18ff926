//! The trailing-edge debounce: coalescing rapid edits, idempotence on
//! repeated values, and the end-to-end search-box flow.
use sytui::compositor::{Component, Compositor, CompositorContext, Rect};
use sytui::debounce::{DebounceTimer, SearchBoxDebounce, SEARCH_BOX_DEFAULT_DEBOUNCE};
use sytui::domain::{build_search_sql, SearchResultItem};
use sytui::jobs::{Job, JobQueue};
use sytui::keys::{Event, KeyCode, KeyEvent};

fn chars(s: &str) -> Vec<char> {
    s.chars().collect()
}

#[test]
fn changed_value_arms_the_timer() {
    let mut hook = SearchBoxDebounce::new();
    assert_eq!(hook.handle_event(chars("a"), 100), Some(100 + SEARCH_BOX_DEFAULT_DEBOUNCE));
    assert_eq!(hook.handle_event(chars("ab"), 150), Some(150 + SEARCH_BOX_DEFAULT_DEBOUNCE));
}

#[test]
fn repeated_value_arms_at_most_one_timer() {
    // Feeding the same value several times in a row yields one deadline at
    // most: the first feed's.
    let mut hook = SearchBoxDebounce::new();
    let deadlines = vec![
        hook.handle_event(chars("ab"), 100),
        hook.handle_event(chars("ab"), 160),
        hook.handle_event(chars("ab"), 220),
        hook.handle_event(chars("ab"), 280),
    ];
    assert_eq!(deadlines.iter().filter(|d| d.is_some()).count(), 1);
    assert_eq!(deadlines[0], Some(600));
}

#[test]
fn finish_issues_the_query_with_a_fresh_sequence_number() {
    let mut hook = SearchBoxDebounce::new();
    hook.handle_event(chars("ab"), 0);
    let first = hook.finish_debounce();
    assert_eq!(first.query, chars("ab"));
    assert_eq!(first.seq, 1);
    hook.handle_event(chars("abc"), 700);
    let second = hook.finish_debounce();
    assert_eq!(second.query, chars("abc"));
    assert_eq!(second.seq, 2);
}

#[test]
fn timer_race_fires_once_per_quiet_period() {
    let mut timer = DebounceTimer::new();
    timer.on_input(chars("a"), 0);
    assert!(!timer.can_fire(499));
    timer.on_input(chars("ab"), 100);
    // the deadline moved with the newer edit
    assert!(!timer.can_fire(599));
    assert!(timer.can_fire(600));
    let submission = timer.on_timer();
    assert_eq!(submission.query, chars("ab"));
    assert_eq!(submission.seq, 1);
    // quiet afterwards: the unchanged value never re-arms the timer
    timer.on_input(chars("ab"), 700);
    timer.on_input(chars("ab"), 800);
    assert!(!timer.can_fire(u64::MAX));
}

#[test]
fn search_sql_embeds_the_query() {
    assert_eq!(
        build_search_sql(&chars("rust")),
        "SELECT * FROM blocks WHERE content LIKE '%rust%' and type='d' LIMIT 20"
    );
}

#[test]
fn search_flow_end_to_end() {
    // User opens the editor, presses the search key, types "a" and "b"
    // within the delay, and goes quiet: the stack grows to two layers,
    // no query is issued while typing, and exactly one query for "ab" is
    // issued after the quiet period. Escape then restores the base layer
    // and the editor's cursor.
    let area = Rect { x: 0, y: 0, width: 80, height: 24 };
    let mut compositor = Compositor::new(area);
    let mut cx = CompositorContext::new();
    let mut timer = DebounceTimer::new();
    let mut queries: Vec<sytui::debounce::QuerySubmission> = Vec::new();

    assert_eq!(compositor.height(), 1);
    let cursor_before = compositor.cursor_position(area);

    compositor.handle_event(&Event::Key(KeyEvent::plain(KeyCode::Char(' '))), &mut cx);
    assert_eq!(compositor.height(), 2);
    assert!(matches!(compositor.top(), Component::Search(_)));

    // type "a" at t=0 and "b" at t=100, pumping edits into the hook as the
    // event loop would
    for (c, now) in [('a', 0u64), ('b', 100u64)] {
        compositor.handle_event(&Event::Key(KeyEvent::plain(KeyCode::Char(c))), &mut cx);
        if let Some(feed) = compositor.take_debounce_feed() {
            timer.on_input(feed, now);
        }
        if timer.can_fire(now) {
            queries.push(timer.on_timer());
        }
    }
    assert_eq!(queries.len(), 0, "typing within the delay issues no query");

    // input goes quiet; at t=600 the timer wins the race
    assert!(timer.can_fire(600));
    queries.push(timer.on_timer());
    assert_eq!(queries.len(), 1);
    assert_eq!(queries[0].query, chars("ab"));
    assert!(!timer.can_fire(10_000), "one quiet period, one query");

    // the completed search comes back through the job queue
    let mut jobs = JobQueue::new();
    let rows = vec![SearchResultItem {
        id: "20230620165438-1pqr39r".to_string(),
        box_id: "box".to_string(),
        content: "ab in a title".to_string(),
        path: "/doc.sy".to_string(),
        hpath: "/notes/ab".to_string(),
    }];
    assert!(jobs.dispatch(Job::UpdateSearchResults { search_id: queries[0].seq, results: rows }));
    jobs.run_pending(&mut compositor);
    let search = compositor.find_search().expect("search layer");
    assert_eq!(search.results.len(), 1);
    assert_eq!(search.current_search_id, 1);

    // Escape pops the search layer and the editor owns the cursor again
    compositor.handle_event(&Event::Key(KeyEvent::plain(KeyCode::Esc)), &mut cx);
    assert_eq!(compositor.height(), 1);
    assert_eq!(compositor.cursor_position(area), cursor_before);
}
