//! The job queue: submission order, staleness of late results, and shutdown.
use sytui::compositor::{Component, Compositor, CompositorContext, Rect};
use sytui::domain::{results_from_response, SearchResultItem, SyBlock, SyResponse};
use sytui::jobs::{Job, JobQueue};
use sytui::keys::{Event, KeyCode, KeyEvent};

fn area() -> Rect {
    Rect { x: 0, y: 0, width: 80, height: 24 }
}

fn row(id: &str, hpath: &str) -> SearchResultItem {
    SearchResultItem {
        id: id.to_string(),
        box_id: "box".to_string(),
        content: "c".to_string(),
        path: "/p".to_string(),
        hpath: hpath.to_string(),
    }
}

fn compositor_with_search() -> (Compositor, CompositorContext) {
    let mut compositor = Compositor::new(area());
    let mut cx = CompositorContext::new();
    compositor.handle_event(&Event::Key(KeyEvent::plain(KeyCode::Char(' '))), &mut cx);
    (compositor, cx)
}

#[test]
fn jobs_run_in_submission_order() {
    // J1 and J2, submitted in that order from two different tasks and both
    // pending when the loop polls, are applied as J1 then J2: the search box
    // ends up showing J2's rows.
    let (mut compositor, _cx) = compositor_with_search();
    let mut jobs = JobQueue::new();
    assert!(jobs.dispatch(Job::UpdateSearchResults { search_id: 1, results: vec![row("1", "/one")] }));
    assert!(jobs.dispatch(Job::UpdateSearchResults { search_id: 2, results: vec![row("2", "/two")] }));
    jobs.run_pending(&mut compositor);
    let search = compositor.find_search().expect("search layer");
    assert_eq!(search.current_search_id, 2);
    assert_eq!(search.results[0].hpath, "/two");
}

#[test]
fn stale_result_is_discarded() {
    // Submissions s1 < s2 for the same logical query: if s1's job runs after
    // s2's was applied, the visible state stays s2's.
    let (mut compositor, _cx) = compositor_with_search();
    let jobs = JobQueue::new();
    jobs.handle_callback(
        &mut compositor,
        Some(Job::UpdateSearchResults { search_id: 2, results: vec![row("2", "/two")] }),
    );
    jobs.handle_callback(
        &mut compositor,
        Some(Job::UpdateSearchResults { search_id: 1, results: vec![row("1", "/one")] }),
    );
    let search = compositor.find_search().expect("search layer");
    assert_eq!(search.current_search_id, 2);
    assert_eq!(search.results.len(), 1);
    assert_eq!(search.results[0].hpath, "/two");
}

#[test]
fn open_document_lands_on_the_editor_and_pops() {
    let (mut compositor, _cx) = compositor_with_search();
    assert_eq!(compositor.height(), 2);
    let jobs = JobQueue::new();
    jobs.handle_callback(
        &mut compositor,
        Some(Job::OpenDocument { location: "box/doc.sy".to_string() }),
    );
    assert_eq!(compositor.height(), 1);
    match compositor.top() {
        Component::Editor(v) => assert_eq!(v.document, Some("box/doc.sy".to_string())),
        _ => panic!("expected the editor at the top"),
    }
}

#[test]
fn closed_queue_drops_submissions() {
    let mut jobs = JobQueue::new();
    jobs.close();
    assert!(!jobs.dispatch(Job::OpenDocument { location: "x".to_string() }));
    assert!(jobs.next_job().is_none());
}

#[test]
fn next_job_is_fifo() {
    let mut jobs = JobQueue::new();
    jobs.dispatch(Job::OpenDocument { location: "first".to_string() });
    jobs.dispatch(Job::OpenDocument { location: "second".to_string() });
    match jobs.next_job() {
        Some(Job::OpenDocument { location }) => assert_eq!(location, "first"),
        other => panic!("unexpected job: {:?}", other.is_some()),
    }
    match jobs.next_job() {
        Some(Job::OpenDocument { location }) => assert_eq!(location, "second"),
        other => panic!("unexpected job: {:?}", other.is_some()),
    }
    assert!(jobs.next_job().is_none());
}

#[test]
fn response_rows_reduce_to_result_items() {
    let block = SyBlock {
        alias: String::new(),
        box_id: "box1".to_string(),
        content: "hello".to_string(),
        created_at: String::new(),
        fcontent: String::new(),
        hash: String::new(),
        hpath: "/h".to_string(),
        ial: String::new(),
        id: "20230620165438-1pqr39r".to_string(),
        length: 5,
        markdown: String::new(),
        memo: String::new(),
        name: String::new(),
        parent_id: String::new(),
        path: "/p".to_string(),
        root_id: String::new(),
        sort: 0,
        subtype: String::new(),
        tag: String::new(),
        block_type: "d".to_string(),
        updated: String::new(),
    };
    let resp = SyResponse { code: 0, msg: "ok".to_string(), data: vec![block] };
    let items = results_from_response(&resp);
    assert_eq!(items.len(), 1);
    assert_eq!(items[0].id, "20230620165438-1pqr39r");
    assert_eq!(items[0].box_id, "box1");
    assert_eq!(items[0].content, "hello");
    assert_eq!(items[0].path, "/p");
    assert_eq!(items[0].hpath, "/h");
}
