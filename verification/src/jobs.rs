//! The job queue: the one channel through which background tasks reach the
//! compositor. Jobs are self-contained values; the event loop takes them out
//! in submission order and applies each with exclusive compositor access.
use vstd::prelude::*;

use crate::compositor::{spec_find_editor, spec_find_search, ComponentV, Compositor};
use crate::domain::SearchResultItem;
use crate::editor_view::EditorViewV;
use crate::search_box::{SearchBoxV, SearchResultItemV};

verus! {

/// One unit of deferred work against the compositor.
pub enum Job {
    /// Hand a finished search's rows to the search box, tagged with the
    /// search's sequence number.
    UpdateSearchResults { search_id: u64, results: Vec<SearchResultItem> },
    /// Open a loaded document in the editor and pop the search layer.
    OpenDocument { location: String },
}

/// The mathematical value of a job.
#[verifier::ext_equal]
pub enum JobV {
    UpdateSearchResults { search_id: int, results: Seq<SearchResultItemV> },
    OpenDocument { location: Seq<char> },
}

impl View for Job {
    type V = JobV;

    open spec fn view(&self) -> JobV {
        match *self {
            Job::UpdateSearchResults { search_id, ref results } => JobV::UpdateSearchResults {
                search_id: search_id as int,
                results: results@.map_values(|it: SearchResultItem| it@),
            },
            Job::OpenDocument { ref location } => JobV::OpenDocument { location: location@ },
        }
    }
}

/// What applying one job does to the layer stack. Mirrors the compositor's
/// own contracts: search results land on the search-box layer unless they
/// are stale; an opened document lands on the editor layer and pops the top.
pub open spec fn spec_apply_job(layers: Seq<ComponentV>, j: JobV) -> Seq<ComponentV> {
    match j {
        JobV::UpdateSearchResults { search_id, results } => match spec_find_search(layers) {
            None => layers,
            Some(i) => {
                let s0 = layers[i]->Search_0;
                if search_id > s0.current_search_id {
                    layers.update(
                        i,
                        ComponentV::Search(
                            SearchBoxV {
                                results: results,
                                selected_result: None,
                                current_search_id: search_id,
                                ..s0
                            },
                        ),
                    )
                } else {
                    layers
                }
            },
        },
        JobV::OpenDocument { location } => match spec_find_editor(layers) {
            None => layers,
            Some(i) => {
                let updated = layers.update(
                    i,
                    ComponentV::Editor(
                        EditorViewV { document: Some(location), ..layers[i]->Editor_0 },
                    ),
                );
                if updated.len() > 1 {
                    updated.drop_last()
                } else {
                    updated
                }
            },
        },
    }
}

/// Applying a queue of jobs, in submission order.
pub open spec fn spec_apply_jobs(layers: Seq<ComponentV>, jobs: Seq<JobV>) -> Seq<ComponentV>
    decreases jobs.len(),
{
    if jobs.len() == 0 {
        layers
    } else {
        spec_apply_jobs(spec_apply_job(layers, jobs[0]), jobs.drop_first())
    }
}

/// A mathematical view of the queue's contents, in submission order.
pub open spec fn jobs_view(s: Seq<Job>) -> Seq<JobV> {
    Seq::new(
        s.len(),
        |i: int|
            if 0 <= i < s.len() {
                s[i]@
            } else {
                arbitrary()
            },
    )
}

/// The process-wide job queue: a bounded FIFO of jobs. The embedding
/// application wraps it in its channel of choice; submission order is what
/// this type guarantees.
pub struct JobQueue {
    /// Pending jobs, oldest first.
    pub callbacks: Vec<Job>,
    /// How many jobs may wait at once; a full queue exerts backpressure.
    pub capacity: usize,
    /// Whether the sending side was shut down.
    pub closed: bool,
}

impl JobQueue {
    /// A fresh queue with the conventional capacity.
    pub fn new() -> (r: JobQueue)
        ensures
            jobs_view(r.callbacks@) == Seq::<JobV>::empty(),
            r.capacity == 1024,
            !r.closed,
    {
        let r = JobQueue { callbacks: Vec::new(), capacity: 1024, closed: false };
        proof {
            assert(jobs_view(r.callbacks@) =~= Seq::<JobV>::empty());
        }
        r
    }

    /// Submit a job. After shutdown this is silently a no-op; otherwise the
    /// job joins the back of the queue. A full queue exerts backpressure:
    /// the caller waits for room before submitting.
    pub fn dispatch(&mut self, job: Job) -> (accepted: bool)
        requires
            old(self).closed || old(self).callbacks@.len() < old(self).capacity,
        ensures
            old(self).closed ==> !accepted && *final(self) == *old(self),
            !old(self).closed ==> {
                &&& accepted
                &&& jobs_view(final(self).callbacks@) == jobs_view(old(self).callbacks@).push(job@)
                &&& final(self).capacity == old(self).capacity
                &&& !final(self).closed
            },
    {
        if self.closed {
            false
        } else {
            self.callbacks.push(job);
            proof {
                assert(jobs_view(self.callbacks@) =~= jobs_view(old(self).callbacks@).push(job@));
            }
            true
        }
    }

    /// Shut the queue down: later submissions are dropped.
    pub fn close(&mut self)
        ensures
            final(self).closed,
            final(self).callbacks == old(self).callbacks,
            final(self).capacity == old(self).capacity,
    {
        self.closed = true;
    }

    /// Take the oldest pending job, if any.
    pub fn next_job(&mut self) -> (r: Option<Job>)
        ensures
            old(self).callbacks@.len() == 0 ==> r is None && *final(self) == *old(self),
            old(self).callbacks@.len() > 0 ==> {
                &&& r matches Some(j) && j@ == jobs_view(old(self).callbacks@)[0]
                &&& jobs_view(final(self).callbacks@) == jobs_view(
                    old(self).callbacks@,
                ).drop_first()
                &&& final(self).capacity == old(self).capacity
                &&& final(self).closed == old(self).closed
            },
    {
        if self.callbacks.len() == 0 {
            None
        } else {
            let j = self.callbacks.remove(0);
            proof {
                assert(jobs_view(self.callbacks@) =~= jobs_view(old(self).callbacks@).drop_first());
            }
            Some(j)
        }
    }

    /// Run one received job against the compositor, as the event loop does
    /// right after its select observes it.
    pub fn handle_callback(&self, compositor: &mut Compositor, call: Option<Job>)
        requires
            old(compositor).wf(),
        ensures
            final(compositor).wf(),
            final(compositor).spec_area() == old(compositor).spec_area(),
            match call {
                None => final(compositor).spec_layers() == old(compositor).spec_layers(),
                Some(j) => final(compositor).spec_layers() == spec_apply_job(
                    old(compositor).spec_layers(),
                    j@,
                ),
            },
    {
        match call {
            None => {},
            Some(Job::UpdateSearchResults { search_id, results }) => {
                let _ = compositor.update_search_results(search_id, results);
            },
            Some(Job::OpenDocument { location }) => {
                let _ = compositor.open_document(location);
            },
        }
    }

    /// Drain the queue against the compositor: every pending job runs, in
    /// submission order.
    pub fn run_pending(&mut self, compositor: &mut Compositor)
        requires
            old(compositor).wf(),
        ensures
            final(compositor).wf(),
            final(compositor).spec_area() == old(compositor).spec_area(),
            final(compositor).spec_layers() == spec_apply_jobs(
                old(compositor).spec_layers(),
                jobs_view(old(self).callbacks@),
            ),
            jobs_view(final(self).callbacks@) == Seq::<JobV>::empty(),
            final(self).capacity == old(self).capacity,
            final(self).closed == old(self).closed,
    {
        while self.callbacks.len() > 0
            invariant
                compositor.wf(),
                compositor.spec_area() == old(compositor).spec_area(),
                self.capacity == old(self).capacity,
                self.closed == old(self).closed,
                spec_apply_jobs(compositor.spec_layers(), jobs_view(self.callbacks@))
                    == spec_apply_jobs(
                    old(compositor).spec_layers(),
                    jobs_view(old(self).callbacks@),
                ),
            decreases self.callbacks@.len(),
        {
            let ghost pending0 = jobs_view(self.callbacks@);
            let ghost l0 = compositor.spec_layers();
            let j = self.next_job();
            proof {
                assert(pending0.len() > 0);
                assert(spec_apply_jobs(l0, pending0) == spec_apply_jobs(
                    spec_apply_job(l0, pending0[0]),
                    pending0.drop_first(),
                ));
            }
            self.handle_callback(compositor, j);
        }
        proof {
            assert(jobs_view(self.callbacks@) =~= Seq::<JobV>::empty());
        }
    }
}

/// A holder for a value that is set up once at startup and lives for the
/// whole process, such as the job queue's sending side.
pub struct RunTimeLocal<T: 'static> {
    pub __data: T,
}

impl<T> RunTimeLocal<T> {
    /// The held value.
    pub fn get(&self) -> (r: &T)
        ensures
            r == &self.__data,
    {
        &self.__data
    }
}

/// Job ordering: two jobs submitted in order, both pending when the event
/// loop next polls, are applied in submission order — the second acts on the
/// state the first produced.
pub proof fn lemma_jobs_in_submission_order(layers: Seq<ComponentV>, j1: JobV, j2: JobV)
    ensures
        spec_apply_jobs(layers, seq![j1, j2]) == spec_apply_job(spec_apply_job(layers, j1), j2),
{
    let q = seq![j1, j2];
    let l1 = spec_apply_job(layers, j1);
    let l2 = spec_apply_job(l1, j2);
    assert(q.drop_first() =~= seq![j2]);
    assert(seq![j2].drop_first() =~= Seq::<JobV>::empty());
    assert(spec_apply_jobs(layers, q) == spec_apply_jobs(l1, seq![j2]));
    assert(spec_apply_jobs(l1, seq![j2]) == spec_apply_jobs(l2, Seq::<JobV>::empty()));
    assert(spec_apply_jobs(l2, Seq::<JobV>::empty()) == l2);
}

/// Staleness: once the results of a newer search have been applied, a job
/// carrying an older search's results is a no-op — the visible state stays
/// that of the newer search.
pub proof fn lemma_stale_result_discarded(
    layers: Seq<ComponentV>,
    s1: int,
    r1: Seq<SearchResultItemV>,
    s2: int,
    r2: Seq<SearchResultItemV>,
)
    requires
        s1 < s2,
    ensures
        ({
            let after2 = spec_apply_job(
                layers,
                JobV::UpdateSearchResults { search_id: s2, results: r2 },
            );
            spec_apply_job(after2, JobV::UpdateSearchResults { search_id: s1, results: r1 })
                == after2
        }),
{
    let after2 = spec_apply_job(layers, JobV::UpdateSearchResults { search_id: s2, results: r2 });
    match spec_find_search(layers) {
        None => {
            assert(after2 == layers);
        },
        Some(i) => {
            lemma_find_search_is_search(layers);
            let s0 = layers[i]->Search_0;
            if s2 > s0.current_search_id {
                lemma_find_search_update(
                    layers,
                    i,
                    ComponentV::Search(
                        SearchBoxV {
                            results: r2,
                            selected_result: None,
                            current_search_id: s2,
                            ..s0
                        },
                    ),
                );
                assert(spec_find_search(after2) == Some(i));
                assert(after2[i]->Search_0.current_search_id == s2);
            } else {
                assert(after2 == layers);
                assert(s0.current_search_id >= s2 > s1);
            }
        },
    }
}

/// The index that search lookup finds holds a search layer.
proof fn lemma_find_search_is_search(layers: Seq<ComponentV>)
    requires
        spec_find_search(layers) is Some,
    ensures
        ({
            let i = spec_find_search(layers)->Some_0;
            0 <= i < layers.len() && layers[i] is Search
        }),
    decreases layers.len(),
{
    if layers.len() > 0 && !(layers[0] is Search) {
        lemma_find_search_is_search(layers.drop_first());
    }
}

/// Replacing a search layer by another search layer does not change where
/// the lowest search layer is.
proof fn lemma_find_search_update(layers: Seq<ComponentV>, i: int, c: ComponentV)
    requires
        0 <= i < layers.len(),
        layers[i] is Search,
        c is Search,
        spec_find_search(layers) == Some(i),
    ensures
        spec_find_search(layers.update(i, c)) == Some(i),
    decreases layers.len(),
{
    if i == 0 {
    } else {
        assert(!(layers[0] is Search));
        assert(spec_find_search(layers.drop_first()) == Some(i - 1));
        assert(layers.update(i, c).drop_first() =~= layers.drop_first().update(i - 1, c));
        lemma_find_search_update(layers.drop_first(), i - 1, c);
        assert(!(layers.update(i, c)[0] is Search));
    }
}

} // verus!
