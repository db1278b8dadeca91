use vstd::prelude::*;

use crate::record::{PipelineError, Record};

verus! {

/// Fixed query parameter values of every listing request.
pub const POOL_TYPE: &'static str = "all";
pub const POOL_SORT_FIELD: &'static str = "default";
pub const SORT_TYPE: &'static str = "desc";
pub const PAGE_SIZE: u64 = 1000;

/// One decoded listing page.
pub struct PageEnvelope {
    pub success: bool,
    pub records: Vec<Record>,
    pub has_next_page: bool,
}

/// What came back from one listing request.
pub enum PageOutcome {
    /// The request failed or returned a non-success status.
    TransportFailed(String),
    /// The body could not be decoded into a page.
    DecodeFailed(String),
    /// The body decoded into a page.
    Received(PageEnvelope),
}

/// The cursor over the numbered pages of the listing.
///
/// It asks for page 1 first and for the next page only after a non-empty
/// page that announced one; it stops on an empty page, after a page without
/// a continuation flag, and on the first failure.
pub struct PageCursor {
    page: u64,
    finished: bool,
}

/// The outcome of one step, decided from the outcome alone.
pub open spec fn step_result(o: PageOutcome) -> Result<Option<Seq<Record>>, PipelineError> {
    match o {
        PageOutcome::TransportFailed(m) => Err(PipelineError::Transport(m)),
        PageOutcome::DecodeFailed(m) => Err(PipelineError::Decode(m)),
        PageOutcome::Received(env) => {
            if !env.success {
                Err(PipelineError::Upstream)
            } else if env.records@.len() == 0 {
                Ok(None)
            } else {
                Ok(Some(env.records@))
            }
        },
    }
}

/// A page after which the cursor asks for the next one.
pub open spec fn continues(o: PageOutcome) -> bool {
    &&& o is Received
    &&& o->Received_0.success
    &&& o->Received_0.records@.len() > 0
    &&& o->Received_0.has_next_page
}

/// The records that a page carries (empty for a failed request).
pub open spec fn page_records(o: PageOutcome) -> Seq<Record> {
    match o {
        PageOutcome::Received(env) => env.records@,
        _ => Seq::empty(),
    }
}

/// How a run over a sequence of page outcomes ended.
pub enum RunEnd {
    /// The cursor stopped on its own.
    Stopped,
    /// The cursor failed with this error.
    Failed(PipelineError),
    /// The outcomes ran out while the cursor still asked for a page.
    Unfinished,
}

/// The batches that a cursor yields when request `k` gets outcome `o[k]`,
/// and how the run ends.
pub open spec fn run_pages(o: Seq<PageOutcome>) -> (Seq<Seq<Record>>, RunEnd)
    decreases o.len(),
{
    if o.len() == 0 {
        (Seq::empty(), RunEnd::Unfinished)
    } else {
        match step_result(o[0]) {
            Err(e) => (Seq::empty(), RunEnd::Failed(e)),
            Ok(None) => (Seq::empty(), RunEnd::Stopped),
            Ok(Some(b)) => {
                if continues(o[0]) {
                    let rest = run_pages(o.drop_first());
                    (seq![b].add(rest.0), rest.1)
                } else {
                    (seq![b], RunEnd::Stopped)
                }
            },
        }
    }
}

impl PageCursor {
    /// The page that the cursor will ask for next.
    pub closed spec fn page_spec(&self) -> u64 {
        self.page
    }

    /// Whether the cursor has stopped.
    pub closed spec fn is_finished(&self) -> bool {
        self.finished
    }

    /// A cursor that asks for page 1 first.
    pub fn new() -> (r: PageCursor)
        ensures
            r.page_spec() == 1,
            !r.is_finished(),
    {
        PageCursor { page: 1, finished: false }
    }

    /// The number of the page to request next, or `None` once stopped.
    pub fn next_page(&self) -> (r: Option<u64>)
        ensures
            r == (if self.is_finished() { None } else { Some(self.page_spec()) }),
    {
        if self.finished {
            None
        } else {
            Some(self.page)
        }
    }

    /// Consumes the outcome of the request for the current page.
    ///
    /// `Ok(Some(batch))` is a page's records to yield, `Ok(None)` ends the
    /// sequence, `Err(e)` aborts it. After a yielded batch the cursor moves
    /// to the next page when the page announced one, and stops otherwise.
    pub fn advance(&mut self, outcome: PageOutcome) -> (r: Result<Option<Vec<Record>>, PipelineError>)
        requires
            !old(self).is_finished(),
            old(self).page_spec() < u64::MAX,
        ensures
            match r {
                Ok(Some(b)) => step_result(outcome) == Ok::<Option<Seq<Record>>, PipelineError>(
                    Some(b@),
                ),
                Ok(None) => step_result(outcome) == Ok::<Option<Seq<Record>>, PipelineError>(None),
                Err(e) => step_result(outcome) == Err::<Option<Seq<Record>>, PipelineError>(e),
            },
            final(self).is_finished() == !continues(outcome),
            continues(outcome) ==> final(self).page_spec() == old(self).page_spec() + 1,
    {
        match outcome {
            PageOutcome::TransportFailed(m) => {
                self.finished = true;
                Err(PipelineError::Transport(m))
            },
            PageOutcome::DecodeFailed(m) => {
                self.finished = true;
                Err(PipelineError::Decode(m))
            },
            PageOutcome::Received(env) => {
                if !env.success {
                    self.finished = true;
                    Err(PipelineError::Upstream)
                } else if env.records.len() == 0 {
                    self.finished = true;
                    Ok(None)
                } else {
                    if env.has_next_page {
                        self.page = self.page + 1;
                    } else {
                        self.finished = true;
                    }
                    Ok(Some(env.records))
                }
            },
        }
    }
}

/// Appends a yielded batch to the accumulated collection, keeping page
/// arrival order and the order within the page.
pub fn append_batch(all: &mut Vec<Record>, batch: Vec<Record>)
    ensures
        final(all)@ == old(all)@ + batch@,
{
    let mut batch = batch;
    all.append(&mut batch);
}

/// Runs a cursor over outcomes given in advance, request `k` getting
/// `outcomes[k]`, and accumulates every yielded batch. Outcomes after the
/// cursor stopped are never looked at.
pub fn collect_pages(outcomes: Vec<PageOutcome>) -> (r: Result<Vec<Record>, PipelineError>)
    requires
        outcomes@.len() < u64::MAX,
    ensures
        match run_pages(outcomes@).1 {
            RunEnd::Failed(e) => r == Err::<Vec<Record>, PipelineError>(e),
            _ => r is Ok && r->Ok_0@ == run_pages(outcomes@).0.flatten(),
        },
{
    let ghost all_o = outcomes@;
    let mut rest = outcomes;
    let mut cursor = PageCursor::new();
    let mut acc: Vec<Record> = Vec::new();
    let ghost mut batches: Seq<Seq<Record>> = Seq::empty();
    while rest.len() > 0
        invariant
            batches.len() + rest@.len() <= all_o.len(),
            all_o == outcomes@,
            all_o.len() < u64::MAX,
            !cursor.is_finished(),
            cursor.page_spec() == batches.len() + 1,
            run_pages(all_o).0 == batches + run_pages(rest@).0,
            run_pages(all_o).1 == run_pages(rest@).1,
            acc@ == batches.flatten(),
        decreases rest@.len(),
    {
        let ghost before = rest@;
        let o = rest.remove(0);
        assert(rest@ =~= before.drop_first());
        assert(o == before[0]);
        let step = cursor.advance(o);
        match step {
            Ok(Some(b)) => {
                proof {
                    batches.lemma_flatten_push(b@);
                    if continues(o) {
                        assert(batches + run_pages(before).0 =~= batches.push(b@)
                            + run_pages(rest@).0);
                    } else {
                        assert(batches + run_pages(before).0 =~= batches.push(b@));
                    }
                    batches = batches.push(b@);
                }
                append_batch(&mut acc, b);
                if cursor.next_page().is_none() {
                    assert(!continues(o));
                    assert(run_pages(before).1 == RunEnd::Stopped);
                    assert(run_pages(all_o).0 =~= batches);
                    return Ok(acc);
                }
            },
            Ok(None) => {
                assert(run_pages(all_o).0 =~= batches);
                return Ok(acc);
            },
            Err(e) => {
                assert(run_pages(before).1 == RunEnd::Failed(e));
                return Err(e);
            },
        }
    }
    assert(run_pages(all_o).0 =~= batches);
    Ok(acc)
}

/// Pages that all continue: successful, non-empty, and announcing a next page.
pub open spec fn all_continue(o: Seq<PageOutcome>, k: int) -> bool {
    forall|i: int| 0 <= i < k ==> continues(#[trigger] o[i])
}

/// The records of the first `k` pages, one batch per page.
pub open spec fn first_batches(o: Seq<PageOutcome>, k: int) -> Seq<Seq<Record>> {
    o.take(k).map_values(|p: PageOutcome| page_records(p))
}

/// A run over pages that all continue, up to page `k`, yields each of them
/// and ends as the run from page `k` on ends.
pub proof fn lemma_run_prefix(o: Seq<PageOutcome>, k: int)
    requires
        0 <= k <= o.len(),
        all_continue(o, k),
    ensures
        run_pages(o).0 == first_batches(o, k) + run_pages(o.skip(k)).0,
        run_pages(o).1 == run_pages(o.skip(k)).1,
    decreases k,
{
    if k == 0 {
        assert(o.skip(0) =~= o);
        assert(first_batches(o, 0) =~= Seq::empty());
    } else {
        let t = o.drop_first();
        assert(all_continue(t, k - 1)) by {
            assert forall|i: int| 0 <= i < k - 1 implies continues(#[trigger] t[i]) by {
                assert(t[i] == o[i + 1]);
            }
        }
        lemma_run_prefix(t, k - 1);
        assert(t.skip(k - 1) =~= o.skip(k));
        assert(continues(o[0]));
        assert(first_batches(o, k) =~= seq![page_records(o[0])].add(first_batches(t, k - 1)));
        assert(run_pages(o).0 =~= seq![page_records(o[0])].add(run_pages(t).0));
    }
}

/// When page `k` (counting from 0) is the first empty page and every page
/// before it continues, the run yields exactly the pages before it and
/// stops without yielding it.
pub proof fn lemma_stops_at_first_empty_page(o: Seq<PageOutcome>, k: int)
    requires
        0 <= k < o.len(),
        all_continue(o, k),
        o[k] is Received,
        o[k]->Received_0.success,
        o[k]->Received_0.records@.len() == 0,
    ensures
        run_pages(o).0 == first_batches(o, k),
        run_pages(o).1 == RunEnd::Stopped,
{
    lemma_run_prefix(o, k);
    assert(o.skip(k)[0] == o[k]);
    assert(first_batches(o, k) + Seq::<Seq<Record>>::empty() =~= first_batches(o, k));
}

/// When page `k` is non-empty and announces no next page, and every page
/// before it continues, the run yields pages `0..=k` and stops.
pub proof fn lemma_stops_after_last_flagged_page(o: Seq<PageOutcome>, k: int)
    requires
        0 <= k < o.len(),
        all_continue(o, k),
        o[k] is Received,
        o[k]->Received_0.success,
        o[k]->Received_0.records@.len() > 0,
        !o[k]->Received_0.has_next_page,
    ensures
        run_pages(o).0 == first_batches(o, k + 1),
        run_pages(o).1 == RunEnd::Stopped,
{
    lemma_run_prefix(o, k);
    assert(o.skip(k)[0] == o[k]);
    assert(first_batches(o, k + 1) =~= first_batches(o, k).push(page_records(o[k])));
    assert(first_batches(o, k) + seq![page_records(o[k])] =~= first_batches(o, k).push(
        page_records(o[k]),
    ));
}

/// No batch of a page at or after a page that reports `success = false` is
/// ever yielded; when the pages before it continue, the run fails with
/// `Upstream`.
pub proof fn lemma_fails_fast(o: Seq<PageOutcome>, k: int)
    requires
        0 <= k < o.len(),
        o[k] is Received,
        !o[k]->Received_0.success,
    ensures
        run_pages(o).0.len() <= k,
        run_pages(o).0 == first_batches(o, run_pages(o).0.len() as int),
        all_continue(o, k) ==> run_pages(o).1 == RunEnd::Failed(PipelineError::Upstream),
    decreases k,
{
    if k == 0 {
        assert(run_pages(o).0 =~= Seq::<Seq<Record>>::empty());
        assert(first_batches(o, 0) =~= Seq::empty());
    } else {
        let t = o.drop_first();
        assert(t[k - 1] == o[k]);
        lemma_fails_fast(t, k - 1);
        if all_continue(o, k) {
            assert(all_continue(t, k - 1)) by {
                assert forall|i: int| 0 <= i < k - 1 implies continues(#[trigger] t[i]) by {
                    assert(t[i] == o[i + 1]);
                }
            }
        }
        let n = run_pages(o).0.len() as int;
        if continues(o[0]) {
            let m = run_pages(t).0.len() as int;
            assert(run_pages(o).0 =~= seq![page_records(o[0])].add(run_pages(t).0));
            assert(first_batches(o, m + 1) =~= seq![page_records(o[0])].add(first_batches(t, m)));
        } else {
            if n == 1 {
                assert(first_batches(o, 1) =~= seq![page_records(o[0])]);
            } else {
                assert(first_batches(o, 0) =~= Seq::empty());
            }
        }
    }
}

} // verus!
