use vstd::prelude::*;
use vstd::string::StringExecFns;
use crate::inventory::{FetchJob, JobView, SteamApi, jobs_view, opt_text, plan, plan_jobs};

verus! {

/// The state of a reconciliation run: the jobs of the first pass, whether
/// failed jobs get one more attempt, which pass runs, the position in it, the
/// jobs that failed in the first pass, and the text gathered so far.
pub ghost struct ReconcilerView {
    pub jobs: Seq<JobView>,
    pub retry: bool,
    pub retrying: bool,
    pub pos: nat,
    pub rejects: Seq<JobView>,
    pub output: Seq<char>,
}

/// The jobs of the pass that runs.
pub open spec fn current_pass(v: ReconcilerView) -> Seq<JobView> {
    if v.retrying {
        v.rejects
    } else {
        v.jobs
    }
}

/// Moves on to the retry pass once the first pass is over, where one was asked for.
pub open spec fn settle(v: ReconcilerView) -> ReconcilerView {
    if !v.retrying && v.retry && v.pos >= v.jobs.len() {
        ReconcilerView { retrying: true, pos: 0, ..v }
    } else {
        v
    }
}

/// The run has no job left.
pub open spec fn is_done(v: ReconcilerView) -> bool {
    v.pos >= current_pass(v).len()
}

/// A state that a run can reach.
pub open spec fn well_formed(v: ReconcilerView) -> bool {
    &&& v.pos <= current_pass(v).len()
    &&& v.retrying ==> v.retry
    &&& settle(v) == v
}

/// The state after the job at hand gave `outcome`: the fetched text, or
/// `None` for a failure. A failure of the first pass joins the rejects; one of
/// the retry pass does not.
pub open spec fn step(v: ReconcilerView, outcome: Option<Seq<char>>) -> ReconcilerView {
    let job = current_pass(v)[v.pos as int];
    settle(
        ReconcilerView {
            pos: v.pos + 1,
            rejects: if !v.retrying && outcome is None {
                v.rejects.push(job)
            } else {
                v.rejects
            },
            output: match outcome {
                Some(t) => v.output + t,
                None => v.output,
            },
            ..v
        },
    )
}

/// The state at the start of a run over `jobs`.
pub open spec fn start(jobs: Seq<JobView>, retry: bool) -> ReconcilerView {
    settle(
        ReconcilerView {
            jobs,
            retry,
            retrying: false,
            pos: 0,
            rejects: Seq::empty(),
            output: Seq::empty(),
        },
    )
}

/// The state after the outcomes `outs`, one per job, as long as jobs remain.
pub open spec fn run(v: ReconcilerView, outs: Seq<Option<Seq<char>>>) -> ReconcilerView
    decreases outs.len(),
{
    if outs.len() == 0 || is_done(v) {
        v
    } else {
        run(step(v, outs[0]), outs.drop_first())
    }
}

/// The jobs attempted while the outcomes `outs` come in.
pub open spec fn attempted(v: ReconcilerView, outs: Seq<Option<Seq<char>>>) -> Seq<JobView>
    decreases outs.len(),
{
    if outs.len() == 0 || is_done(v) {
        Seq::empty()
    } else {
        seq![current_pass(v)[v.pos as int]] + attempted(step(v, outs[0]), outs.drop_first())
    }
}

/// In the retry pass, the jobs attempted are the rejects from the position on,
/// each once and in order, and no failure joins the rejects again.
pub proof fn lemma_retry_pass(v: ReconcilerView, outs: Seq<Option<Seq<char>>>)
    requires
        well_formed(v),
        v.retrying,
    ensures
        run(v, outs).rejects == v.rejects,
        run(v, outs).retrying,
        attempted(v, outs) == v.rejects.subrange(
            v.pos as int,
            if v.pos + outs.len() <= v.rejects.len() {
                (v.pos + outs.len()) as int
            } else {
                v.rejects.len() as int
            },
        ),
        v.pos + outs.len() >= v.rejects.len() ==> is_done(run(v, outs)),
    decreases outs.len(),
{
    if outs.len() == 0 || is_done(v) {
        assert(v.rejects.subrange(v.pos as int, v.pos as int) =~= Seq::<JobView>::empty());
    } else {
        let w = step(v, outs[0]);
        lemma_retry_pass(w, outs.drop_first());
        let end = if v.pos + outs.len() <= v.rejects.len() {
            (v.pos + outs.len()) as int
        } else {
            v.rejects.len() as int
        };
        assert(attempted(v, outs) =~= v.rejects.subrange(v.pos as int, end));
    }
}

/// The jobs of `jobs` whose outcome in `outs` is a failure, in order.
pub open spec fn failures(jobs: Seq<JobView>, outs: Seq<Option<Seq<char>>>) -> Seq<JobView>
    decreases outs.len(),
{
    if outs.len() == 0 || jobs.len() == 0 {
        Seq::empty()
    } else {
        let rest = failures(jobs.drop_first(), outs.drop_first());
        if outs[0] is None {
            seq![jobs[0]] + rest
        } else {
            rest
        }
    }
}

/// In the first pass, one outcome per remaining job attempts each remaining
/// job once, in order; the failed ones join the rejects, in order; then the
/// retry pass starts where one was asked for, else the run is over.
pub proof fn lemma_first_pass(v: ReconcilerView, outs: Seq<Option<Seq<char>>>)
    requires
        well_formed(v),
        !v.retrying,
        v.pos + outs.len() == v.jobs.len(),
    ensures
        attempted(v, outs) == v.jobs.subrange(v.pos as int, v.jobs.len() as int),
        run(v, outs).rejects == v.rejects + failures(
            v.jobs.subrange(v.pos as int, v.jobs.len() as int),
            outs,
        ),
        v.retry ==> run(v, outs).retrying && run(v, outs).pos == 0,
        !v.retry ==> is_done(run(v, outs)),
    decreases outs.len(),
{
    let rest_jobs = v.jobs.subrange(v.pos as int, v.jobs.len() as int);
    if outs.len() == 0 {
        assert(rest_jobs =~= Seq::<JobView>::empty());
        assert(v.rejects + failures(rest_jobs, outs) =~= v.rejects);
    } else {
        let w = step(v, outs[0]);
        let tail = outs.drop_first();
        assert(rest_jobs.drop_first() =~= v.jobs.subrange(v.pos + 1int, v.jobs.len() as int));
        if tail.len() == 0 {
            assert(run(w, tail) == w);
            assert(attempted(w, tail) =~= Seq::<JobView>::empty());
            assert(attempted(v, outs) =~= rest_jobs);
            assert(failures(rest_jobs.drop_first(), tail) =~= Seq::<JobView>::empty());
            assert(run(v, outs).rejects =~= v.rejects + failures(rest_jobs, outs));
        } else {
            lemma_first_pass(w, tail);
            assert(attempted(v, outs) =~= rest_jobs);
            assert(run(v, outs).rejects =~= v.rejects + failures(rest_jobs, outs));
        }
    }
}

/// Once the retry pass starts, one outcome per reject attempts each reject
/// exactly once, in order, adds no reject, and ends the run.
pub proof fn lemma_retry_attempts_each_reject_once(
    v: ReconcilerView,
    outs: Seq<Option<Seq<char>>>,
)
    requires
        well_formed(v),
        v.retrying,
        v.pos == 0,
        outs.len() >= v.rejects.len(),
    ensures
        attempted(v, outs) == v.rejects,
        run(v, outs).rejects == v.rejects,
        is_done(run(v, outs)),
{
    lemma_retry_pass(v, outs);
    assert(v.rejects.subrange(0, v.rejects.len() as int) =~= v.rejects);
}

/// The text of one outcome: the fetched text, or nothing for a failure.
pub open spec fn fetched_text(out: Option<Seq<char>>) -> Seq<char> {
    match out {
        Some(t) => t,
        None => Seq::empty(),
    }
}

/// The fetched texts among the outcomes `outs`, joined in order; a failure
/// adds nothing.
pub open spec fn successes(outs: Seq<Option<Seq<char>>>) -> Seq<char>
    decreases outs.len(),
{
    if outs.len() == 0 {
        Seq::empty()
    } else {
        fetched_text(outs[0]) + successes(outs.drop_first())
    }
}

proof fn lemma_attempted_len(v: ReconcilerView, outs: Seq<Option<Seq<char>>>)
    ensures
        attempted(v, outs).len() <= outs.len(),
    decreases outs.len(),
{
    if outs.len() > 0 && !is_done(v) {
        lemma_attempted_len(step(v, outs[0]), outs.drop_first());
    }
}

/// The text gathered by a run is what it held before, followed by the fetched
/// texts of the outcomes it took, in order, each once; failures add nothing.
pub proof fn lemma_output_is_successes(v: ReconcilerView, outs: Seq<Option<Seq<char>>>)
    ensures
        run(v, outs).output == v.output + successes(
            outs.subrange(0, attempted(v, outs).len() as int),
        ),
    decreases outs.len(),
{
    if outs.len() == 0 || is_done(v) {
        assert(outs.subrange(0, 0) =~= Seq::<Option<Seq<char>>>::empty());
        assert(v.output + Seq::<char>::empty() =~= v.output);
    } else {
        let w = step(v, outs[0]);
        let tail = outs.drop_first();
        lemma_output_is_successes(w, tail);
        lemma_attempted_len(w, tail);
        let a = attempted(w, tail).len() as int;
        let used = outs.subrange(0, a + 1);
        assert(used.drop_first() =~= tail.subrange(0, a));
        assert(used[0] == outs[0]);
        let t = fetched_text(outs[0]);
        assert(w.output =~= v.output + t);
        assert(run(v, outs).output =~= v.output + successes(used));
    }
}

/// Why an inventory listing could not be reconciled.
pub enum InventoryError {
    /// The listing reported `success: false`.
    Unsuccessful,
}

/// Drives the fetches of one inventory listing: it hands out one job at a
/// time, takes each outcome back, and gathers the fetched texts.
pub struct Reconciler {
    jobs: Vec<FetchJob>,
    retry: bool,
    retrying: bool,
    pos: usize,
    rejects: Vec<FetchJob>,
    output: String,
}

impl View for Reconciler {
    type V = ReconcilerView;

    closed spec fn view(&self) -> ReconcilerView {
        ReconcilerView {
            jobs: jobs_view(self.jobs@),
            retry: self.retry,
            retrying: self.retrying,
            pos: self.pos as nat,
            rejects: jobs_view(self.rejects@),
            output: self.output@,
        }
    }
}

impl Reconciler {
    /// A run over `jobs`, with one retry pass over the failed ones where
    /// `retry` holds.
    pub fn new(jobs: Vec<FetchJob>, retry: bool) -> (r: Reconciler)
        ensures
            r@ == start(jobs_view(jobs@), retry),
            well_formed(r@),
    {
        let mut r = Reconciler {
            jobs,
            retry,
            retrying: false,
            pos: 0,
            rejects: Vec::new(),
            output: String::new(),
        };
        proof {
            assert(jobs_view(r.rejects@) =~= Seq::<JobView>::empty());
        }
        if retry && r.jobs.len() == 0 {
            r.retrying = true;
        }
        r
    }

    /// The job to fetch next; `None` once the run is over.
    pub fn next_job(&self) -> (r: Option<&FetchJob>)
        requires
            well_formed(self@),
        ensures
            r is None <==> is_done(self@),
            r matches Some(j) ==> j@ == current_pass(self@)[self@.pos as int],
    {
        if self.retrying {
            if self.pos < self.rejects.len() {
                Some(&self.rejects[self.pos])
            } else {
                None
            }
        } else {
            if self.pos < self.jobs.len() {
                Some(&self.jobs[self.pos])
            } else {
                None
            }
        }
    }

    /// Takes the outcome of the job at hand: the fetched text, or `None`
    /// where the fetch failed.
    pub fn record(&mut self, fetched: Option<String>)
        requires
            well_formed(old(self)@),
            !is_done(old(self)@),
        ensures
            final(self)@ == step(old(self)@, opt_text(fetched)),
            well_formed(final(self)@),
    {
        let ghost v = self@;
        let failed = fetched.is_none();
        if !self.retrying && failed {
            let job = self.jobs[self.pos].duplicate();
            let ghost before = self.rejects@;
            self.rejects.push(job);
            proof {
                assert(jobs_view(self.rejects@) =~= jobs_view(before).push(job@));
            }
        }
        match fetched {
            Some(t) => self.output.append(t.as_str()),
            None => {},
        }
        let pass_len = if self.retrying {
            self.rejects.len()
        } else {
            self.jobs.len()
        };
        proof {
            assert(self.pos < pass_len);
        }
        self.pos = self.pos + 1;
        if !self.retrying && self.retry && self.pos >= self.jobs.len() {
            self.retrying = true;
            self.pos = 0;
        }
        proof {
            assert(self@ =~= step(v, opt_text(fetched)));
        }
    }

    /// The run is over.
    pub fn is_finished(&self) -> (r: bool)
        requires
            well_formed(self@),
        ensures
            r == is_done(self@),
    {
        if self.retrying {
            self.pos >= self.rejects.len()
        } else {
            self.pos >= self.jobs.len()
        }
    }

    /// The fetched texts gathered so far, in the order they came.
    pub fn output(&self) -> (r: &String)
        ensures
            r@ == self@.output,
    {
        &self.output
    }
}

/// Starts the reconciliation of an inventory listing for the owner `owner`:
/// the jobs are those of `plan` under `limit`; a listing that reports no
/// success is refused.
pub fn get_inv(inv: &SteamApi, owner: &str, limit: usize, retry: bool) -> (r: Result<
    Reconciler,
    InventoryError,
>)
    ensures
        inv.success <==> r is Ok,
        r matches Ok(rec) ==> rec@ == start(plan(*inv, owner@, limit as int), retry) && well_formed(
            rec@,
        ),
{
    if !inv.success {
        return Err(InventoryError::Unsuccessful);
    }
    let jobs = plan_jobs(inv, owner, limit);
    Ok(Reconciler::new(jobs, retry))
}

} // verus!
