use vstd::prelude::*;

verus! {

/// How long the looping job suspends between two "running" events.
pub const LOOP_INTERVAL_SECS: u64 = 5;

/// One unit of concurrent work the scheduler can launch. The scheduler does
/// not retain a handle after launching: a job's lifetime is independent of
/// the scheduler's own.
#[derive(Debug, PartialEq, Eq)]
pub enum JobSpec {
    /// Emits a start event, suspends for `duration_secs`, emits a finish
    /// event, and ends.
    NamedWork { label: String, duration_secs: u64 },
    /// Emits a "running" event every `LOOP_INTERVAL_SECS`, forever.
    LoopingWork,
}

/// The mathematical shape of a `JobSpec`.
#[verifier::ext_equal]
pub enum JobSpecView {
    NamedWork { label: Seq<char>, duration_secs: u64 },
    LoopingWork,
}

impl View for JobSpec {
    type V = JobSpecView;

    open spec fn view(&self) -> JobSpecView {
        match self {
            JobSpec::NamedWork { label, duration_secs } => JobSpecView::NamedWork {
                label: label@,
                duration_secs: *duration_secs,
            },
            JobSpec::LoopingWork => JobSpecView::LoopingWork,
        }
    }
}

/// One structured record a job emits, attributable to its job instance by
/// the label it carries.
#[derive(Debug, PartialEq, Eq)]
pub enum JobEvent {
    /// A named job began its work.
    WorkStarted { label: String },
    /// A named job finished its work.
    WorkFinished { label: String },
    /// The looping job completed one polling cycle.
    LoopRunning,
}

/// The mathematical shape of a `JobEvent`.
#[verifier::ext_equal]
pub enum JobEventView {
    WorkStarted { label: Seq<char> },
    WorkFinished { label: Seq<char> },
    LoopRunning,
}

impl View for JobEvent {
    type V = JobEventView;

    open spec fn view(&self) -> JobEventView {
        match self {
            JobEvent::WorkStarted { label } => JobEventView::WorkStarted { label: label@ },
            JobEvent::WorkFinished { label } => JobEventView::WorkFinished { label: label@ },
            JobEvent::LoopRunning => JobEventView::LoopRunning,
        }
    }
}

/// One instruction to the job's host: emit an event, or suspend for a number
/// of time units. A job's behaviour is a sequence of these, performed in
/// order.
#[derive(Debug, PartialEq, Eq)]
pub enum JobStep {
    Emit(JobEvent),
    Sleep(u64),
}

/// The mathematical shape of a `JobStep`.
#[verifier::ext_equal]
pub enum JobStepView {
    Emit(JobEventView),
    Sleep(u64),
}

impl View for JobStep {
    type V = JobStepView;

    open spec fn view(&self) -> JobStepView {
        match self {
            JobStep::Emit(e) => JobStepView::Emit(e@),
            JobStep::Sleep(d) => JobStepView::Sleep(*d),
        }
    }
}

/// The views of a sequence of job steps, in order.
pub open spec fn step_views(steps: Seq<JobStep>) -> Seq<JobStepView> {
    steps.map_values(|s: JobStep| s@)
}

/// How many start events for `label` a trace holds.
pub open spec fn start_count(t: Seq<JobStepView>, label: Seq<char>) -> nat
    decreases t.len(),
{
    if t.len() == 0 {
        0
    } else {
        (if t[0] == JobStepView::Emit(JobEventView::WorkStarted { label }) {
            1nat
        } else {
            0nat
        }) + start_count(t.drop_first(), label)
    }
}

/// How many finish events for `label` a trace holds.
pub open spec fn finish_count(t: Seq<JobStepView>, label: Seq<char>) -> nat
    decreases t.len(),
{
    if t.len() == 0 {
        0
    } else {
        (if t[0] == JobStepView::Emit(JobEventView::WorkFinished { label }) {
            1nat
        } else {
            0nat
        }) + finish_count(t.drop_first(), label)
    }
}

/// How many "running" events a trace holds.
pub open spec fn running_count(t: Seq<JobStepView>) -> nat
    decreases t.len(),
{
    if t.len() == 0 {
        0
    } else {
        (if t[0] == JobStepView::Emit(JobEventView::LoopRunning) {
            1nat
        } else {
            0nat
        }) + running_count(t.drop_first())
    }
}

/// The time units a trace spends suspended: the sum of its sleeps.
pub open spec fn elapsed_of(t: Seq<JobStepView>) -> nat
    decreases t.len(),
{
    if t.len() == 0 {
        0
    } else {
        (match t[0] {
            JobStepView::Sleep(d) => d as nat,
            _ => 0nat,
        }) + elapsed_of(t.drop_first())
    }
}

/// The whole behaviour of one named-work job instance: announce the start,
/// suspend for exactly the asked duration, announce the finish.
pub open spec fn named_plan(label: Seq<char>, duration_secs: u64) -> Seq<JobStepView> {
    seq![
        JobStepView::Emit(JobEventView::WorkStarted { label }),
        JobStepView::Sleep(duration_secs),
        JobStepView::Emit(JobEventView::WorkFinished { label }),
    ]
}

/// One polling cycle of the looping job: announce it is running, then
/// suspend for the fixed interval.
pub open spec fn loop_cycle() -> Seq<JobStepView> {
    seq![JobStepView::Emit(JobEventView::LoopRunning), JobStepView::Sleep(LOOP_INTERVAL_SECS)]
}

/// The looping job's trace after a number of whole cycles.
pub open spec fn loop_trace(cycles: nat) -> Seq<JobStepView>
    decreases cycles,
{
    if cycles == 0 {
        Seq::empty()
    } else {
        loop_cycle() + loop_trace((cycles - 1) as nat)
    }
}

/// The steps of one named-work job, for its host to perform in order.
pub fn named_work_plan(label: String, duration_secs: u64) -> (plan: Vec<JobStep>)
    ensures
        step_views(plan@) == named_plan(label@, duration_secs),
{
    let finish_label = label.clone();
    let mut plan: Vec<JobStep> = Vec::new();
    plan.push(JobStep::Emit(JobEvent::WorkStarted { label }));
    plan.push(JobStep::Sleep(duration_secs));
    plan.push(JobStep::Emit(JobEvent::WorkFinished { label: finish_label }));
    proof {
        assert(step_views(plan@) =~= named_plan(label@, duration_secs));
    }
    plan
}

/// The looping job as a step machine. Its host asks for one cycle at a
/// time, performs the steps, and repeats; the ghost cycle counter ties the
/// machine to `loop_trace`.
pub struct LoopingJob {
    cycles: Ghost<nat>,
}

impl LoopingJob {
    /// How many whole cycles this instance has handed out.
    pub closed spec fn cycles(&self) -> nat {
        self.cycles@
    }

    /// A fresh looping job that has not run yet.
    pub fn new() -> (j: LoopingJob)
        ensures
            j.cycles() == 0,
    {
        LoopingJob { cycles: Ghost(0) }
    }

    /// The steps of the next polling cycle, in order.
    pub fn next_cycle(&mut self) -> (steps: Vec<JobStep>)
        ensures
            final(self).cycles() == old(self).cycles() + 1,
            step_views(steps@) == loop_cycle(),
            loop_trace(final(self).cycles()) == loop_trace(old(self).cycles()) + loop_cycle(),
    {
        let mut steps: Vec<JobStep> = Vec::new();
        steps.push(JobStep::Emit(JobEvent::LoopRunning));
        steps.push(JobStep::Sleep(LOOP_INTERVAL_SECS));
        self.cycles = Ghost(self.cycles@ + 1);
        proof {
            assert(step_views(steps@) =~= loop_cycle());
            lemma_loop_trace_snoc(old(self).cycles@);
        }
        steps
    }
}

/// Growing the looping job by one cycle appends one cycle to its trace.
pub proof fn lemma_loop_trace_snoc(cycles: nat)
    ensures
        loop_trace(cycles + 1) == loop_trace(cycles) + loop_cycle(),
    decreases cycles,
{
    if cycles == 0 {
        assert(loop_trace(1) =~= loop_trace(0) + loop_cycle());
    } else {
        lemma_loop_trace_snoc((cycles - 1) as nat);
        assert(loop_trace(cycles + 1) =~= loop_trace(cycles) + loop_cycle());
    }
}

/// The counts and the elapsed time of a concatenation split over its parts.
pub proof fn lemma_trace_counts_concat(a: Seq<JobStepView>, b: Seq<JobStepView>)
    ensures
        forall|l: Seq<char>| #[trigger] start_count(a + b, l) == start_count(a, l) + start_count(
            b,
            l,
        ),
        forall|l: Seq<char>| #[trigger] finish_count(a + b, l) == finish_count(a, l)
            + finish_count(b, l),
        running_count(a + b) == running_count(a) + running_count(b),
        elapsed_of(a + b) == elapsed_of(a) + elapsed_of(b),
    decreases a.len(),
{
    if a.len() == 0 {
        assert(a + b =~= b);
    } else {
        assert((a + b).drop_first() =~= a.drop_first() + b);
        lemma_trace_counts_concat(a.drop_first(), b);
        assert forall|l: Seq<char>| #[trigger] start_count(a + b, l) == start_count(a, l)
            + start_count(b, l) by {
            assert(start_count(a.drop_first() + b, l) == start_count(a.drop_first(), l)
                + start_count(b, l));
        }
        assert forall|l: Seq<char>| #[trigger] finish_count(a + b, l) == finish_count(a, l)
            + finish_count(b, l) by {
            assert(finish_count(a.drop_first() + b, l) == finish_count(a.drop_first(), l)
                + finish_count(b, l));
        }
    }
}

/// Law: the looping job is periodic. After any `n` whole cycles it has
/// emitted exactly `n` "running" events while suspended for exactly
/// `LOOP_INTERVAL_SECS * n` time units — so at least `n` events arrive
/// within `LOOP_INTERVAL_SECS * n` time units — and its trace never holds a
/// start or finish event: under normal operation it never completes.
pub proof fn lemma_looping_job_periodicity(n: nat)
    ensures
        running_count(loop_trace(n)) == n,
        elapsed_of(loop_trace(n)) == LOOP_INTERVAL_SECS * n,
        forall|l: Seq<char>| #[trigger] start_count(loop_trace(n), l) == 0,
        forall|l: Seq<char>| #[trigger] finish_count(loop_trace(n), l) == 0,
    decreases n,
{
    if n == 0 {
        assert forall|l: Seq<char>| #[trigger] start_count(loop_trace(0), l) == 0 by {
            assert(loop_trace(0).len() == 0);
        }
        assert forall|l: Seq<char>| #[trigger] finish_count(loop_trace(0), l) == 0 by {
            assert(loop_trace(0).len() == 0);
        }
    } else {
        lemma_looping_job_periodicity((n - 1) as nat);
        lemma_trace_counts_concat(loop_cycle(), loop_trace((n - 1) as nat));
        let c = loop_cycle();
        let c1 = c.drop_first();
        assert(c1 =~= seq![JobStepView::Sleep(LOOP_INTERVAL_SECS)]);
        assert(c1.drop_first() =~= Seq::<JobStepView>::empty());
        assert(running_count(c) == 1) by {
            reveal_with_fuel(running_count, 4);
        }
        assert(elapsed_of(c) == LOOP_INTERVAL_SECS) by {
            reveal_with_fuel(elapsed_of, 4);
        }
        assert forall|l: Seq<char>| #[trigger] start_count(c, l) == 0 by {
            reveal_with_fuel(start_count, 4);
        }
        assert forall|l: Seq<char>| #[trigger] finish_count(c, l) == 0 by {
            reveal_with_fuel(finish_count, 4);
        }
    }
}

/// Law: one named-work job instance announces its start exactly once,
/// announces its finish exactly once, and suspends for exactly the duration
/// it was asked for.
pub proof fn lemma_named_plan_counts(label: Seq<char>, duration_secs: u64)
    ensures
        start_count(named_plan(label, duration_secs), label) == 1,
        finish_count(named_plan(label, duration_secs), label) == 1,
        elapsed_of(named_plan(label, duration_secs)) == duration_secs,
        running_count(named_plan(label, duration_secs)) == 0,
{
    let t = named_plan(label, duration_secs);
    assert(t.drop_first() =~= seq![
        JobStepView::Sleep(duration_secs),
        JobStepView::Emit(JobEventView::WorkFinished { label }),
    ]);
    assert(t.drop_first().drop_first() =~= seq![
        JobStepView::Emit(JobEventView::WorkFinished { label }),
    ]);
    assert(t.drop_first().drop_first().drop_first() =~= Seq::<JobStepView>::empty());
    reveal_with_fuel(start_count, 5);
    reveal_with_fuel(finish_count, 5);
    reveal_with_fuel(running_count, 5);
    reveal_with_fuel(elapsed_of, 5);
}

} // verus!
