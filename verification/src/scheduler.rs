use vstd::prelude::*;

use crate::command::{command_views, Command, CommandView};
use crate::job::{JobSpec, JobSpecView};
use crate::keymap::key_command;

verus! {

/// What one consumed command asks the scheduler to do: launch exactly this
/// job, or — for `Shutdown` — launch nothing and stop consuming.
pub open spec fn job_of(c: CommandView) -> Option<JobSpecView> {
    match c {
        CommandView::StartNamedWork { label, duration_secs } => Some(
            JobSpecView::NamedWork { label, duration_secs },
        ),
        CommandView::StartLoopingWork => Some(JobSpecView::LoopingWork),
        CommandView::Shutdown => None,
    }
}

/// The jobs a command sequence makes the scheduler launch, in order: one per
/// start command before the first `Shutdown`, and none after it.
pub open spec fn spawned_of(cmds: Seq<CommandView>) -> Seq<JobSpecView>
    decreases cmds.len(),
{
    if cmds.len() == 0 {
        Seq::empty()
    } else {
        match job_of(cmds[0]) {
            None => Seq::empty(),
            Some(j) => seq![j] + spawned_of(cmds.drop_first()),
        }
    }
}

/// Whether consuming a command sequence makes the scheduler stop: it does
/// exactly when the sequence holds a `Shutdown`.
pub open spec fn halts(cmds: Seq<CommandView>) -> bool
    decreases cmds.len(),
{
    if cmds.len() == 0 {
        false
    } else {
        job_of(cmds[0]) is None || halts(cmds.drop_first())
    }
}

/// How many commands of a sequence the scheduler consumes: everything up to
/// and including the first `Shutdown`, or the whole sequence if there is
/// none.
pub open spec fn consumed_of(cmds: Seq<CommandView>) -> nat
    decreases cmds.len(),
{
    if cmds.len() == 0 {
        0
    } else if job_of(cmds[0]) is None {
        1
    } else {
        1 + consumed_of(cmds.drop_first())
    }
}

/// The consume loop's decisions over a concatenation: a halting prefix hides
/// the rest; a non-halting prefix passes consumption on.
pub proof fn lemma_consume_concat(a: Seq<CommandView>, b: Seq<CommandView>)
    ensures
        !halts(a) ==> spawned_of(a + b) == spawned_of(a) + spawned_of(b),
        !halts(a) ==> consumed_of(a + b) == a.len() + consumed_of(b),
        !halts(a) ==> halts(a + b) == halts(b),
        halts(a) ==> spawned_of(a + b) == spawned_of(a),
        halts(a) ==> consumed_of(a + b) == consumed_of(a),
        halts(a) ==> halts(a + b),
    decreases a.len(),
{
    if a.len() == 0 {
        assert(a + b =~= b);
        if !halts(a) {
            assert(spawned_of(a) + spawned_of(b) =~= spawned_of(b));
        }
    } else {
        assert((a + b).drop_first() =~= a.drop_first() + b);
        lemma_consume_concat(a.drop_first(), b);
        if !halts(a) {
            assert(spawned_of(a + b) =~= spawned_of(a) + spawned_of(b));
        }
    }
}

/// Law: however many start commands precede it, the first `Shutdown` stops
/// consumption in exactly one further step — the scheduler consumes the
/// `Shutdown` itself and nothing after it, and every start command before it
/// has launched its job.
pub proof fn lemma_shutdown_stops_in_one_step(
    prefix: Seq<CommandView>,
    suffix: Seq<CommandView>,
)
    requires
        forall|i: int| 0 <= i < prefix.len() ==> prefix[i] != CommandView::Shutdown,
    ensures
        consumed_of(prefix + seq![CommandView::Shutdown] + suffix) == prefix.len() + 1,
        spawned_of(prefix + seq![CommandView::Shutdown] + suffix) == spawned_of(prefix),
        halts(prefix + seq![CommandView::Shutdown] + suffix),
    decreases prefix.len(),
{
    lemma_no_shutdown_runs_through(prefix);
    lemma_consume_concat(prefix, seq![CommandView::Shutdown] + suffix);
    assert((seq![CommandView::Shutdown] + suffix).drop_first() =~= suffix);
    assert(prefix + seq![CommandView::Shutdown] + suffix =~= prefix + (seq![CommandView::Shutdown]
        + suffix));
    assert(spawned_of(prefix) + spawned_of(seq![CommandView::Shutdown] + suffix) =~= spawned_of(
        prefix,
    ));
}

/// A sequence without `Shutdown` never halts the scheduler: every command
/// launches its job and consumption runs through the whole sequence.
pub proof fn lemma_no_shutdown_runs_through(cmds: Seq<CommandView>)
    requires
        forall|i: int| 0 <= i < cmds.len() ==> cmds[i] != CommandView::Shutdown,
    ensures
        !halts(cmds),
        consumed_of(cmds) == cmds.len(),
        spawned_of(cmds).len() == cmds.len(),
    decreases cmds.len(),
{
    if cmds.len() > 0 {
        assert(cmds[0] != CommandView::Shutdown);
        assert(forall|i: int|
            0 <= i < cmds.drop_first().len() ==> cmds.drop_first()[i] == cmds[i + 1]);
        lemma_no_shutdown_runs_through(cmds.drop_first());
    }
}

/// Law: the scheduler's match is a one-to-one table over the command kinds —
/// each start command maps to exactly one job kind, carrying the same label
/// and duration, and only `Shutdown` maps to no job. Stated over the three
/// start keys too, so the whole keypress-to-job table is pinned down.
pub proof fn lemma_dispatch_table()
    ensures
        forall|l: Seq<char>, d: u64|
            job_of(CommandView::StartNamedWork { label: l, duration_secs: d }) == Some(
                JobSpecView::NamedWork { label: l, duration_secs: d },
            ),
        job_of(CommandView::StartLoopingWork) == Some(JobSpecView::LoopingWork),
        job_of(CommandView::Shutdown) is None,
        job_of(key_command('1').unwrap()) == Some(
            JobSpecView::NamedWork { label: "Task 1"@, duration_secs: 10 },
        ),
        job_of(key_command('2').unwrap()) == Some(
            JobSpecView::NamedWork { label: "Task 2"@, duration_secs: 12 },
        ),
        job_of(key_command('3').unwrap()) == Some(JobSpecView::LoopingWork),
        job_of(key_command('q').unwrap()) is None,
{
}

/// Law: two identical start commands back to back launch two jobs, each its
/// own instance of the same kind — neither is dropped or merged into the
/// other.
pub proof fn lemma_identical_commands_two_instances(c: CommandView)
    requires
        job_of(c) is Some,
    ensures
        spawned_of(seq![c, c]) == seq![job_of(c).unwrap(), job_of(c).unwrap()],
        spawned_of(seq![c, c]).len() == 2,
{
    let two = seq![c, c];
    assert(two.drop_first() =~= seq![c]);
    assert(seq![c].drop_first() =~= Seq::<CommandView>::empty());
    assert(spawned_of(Seq::<CommandView>::empty()) =~= Seq::<JobSpecView>::empty());
    assert(spawned_of(seq![c]) =~= seq![job_of(c).unwrap()]);
    assert(spawned_of(two) =~= seq![job_of(c).unwrap(), job_of(c).unwrap()]);
}

/// The task scheduler's own state: whether it is still consuming, and (in
/// ghost state) every job it has launched, in launch order. The scheduler
/// retains no handle to a launched job: launching is fire-and-forget, and
/// stopping the scheduler does not end jobs already launched.
pub struct Scheduler {
    running: bool,
    spawned: Ghost<Seq<JobSpecView>>,
}

impl Scheduler {
    /// Whether the scheduler is still consuming commands.
    pub closed spec fn is_running(&self) -> bool {
        self.running
    }

    /// Every job this scheduler has launched, oldest first.
    pub closed spec fn spawned(&self) -> Seq<JobSpecView> {
        self.spawned@
    }

    /// A fresh scheduler, consuming and with nothing launched.
    pub fn new() -> (s: Scheduler)
        ensures
            s.is_running(),
            s.spawned() == Seq::<JobSpecView>::empty(),
    {
        Scheduler { running: true, spawned: Ghost(Seq::empty()) }
    }

    /// Consume one item from the channel: `Some` is the next command in send
    /// order, `None` the end-of-stream signal of a closed channel. A start
    /// command yields the job to launch now; `Shutdown` or end-of-stream
    /// stops the scheduler in this one step. A stopped scheduler consumes
    /// nothing further.
    pub fn step(&mut self, item: Option<Command>) -> (job: Option<JobSpec>)
        ensures
            !old(self).is_running() ==> job is None && final(self).spawned() == old(self).spawned()
                && !final(self).is_running(),
            old(self).is_running() ==> match item {
                None => job is None && final(self).spawned() == old(self).spawned()
                    && !final(self).is_running(),
                Some(c) => match job_of(c@) {
                    None => job is None && final(self).spawned() == old(self).spawned()
                        && !final(self).is_running(),
                    Some(j) => (job matches Some(out) && out@ == j)
                        && final(self).spawned() == old(self).spawned().push(j)
                        && final(self).is_running(),
                },
            },
    {
        if !self.running {
            return None;
        }
        match item {
            None => {
                self.running = false;
                None
            },
            Some(cmd) => {
                match cmd {
                    Command::StartNamedWork { label, duration_secs } => {
                        let job = JobSpec::NamedWork { label, duration_secs };
                        self.spawned = Ghost(self.spawned@.push(job@));
                        Some(job)
                    },
                    Command::StartLoopingWork => {
                        let job = JobSpec::LoopingWork;
                        self.spawned = Ghost(self.spawned@.push(job@));
                        Some(job)
                    },
                    Command::Shutdown => {
                        self.running = false;
                        None
                    },
                }
            },
        }
    }

    /// Whether the scheduler is still consuming, for its host's loop.
    pub fn consuming(&self) -> (b: bool)
        ensures
            b == self.is_running(),
    {
        self.running
    }

    /// Drain a batch of commands in order, as the consume loop would: the
    /// launched jobs come back in launch order, consumption stops at the
    /// first `Shutdown`, and commands after it are dropped unconsumed.
    pub fn consume_batch(&mut self, cmds: Vec<Command>) -> (jobs: Vec<JobSpec>)
        ensures
            !old(self).is_running() ==> jobs@.len() == 0
                && final(self).spawned() == old(self).spawned() && !final(self).is_running(),
            old(self).is_running() ==> jobs@.map_values(|j: JobSpec| j@) == spawned_of(
                command_views(cmds@),
            ) && final(self).spawned() == old(self).spawned() + spawned_of(command_views(cmds@))
                && final(self).is_running() == !halts(command_views(cmds@)),
    {
        let mut jobs: Vec<JobSpec> = Vec::new();
        if !self.consuming() {
            return jobs;
        }
        let mut rest = cmds;
        let ghost done_views = Seq::<CommandView>::empty();
        proof {
            assert(command_views(cmds@) =~= done_views + command_views(rest@));
            assert(jobs@.map_values(|j: JobSpec| j@) =~= spawned_of(done_views));
            assert(old(self).spawned() + spawned_of(done_views) =~= old(self).spawned());
        }
        while rest.len() > 0 && self.consuming()
            invariant
                command_views(cmds@) == done_views + command_views(rest@),
                jobs@.map_values(|j: JobSpec| j@) == spawned_of(done_views),
                self.is_running() == !halts(done_views),
                self.spawned() == old(self).spawned() + spawned_of(done_views),
                self.is_running() ==> spawned_of(command_views(cmds@)) == spawned_of(done_views)
                    + spawned_of(command_views(rest@)),
                self.is_running() ==> halts(command_views(cmds@)) == halts(command_views(rest@)),
                !self.is_running() ==> spawned_of(command_views(cmds@)) == spawned_of(done_views)
                    && halts(command_views(cmds@)),
            decreases rest.len(),
        {
            let ghost rest_views0 = command_views(rest@);
            let cmd = rest.remove(0);
            let ghost cv = cmd@;
            proof {
                assert(rest_views0.drop_first() =~= command_views(rest@));
                assert(rest_views0[0] == cv);
            }
            let job = self.step(Some(cmd));
            proof {
                lemma_consume_concat(done_views, seq![cv]);
                assert(done_views.push(cv) =~= done_views + seq![cv]);
                assert(seq![cv].drop_first() =~= Seq::<CommandView>::empty());
                assert(spawned_of(Seq::<CommandView>::empty()) =~= Seq::<JobSpecView>::empty());
                assert(!halts(Seq::<CommandView>::empty()));
                assert(spawned_of(seq![cv]) =~= opt_job_seq(job_of(cv)));
                assert(halts(seq![cv]) == (job_of(cv) is None));
            }
            match job {
                Some(j) => {
                    jobs.push(j);
                },
                None => {},
            }
            proof {
                done_views = done_views.push(cv);
                assert(command_views(cmds@) =~= done_views + command_views(rest@)) by {
                    assert(rest_views0 =~= seq![cv] + command_views(rest@));
                }
                assert(jobs@.map_values(|j: JobSpec| j@) =~= spawned_of(done_views));
                assert(self.spawned() =~= old(self).spawned() + spawned_of(done_views));
                if self.is_running() {
                    lemma_consume_concat(done_views, command_views(rest@));
                }
            }
        }
        proof {
            if self.is_running() {
                assert(command_views(rest@) =~= Seq::<CommandView>::empty());
                assert(spawned_of(command_views(cmds@)) =~= spawned_of(done_views));
            }
        }
        jobs
    }
}

/// Zero or one jobs, as a sequence.
pub open spec fn opt_job_seq(o: Option<JobSpecView>) -> Seq<JobSpecView> {
    match o {
        Some(j) => seq![j],
        None => Seq::empty(),
    }
}

} // verus!
