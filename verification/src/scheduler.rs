//! The scheduler: one cycle per registered job, each on its own cadence.
//!
//! Every job goes round the same cycle for ever: idle, waiting until it is
//! due, running, idle again. The scheduler holds where each job is in its
//! cycle and decides what comes next; it never sleeps and never runs a job.
//! The caller does both, one worker per job, and reports back with events.
//! An event moves the one job it names and no other.

use vstd::prelude::*;
use crate::clock::delay_nanos;
use crate::clock::lemma_delay_positive;
use crate::clock::lemma_nanos_of_day_range;
use vstd::arithmetic::div_mod::lemma_fundamental_div_mod;
use vstd::arithmetic::div_mod::lemma_fundamental_div_mod_converse;
use crate::clock::nanos_of_day;
use crate::clock::Span;
use crate::clock::TimeOfDay;
use crate::clock::Timestamp;
use crate::clock::UtcOffset;
use crate::clock::NANOS_PER_DAY;
use crate::tasks::Task;

verus! {

/// Why a run failed.
#[derive(Clone, Copy, Debug, PartialEq, Eq, Structural)]
pub enum Failure {
    /// A call to the data service or to the messaging platform failed.
    Transient,
    /// What came back from upstream did not have the expected shape.
    Malformed,
    /// The run stopped on a fault of its own, caught at the job's boundary.
    Aborted,
}

/// How a run ended.
#[derive(Clone, Copy, Debug, PartialEq, Eq, Structural)]
pub enum Outcome {
    Success,
    Failure(Failure),
}

/// One run of one job: which job, when it was due, how it ended.
#[derive(Clone, Copy, Debug, PartialEq, Eq, Structural)]
pub struct ScheduledRun {
    pub job: usize,
    pub scheduled: Timestamp,
    pub outcome: Outcome,
}

/// Where a job is in its cycle.
#[derive(Clone, Copy, Debug, PartialEq, Eq, Structural)]
pub enum Phase {
    /// Between runs: the next delay has not been computed yet.
    Idle,
    /// Asleep until `due`.
    Waiting { due: Timestamp },
    /// Executing the run that was due at `due`.
    Running { due: Timestamp },
}

/// What the caller reports about one job.
#[derive(Clone, Copy, Debug, PartialEq, Eq, Structural)]
pub enum Event {
    /// The job's worker is ready to wait for the next run; it is `now`.
    Wake { now: Timestamp },
    /// The job's sleep is over.
    Elapsed,
    /// The job's run is over.
    Finished { outcome: Outcome },
}

/// What the caller is to do next for the job.
#[derive(Clone, Copy, Debug, PartialEq, Eq, Structural)]
pub enum Action {
    /// Sleep for `span`, then report `Elapsed`.
    Sleep { span: Span },
    /// Run the job, then report `Finished`.
    Execute,
    /// Log `run`, then report `Wake`.
    Record { run: ScheduledRun },
    /// The event does not fit the job's phase (or names no job, or the
    /// scheduler has not been started): nothing changed.
    Rejected,
}

/// Why the scheduler refused a call.
#[derive(Clone, Copy, Debug, PartialEq, Eq, Structural)]
pub enum SchedulerError {
    /// The scheduler has been started already.
    AlreadyStarted,
    /// The instant is too close to the end of representable time to
    /// schedule a day ahead of it.
    ClockOutOfRange,
}

/// Whether a full day after `now` can still be represented.
pub open spec fn can_schedule(now: Timestamp) -> bool {
    now.nanos + NANOS_PER_DAY <= i128::MAX
}

/// The instant at which a job with the given target is next due after `now`.
pub open spec fn due_after(now: Timestamp, offset_secs: int, target: TimeOfDay) -> Timestamp {
    Timestamp { nanos: (now.nanos + delay_nanos(now, offset_secs, target)) as i128 }
}

/// Whether a job in phase `phase` accepts `event`.
pub open spec fn accepts(phase: Phase, event: Event) -> bool {
    match (phase, event) {
        (Phase::Idle, Event::Wake { now }) => can_schedule(now),
        (Phase::Waiting { .. }, Event::Elapsed) => true,
        (Phase::Running { .. }, Event::Finished { .. }) => true,
        _ => false,
    }
}

/// The phase that follows `phase` on `event`, for a job due at `target` in
/// the zone `offset_secs` ahead of UTC. An event that the phase does not
/// accept leaves it as it is.
pub open spec fn phase_after(
    phase: Phase,
    event: Event,
    offset_secs: int,
    target: TimeOfDay,
) -> Phase {
    match (phase, event) {
        (Phase::Idle, Event::Wake { now }) => if can_schedule(now) {
            Phase::Waiting { due: due_after(now, offset_secs, target) }
        } else {
            phase
        },
        (Phase::Waiting { due }, Event::Elapsed) => Phase::Running { due },
        (Phase::Running { .. }, Event::Finished { .. }) => Phase::Idle,
        _ => phase,
    }
}

/// What the caller is told to do when job `job`, in phase `phase`, gets
/// `event`.
pub open spec fn action_after(
    job: usize,
    phase: Phase,
    event: Event,
    offset_secs: int,
    target: TimeOfDay,
) -> Action {
    match (phase, event) {
        (Phase::Idle, Event::Wake { now }) => if can_schedule(now) {
            Action::Sleep { span: Span { nanos: delay_nanos(now, offset_secs, target) as u64 } }
        } else {
            Action::Rejected
        },
        (Phase::Waiting { .. }, Event::Elapsed) => Action::Execute,
        (Phase::Running { due }, Event::Finished { outcome }) => Action::Record {
            run: ScheduledRun { job, scheduled: due, outcome },
        },
        _ => Action::Rejected,
    }
}

/// The scheduler as a value: each job's target and phase, by position.
pub struct SchedulerState {
    pub targets: Seq<TimeOfDay>,
    pub phases: Seq<Phase>,
    pub started: bool,
    pub offset_secs: int,
}

impl SchedulerState {
    /// One phase for each job, and no job under way before the start.
    pub open spec fn wf(self) -> bool {
        &&& self.targets.len() == self.phases.len()
        &&& !self.started ==> forall|i: int|
            0 <= i < self.phases.len() ==> #[trigger] self.phases[i] == Phase::Idle
    }

    /// Whether `event` for job `job` is taken up.
    pub open spec fn takes(self, job: int, event: Event) -> bool {
        self.started && 0 <= job < self.phases.len() && accepts(self.phases[job], event)
    }

    /// The state after `event` for job `job`: that job's phase moves,
    /// nothing else does.
    pub open spec fn step(self, job: int, event: Event) -> SchedulerState {
        if self.takes(job, event) {
            SchedulerState {
                phases: self.phases.update(
                    job,
                    phase_after(self.phases[job], event, self.offset_secs, self.targets[job]),
                ),
                ..self
            }
        } else {
            self
        }
    }

    /// What the caller is told on `event` for job `job`.
    pub open spec fn action(self, job: int, event: Event) -> Action {
        if self.takes(job, event) {
            action_after(
                job as usize,
                self.phases[job],
                event,
                self.offset_secs,
                self.targets[job],
            )
        } else {
            Action::Rejected
        }
    }

    /// The state once every job has been put to sleep at `now`.
    pub open spec fn start(self, now: Timestamp) -> SchedulerState {
        SchedulerState {
            phases: Seq::new(
                self.targets.len(),
                |i: int| Phase::Waiting { due: due_after(now, self.offset_secs, self.targets[i]) },
            ),
            started: true,
            ..self
        }
    }
}

/// The set of registered jobs and where each is in its cycle.
pub struct Scheduler<T: Task> {
    jobs: Vec<T>,
    phases: Vec<Phase>,
    started: bool,
    zone: UtcOffset,
}

impl<T: Task> View for Scheduler<T> {
    type V = SchedulerState;

    closed spec fn view(&self) -> SchedulerState {
        SchedulerState {
            targets: Seq::new(self.jobs@.len(), |i: int| self.jobs@[i].target()),
            phases: self.phases@,
            started: self.started,
            offset_secs: self.zone.seconds() as int,
        }
    }
}

impl<T: Task> Scheduler<T> {
    /// What holds of every scheduler that `new` made and the methods
    /// below changed: its state is well formed and its targets are those
    /// of its jobs.
    pub open spec fn wf(&self) -> bool {
        &&& self@.wf()
        &&& self.jobs().len() == self@.targets.len()
        &&& forall|i: int|
            0 <= i < self.jobs().len() ==> #[trigger] self@.targets[i] == self.jobs()[i].target()
        &&& -86_400 < self@.offset_secs < 86_400
    }

    /// The jobs themselves, by position.
    pub closed spec fn jobs(&self) -> Seq<T> {
        self.jobs@
    }

    /// A scheduler with no jobs, for the zone `zone`.
    pub fn new(zone: UtcOffset) -> (s: Scheduler<T>)
        ensures
            s.wf(),
            s@.targets.len() == 0,
            s@.phases.len() == 0,
            !s@.started,
            s@.offset_secs == zone.seconds(),
            s.jobs().len() == 0,
    {
        proof {
            use_type_invariant(zone);
            zone.lemma_within_day();
        }
        Scheduler { jobs: Vec::new(), phases: Vec::new(), started: false, zone }
    }

    /// The number of registered jobs.
    pub fn len(&self) -> (n: usize)
        requires
            self.wf(),
        ensures
            n == self@.phases.len(),
            n == self@.targets.len(),
            n == self.jobs().len(),
    {
        self.jobs.len()
    }

    /// Whether `run` has been called.
    pub fn is_started(&self) -> (b: bool)
        ensures
            b == self@.started,
    {
        self.started
    }

    /// The phase of job `job`, if there is such a job.
    pub fn phase(&self, job: usize) -> (p: Option<Phase>)
        ensures
            p == if job < self@.phases.len() {
                Some(self@.phases[job as int])
            } else {
                None
            },
    {
        if job < self.phases.len() {
            Some(self.phases[job])
        } else {
            None
        }
    }

    /// Job `job`, if there is such a job.
    pub fn job(&self, job: usize) -> (r: Option<&T>)
        requires
            self.wf(),
        ensures
            match r {
                Some(t) => job < self.jobs().len() && *t == self.jobs()[job as int]
                    && t.target() == self@.targets[job as int],
                None => job >= self.jobs().len(),
            },
    {
        if job < self.jobs.len() {
            Some(&self.jobs[job])
        } else {
            None
        }
    }

    /// Adds a job and returns its position. Jobs can be added only before
    /// the scheduler is started.
    pub fn register(&mut self, job: T) -> (r: Result<usize, SchedulerError>)
        requires
            old(self).wf(),
        ensures
            final(self).wf(),
            match r {
                Ok(id) => {
                    &&& !old(self)@.started
                    &&& id == old(self)@.phases.len()
                    &&& final(self)@.targets == old(self)@.targets.push(job.target())
                    &&& final(self)@.phases == old(self)@.phases.push(Phase::Idle)
                    &&& final(self).jobs() == old(self).jobs().push(job)
                    &&& final(self)@.started == old(self)@.started
                    &&& final(self)@.offset_secs == old(self)@.offset_secs
                },
                Err(e) => {
                    &&& old(self)@.started
                    &&& e == SchedulerError::AlreadyStarted
                    &&& final(self)@ == old(self)@
                    &&& final(self).jobs() == old(self).jobs()
                },
            },
    {
        if self.started {
            return Err(SchedulerError::AlreadyStarted);
        }
        let id: usize = self.jobs.len();
        self.jobs.push(job);
        self.phases.push(Phase::Idle);
        proof {
            assert(self@.targets =~= old(self)@.targets.push(job.target()));
        }
        Ok(id)
    }

    /// Starts the scheduler at `now`: every job leaves `Idle` for `Waiting`
    /// and the caller gets, for each job by position, the time to sleep
    /// before its first run. Fails, and changes nothing, if the scheduler
    /// was started before or `now` leaves no room for a day.
    pub fn run(&mut self, now: Timestamp) -> (r: Result<Vec<Span>, SchedulerError>)
        requires
            old(self).wf(),
        ensures
            final(self).wf(),
            final(self).jobs() == old(self).jobs(),
            match r {
                Ok(delays) => {
                    &&& !old(self)@.started
                    &&& can_schedule(now)
                    &&& final(self)@ == old(self)@.start(now)
                    &&& delays@.len() == old(self)@.targets.len()
                    &&& forall|i: int|
                        0 <= i < delays@.len() ==> (#[trigger] delays@[i]).nanos == delay_nanos(
                            now,
                            old(self)@.offset_secs,
                            old(self)@.targets[i],
                        )
                    &&& forall|i: int|
                        0 <= i < delays@.len() ==> 0 < (#[trigger] delays@[i]).nanos
                            <= NANOS_PER_DAY
                },
                Err(e) => {
                    &&& final(self)@ == old(self)@
                    &&& e == if old(self)@.started {
                        SchedulerError::AlreadyStarted
                    } else {
                        SchedulerError::ClockOutOfRange
                    }
                    &&& old(self)@.started || !can_schedule(now)
                },
            },
    {
        if self.started {
            return Err(SchedulerError::AlreadyStarted);
        }
        if now.nanos > i128::MAX - NANOS_PER_DAY {
            return Err(SchedulerError::ClockOutOfRange);
        }
        proof {
            use_type_invariant(self.zone);
        }
        let n: usize = self.jobs.len();
        let mut delays: Vec<Span> = Vec::new();
        let mut phases: Vec<Phase> = Vec::new();
        let mut i: usize = 0;
        while i < n
            invariant
                i <= n,
                n == self.jobs@.len(),
                self.zone.wf(),
                can_schedule(now),
                delays@.len() == i,
                phases@.len() == i,
                forall|k: int|
                    0 <= k < i ==> (#[trigger] delays@[k]).nanos == delay_nanos(
                        now,
                        self.zone.seconds() as int,
                        self.jobs@[k].target(),
                    ),
                forall|k: int| 0 <= k < i ==> 0 < (#[trigger] delays@[k]).nanos <= NANOS_PER_DAY,
                forall|k: int|
                    0 <= k < i ==> #[trigger] phases@[k] == (Phase::Waiting {
                        due: due_after(now, self.zone.seconds() as int, self.jobs@[k].target()),
                    }),
            decreases n - i,
        {
            let span: Span = self.jobs[i].run_in(now, self.zone);
            let due: Timestamp = Timestamp { nanos: now.nanos + (span.nanos as i128) };
            delays.push(span);
            phases.push(Phase::Waiting { due });
            i = i + 1;
        }
        self.phases = phases;
        self.started = true;
        proof {
            assert(self@.phases =~= old(self)@.start(now).phases);
            assert(self@.targets =~= old(self)@.start(now).targets);
        }
        Ok(delays)
    }

    /// Takes `event` for job `job` and says what the caller is to do next.
    /// Only that job's phase can change. An event that does not fit is
    /// rejected and changes nothing.
    pub fn step(&mut self, job: usize, event: Event) -> (action: Action)
        requires
            old(self).wf(),
        ensures
            final(self).wf(),
            final(self)@ == old(self)@.step(job as int, event),
            action == old(self)@.action(job as int, event),
            final(self).jobs() == old(self).jobs(),
            action matches Action::Sleep { span } ==> 0 < span.nanos <= NANOS_PER_DAY,
    {
        if !self.started || job >= self.phases.len() {
            return Action::Rejected;
        }
        let phase: Phase = self.phases[job];
        match (phase, event) {
            (Phase::Idle, Event::Wake { now }) => {
                if now.nanos > i128::MAX - NANOS_PER_DAY {
                    Action::Rejected
                } else {
                    let span: Span = self.jobs[job].run_in(now, self.zone);
                    let due: Timestamp = Timestamp { nanos: now.nanos + (span.nanos as i128) };
                    self.phases.set(job, Phase::Waiting { due });
                    proof {
                        assert(self@.targets =~= old(self)@.targets);
                    }
                    Action::Sleep { span }
                }
            },
            (Phase::Waiting { due }, Event::Elapsed) => {
                self.phases.set(job, Phase::Running { due });
                proof {
                    assert(self@.targets =~= old(self)@.targets);
                }
                Action::Execute
            },
            (Phase::Running { due }, Event::Finished { outcome }) => {
                self.phases.set(job, Phase::Idle);
                proof {
                    assert(self@.targets =~= old(self)@.targets);
                }
                Action::Record { run: ScheduledRun { job, scheduled: due, outcome } }
            },
            _ => Action::Rejected,
        }
    }

    /// The jobs that are asleep and due at or before `now`, by rising
    /// position.
    pub fn due_jobs(&self, now: Timestamp) -> (due: Vec<usize>)
        requires
            self.wf(),
        ensures
            due@ == Seq::new(self@.phases.len(), |i: int| i as usize).filter(
                |i: usize| is_due(self@.phases[i as int], now),
            ),
    {
        let n: usize = self.phases.len();
        let ghost all = Seq::new(self@.phases.len(), |i: int| i as usize);
        let ghost wanted = |i: usize| is_due(self@.phases[i as int], now);
        let mut due: Vec<usize> = Vec::new();
        let mut i: usize = 0;
        proof {
            assert(all.take(0) =~= Seq::<usize>::empty());
        }
        while i < n
            invariant
                i <= n,
                n == self.phases@.len(),
                n == all.len(),
                all == Seq::new(self@.phases.len(), |k: int| k as usize),
                wanted == |k: usize| is_due(self@.phases[k as int], now),
                due@ == all.take(i as int).filter(wanted),
            decreases n - i,
        {
            let hit: bool = match self.phases[i] {
                Phase::Waiting { due: at } => at.nanos <= now.nanos,
                _ => false,
            };
            proof {
                assert(all.take(i + 1).drop_last() =~= all.take(i as int));
                assert(all.take(i + 1).last() == i);
                reveal(Seq::filter);
                assert(hit == wanted(i));
            }
            if hit {
                due.push(i);
            }
            i = i + 1;
        }
        proof {
            assert(all.take(n as int) =~= all);
        }
        due
    }
}

/// Whether a job in `phase` is asleep and due at or before `now`.
pub open spec fn is_due(phase: Phase, now: Timestamp) -> bool {
    phase matches Phase::Waiting { due } && due.nanos <= now.nanos
}

/// A job goes round its cycle in order and one step at a time: an idle job
/// can only be put to sleep, a sleeping job can only be started, a running
/// job can only finish. So a job that is running is never started again
/// before it has finished.
pub proof fn lemma_cycle_is_sequential(
    phase: Phase,
    event: Event,
    offset_secs: int,
    target: TimeOfDay,
)
    ensures
        accepts(phase, event) ==> {
            ||| phase is Idle && event is Wake && phase_after(phase, event, offset_secs, target)
                is Waiting
            ||| phase is Waiting && event is Elapsed && phase_after(
                phase,
                event,
                offset_secs,
                target,
            ) is Running
            ||| phase is Running && event is Finished && phase_after(
                phase,
                event,
                offset_secs,
                target,
            ) is Idle
        },
        !accepts(phase, event) ==> phase_after(phase, event, offset_secs, target) == phase
            && action_after(0, phase, event, offset_secs, target) == Action::Rejected,
        phase is Running && event is Elapsed ==> !accepts(phase, event),
{
}

/// An event moves the job that it names and no other: every other job's
/// phase and target, and the set of jobs, stay as they were.
pub proof fn lemma_step_is_local(state: SchedulerState, job: int, event: Event, other: int)
    requires
        state.wf(),
        0 <= other < state.phases.len(),
        other != job,
    ensures
        state.step(job, event).wf(),
        state.step(job, event).phases[other] == state.phases[other],
        state.step(job, event).targets == state.targets,
        state.step(job, event).started == state.started,
        state.step(job, event).phases.len() == state.phases.len(),
{
}

/// Events for two different jobs can be taken in either order: the state
/// afterwards is the same, and so is what the caller is told for each.
pub proof fn lemma_steps_commute(
    state: SchedulerState,
    first: int,
    first_event: Event,
    second: int,
    second_event: Event,
)
    requires
        state.wf(),
        first != second,
    ensures
        state.step(first, first_event).step(second, second_event) == state.step(
            second,
            second_event,
        ).step(first, first_event),
        state.step(second, second_event).action(first, first_event) == state.action(
            first,
            first_event,
        ),
        state.step(first, first_event).action(second, second_event) == state.action(
            second,
            second_event,
        ),
{
    let one = state.step(first, first_event).step(second, second_event);
    let other = state.step(second, second_event).step(first, first_event);
    assert(one.phases =~= other.phases);
}

/// A run that fails leaves the scheduler where a run that succeeds would
/// have left it: the job is idle again, it takes the next `Wake`, and is
/// then asleep until its next due time. No other job has moved.
pub proof fn lemma_failure_is_contained(
    state: SchedulerState,
    job: int,
    failure: Failure,
    now: Timestamp,
)
    requires
        state.wf(),
        state.started,
        0 <= job < state.phases.len(),
        state.phases[job] is Running,
        can_schedule(now),
    ensures
        state.step(job, Event::Finished { outcome: Outcome::Failure(failure) }) == state.step(
            job,
            Event::Finished { outcome: Outcome::Success },
        ),
        state.step(job, Event::Finished { outcome: Outcome::Failure(failure) }).phases[job]
            == Phase::Idle,
        state.step(job, Event::Finished { outcome: Outcome::Failure(failure) }).step(
            job,
            Event::Wake { now },
        ).phases[job] == (Phase::Waiting {
            due: due_after(now, state.offset_secs, state.targets[job]),
        }),
        forall|other: int|
            0 <= other < state.phases.len() && other != job ==> #[trigger] state.step(
                job,
                Event::Finished { outcome: Outcome::Failure(failure) },
            ).step(job, Event::Wake { now }).phases[other] == state.phases[other],
{
}

/// A job's due times do not drift. If it was due at `due`, an instant at
/// which the zone's clocks showed its target, and its worker asks for the
/// next delay at any `now` from `due` on and less than a day later, however
/// long the run took, the next due time is exactly a day after `due`.
pub proof fn lemma_no_drift(due: Timestamp, now: Timestamp, offset_secs: int, target: TimeOfDay)
    requires
        target.wf(),
        nanos_of_day(due, offset_secs) == target.nanos(),
        due.nanos <= now.nanos < due.nanos + NANOS_PER_DAY,
    ensures
        now.nanos + delay_nanos(now, offset_secs, target) == due.nanos + NANOS_PER_DAY,
{
    let day = NANOS_PER_DAY as int;
    let wanted = target.nanos();
    let local_due = due.nanos + offset_secs * crate::clock::NANOS_PER_SECOND;
    let local_now = now.nanos + offset_secs * crate::clock::NANOS_PER_SECOND;
    let q = local_due / day;
    let gone = now.nanos - due.nanos;
    target.lemma_within_day();
    lemma_fundamental_div_mod(local_due, day);
    if wanted + gone < day {
        assert(local_now == q * day + (wanted + gone)) by (nonlinear_arith)
            requires
                local_due == day * q + wanted,
                local_now == local_due + gone,
        ;
        lemma_fundamental_div_mod_converse(local_now, day, q, wanted + gone);
    } else {
        assert(local_now == (q + 1) * day + (wanted + gone - day)) by (nonlinear_arith)
            requires
                local_due == day * q + wanted,
                local_now == local_due + gone,
        ;
        lemma_fundamental_div_mod_converse(local_now, day, q + 1, wanted + gone - day);
    }
}

/// Once a day, exactly. In the day that follows any `now`, the zone's
/// clocks show a job's target at one instant and no other: the job's next
/// due time.
pub proof fn lemma_once_a_day(
    now: Timestamp,
    offset_secs: int,
    target: TimeOfDay,
    at: Timestamp,
)
    requires
        target.wf(),
        now.nanos < at.nanos <= now.nanos + NANOS_PER_DAY,
    ensures
        now.nanos < now.nanos + delay_nanos(now, offset_secs, target) <= now.nanos
            + NANOS_PER_DAY,
        nanos_of_day(at, offset_secs) == target.nanos() <==> at.nanos == now.nanos + delay_nanos(
            now,
            offset_secs,
            target,
        ),
{
    let day = NANOS_PER_DAY as int;
    let wanted = target.nanos();
    let wait = delay_nanos(now, offset_secs, target);
    lemma_nanos_of_day_range(now, offset_secs);
    lemma_delay_positive(now, offset_secs, target);
    target.lemma_within_day();
    let local_now = now.nanos + offset_secs * crate::clock::NANOS_PER_SECOND;
    let local_at = at.nanos + offset_secs * crate::clock::NANOS_PER_SECOND;
    let q = local_now / day;
    let p = local_at / day;
    lemma_fundamental_div_mod(local_now, day);
    lemma_fundamental_div_mod(local_at, day);
    let k: int = if nanos_of_day(now, offset_secs) < wanted {
        q
    } else {
        q + 1
    };
    assert(local_now + wait == k * day + wanted) by (nonlinear_arith)
        requires
            local_now == day * q + nanos_of_day(now, offset_secs),
            wait == k * day + wanted - day * q - nanos_of_day(now, offset_secs),
    ;
    if at.nanos == now.nanos + wait {
        lemma_fundamental_div_mod_converse(local_at, day, k, wanted);
    }
    if nanos_of_day(at, offset_secs) == wanted {
        assert(p == k) by (nonlinear_arith)
            requires
                local_at == day * p + wanted,
                local_now + wait == k * day + wanted,
                local_now < local_at <= local_now + day,
                0 < wait <= day,
                day > 0,
        ;
        assert(day * p == p * day) by (nonlinear_arith);
    }
}

} // verus!
