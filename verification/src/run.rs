//! Carrying a program out: which step comes next, and when to stop.
//!
//! The hardware is not in reach of this crate. Whoever owns it asks a [`Run`]
//! for the next action, performs it, and reports what happened. A run hands out
//! the steps of its program in order and gives up at the first failure.

use vstd::prelude::*;
use crate::transaction::command_ops;
use crate::wire::{ops, Op, Step};

verus! {

/// What the hardware reported for the step performed last.
#[derive(Clone, Copy, Debug, PartialEq, Eq)]
pub enum Event {
    /// The step was carried out.
    Completed,
    /// Driving the line, or the bus write, failed.
    Failed,
}

/// What is to be done next.
#[derive(Debug, PartialEq, Eq)]
pub enum Action<'a> {
    /// Perform this step, then report how it went.
    Perform(&'a Step),
    /// Nothing is left to do: the operation has ended with this result.
    Finish(Result<(), ()>),
}

/// The model of a [`Run`].
pub struct Progress {
    /// The program being carried out.
    pub program: Seq<Op>,
    /// How many steps, from the first, have been carried out.
    pub completed: nat,
    /// Whether the step after those has failed.
    pub failed: bool,
}

impl Progress {
    /// A run of `program` of which nothing has been performed yet.
    pub open spec fn start(program: Seq<Op>) -> Progress {
        Progress { program, completed: 0, failed: false }
    }

    /// Whether the run is over.
    pub open spec fn finished(self) -> bool {
        self.failed || self.completed >= self.program.len()
    }

    /// The steps handed to the hardware so far, the failed one included.
    pub open spec fn attempted(self) -> Seq<Op> {
        self.program.take(self.completed + (if self.failed { 1int } else { 0int }))
    }

    /// The result of the operation, once the run is over.
    pub open spec fn outcome(self) -> Option<Result<(), ()>> {
        if self.failed {
            Some(Err(()))
        } else if self.completed >= self.program.len() {
            Some(Ok(()))
        } else {
            None
        }
    }

    /// The run after the hardware has reported `event` for the step in
    /// flight. A run that is over takes no notice.
    pub open spec fn after(self, event: Event) -> Progress {
        if self.finished() {
            self
        } else {
            match event {
                Event::Completed => Progress { completed: self.completed + 1, ..self },
                Event::Failed => Progress { failed: true, ..self },
            }
        }
    }

    /// The run after a series of reports, the earliest first.
    pub open spec fn after_all(self, events: Seq<Event>) -> Progress
        decreases events.len(),
    {
        if events.len() == 0 {
            self
        } else {
            self.after(events.first()).after_all(events.drop_first())
        }
    }
}

/// `count` reports of success.
pub open spec fn successes(count: nat) -> Seq<Event> {
    Seq::new(count, |i: int| Event::Completed)
}

/// A run that is over stays as it is, whatever is reported to it: it attempts
/// no further step and keeps its result.
pub proof fn lemma_finished_run_is_inert(run: Progress, events: Seq<Event>)
    requires
        run.finished(),
    ensures
        run.after_all(events) == run,
    decreases events.len(),
{
    if events.len() > 0 {
        lemma_finished_run_is_inert(run, events.drop_first());
    }
}

/// While steps succeed the run moves through its program one step at a time.
pub proof fn lemma_successes_advance(run: Progress, count: nat)
    requires
        !run.failed,
        run.completed + count <= run.program.len(),
    ensures
        run.after_all(successes(count)) == (Progress { completed: run.completed + count, ..run }),
    decreases count,
{
    if count > 0 {
        let next = run.after(Event::Completed);
        assert(successes(count).drop_first() =~= successes((count - 1) as nat));
        lemma_successes_advance(next, (count - 1) as nat);
    }
}

/// Reports given one after the other are reports given together.
pub proof fn lemma_after_all_concat(run: Progress, first: Seq<Event>, second: Seq<Event>)
    ensures
        run.after_all(first + second) == run.after_all(first).after_all(second),
    decreases first.len(),
{
    if first.len() == 0 {
        assert(first + second =~= second);
    } else {
        assert((first + second).drop_first() =~= first.drop_first() + second);
        lemma_after_all_concat(run.after(first.first()), first.drop_first(), second);
    }
}

/// A program whose every step succeeds is carried out in full, and the
/// operation succeeds.
pub proof fn lemma_success_completes(program: Seq<Op>)
    ensures
        Progress::start(program).after_all(successes(program.len())).attempted() == program,
        Progress::start(program).after_all(successes(program.len())).outcome() == Some(
            Ok::<(), ()>(()),
        ),
{
    lemma_successes_advance(Progress::start(program), program.len());
    assert(program.take(program.len() as int) =~= program);
}

/// The first failure ends the operation. When the step at `index` fails after
/// all before it have succeeded, the steps handed to the hardware are those up
/// to and including the failed one and no other, whatever is reported
/// afterwards, and the operation fails.
pub proof fn lemma_failure_aborts(program: Seq<Op>, index: nat, later: Seq<Event>)
    requires
        index < program.len(),
    ensures
        Progress::start(program).after_all(
            successes(index) + seq![Event::Failed] + later,
        ).attempted() == program.take(index as int + 1),
        Progress::start(program).after_all(
            successes(index) + seq![Event::Failed] + later,
        ).outcome() == Some(Err::<(), ()>(())),
{
    let start = Progress::start(program);
    let reached = Progress { completed: index, ..start };
    let stopped = Progress { failed: true, ..reached };
    lemma_successes_advance(start, index);
    lemma_after_all_concat(start, successes(index), seq![Event::Failed] + later);
    assert(successes(index) + (seq![Event::Failed] + later) =~= successes(index) + seq![
        Event::Failed,
    ] + later);
    assert((seq![Event::Failed] + later).first() == Event::Failed);
    assert((seq![Event::Failed] + later).drop_first() =~= later);
    assert(reached.after(Event::Failed) == stopped);
    lemma_finished_run_is_inert(stopped, later);
}

/// A failure anywhere in a command transaction, be it of a control line or of
/// a bus write, cuts the transaction short: nothing after the failed step is
/// attempted, and the command fails.
pub proof fn lemma_command_failure_aborts(
    opcode: u8,
    params: Seq<u8>,
    index: nat,
    later: Seq<Event>,
)
    requires
        index < command_ops(opcode, params).len(),
    ensures
        Progress::start(command_ops(opcode, params)).after_all(
            successes(index) + seq![Event::Failed] + later,
        ).attempted() == command_ops(opcode, params).take(index as int + 1),
        Progress::start(command_ops(opcode, params)).after_all(
            successes(index) + seq![Event::Failed] + later,
        ).outcome() == Some(Err::<(), ()>(())),
{
    lemma_failure_aborts(command_ops(opcode, params), index, later);
}

/// The carrying out of one program.
pub struct Run {
    program: Vec<Step>,
    position: usize,
    failed: bool,
}

impl View for Run {
    type V = Progress;

    closed spec fn view(&self) -> Progress {
        Progress {
            program: ops(self.program@),
            completed: self.position as nat,
            failed: self.failed,
        }
    }
}

impl Run {
    /// Starts a run of `program`.
    pub fn new(program: Vec<Step>) -> (run: Run)
        ensures
            run@ == Progress::start(ops(program@)),
    {
        Run { program, position: 0, failed: false }
    }

    /// What is to be done now: the next step while the run is under way, the
    /// result once it is over.
    pub fn action<'a>(&'a self) -> (action: Action<'a>)
        ensures
            match self@.outcome() {
                Some(result) => action == Action::Finish(result),
                None => {
                    &&& action matches Action::Perform(step)
                    &&& step@ == self@.program[self@.completed as int]
                },
            },
    {
        if self.failed {
            Action::Finish(Err(()))
        } else if self.position < self.program.len() {
            Action::Perform(&self.program[self.position])
        } else {
            Action::Finish(Ok(()))
        }
    }

    /// Takes note of what the hardware reported for the step handed out last.
    pub fn record(&mut self, event: Event)
        ensures
            final(self)@ == old(self)@.after(event),
    {
        if !self.failed && self.position < self.program.len() {
            match event {
                Event::Completed => {
                    self.position = self.position + 1;
                },
                Event::Failed => {
                    self.failed = true;
                },
            }
        }
    }
}

} // verus!
