use vstd::prelude::*;
use crate::command::{FlashOp, FlashStep, step_ops, step_wf};
use crate::error::FlashError;
use crate::model::plan_ops;
use crate::geometry::valid_range;
use crate::plan::{erase_steps, write_steps, plan_erase, plan_write};
use crate::laws::lemma_planned_steps_wf;

verus! {

/// What the caller has to do next for a running request.
#[derive(Clone, Copy, Debug, PartialEq, Eq, Structural)]
pub enum SessionAction {
    /// Perform this hardware action, then call `step` again.
    Perform(FlashOp),
    /// The controller is busy: read the ready flag again and call `step` with it.
    AwaitReady,
    /// Every action of the request was performed and the controller is ready.
    Finished,
    /// The controller did not report ready within the poll budget.
    TimedOut,
}

/// The abstract state of a session.
pub struct SessionView {
    /// The steps of the current request.
    pub steps: Seq<FlashStep>,
    /// How many of the request's hardware actions were performed.
    pub done: nat,
    /// The last action performed was a command that has not yet reported ready.
    pub waiting: bool,
    /// How many times the ready flag was read as not ready for that command.
    pub polls: nat,
    /// How many not-ready reads are tolerated for one command.
    pub poll_budget: nat,
    /// The controller failed to become ready in time; the request is abandoned.
    pub timed_out: bool,
}

/// The session has work left: an action to perform, or a command in flight.
pub open spec fn in_flight(v: SessionView) -> bool {
    !v.timed_out && (v.done < plan_ops(v.steps).len() || v.waiting)
}

/// Drives the hardware actions of one request at a time, in order, and
/// performs a command only once the previous one has reported ready.
///
/// The caller performs each action the session hands out and reports the
/// controller's ready flag back; no wait is longer than the poll budget.
pub struct FlashSession {
    steps: Vec<FlashStep>,
    step: usize,
    op: usize,
    waiting: bool,
    polls: u32,
    poll_budget: u32,
    timed_out: bool,
}

impl View for FlashSession {
    type V = SessionView;

    closed spec fn view(&self) -> SessionView {
        SessionView {
            steps: self.steps@,
            done: plan_ops(self.steps@.take(self.step as int)).len() + self.op as nat,
            waiting: self.waiting,
            polls: self.polls as nat,
            poll_budget: self.poll_budget as nat,
            timed_out: self.timed_out,
        }
    }
}

/// The actions of the first `k + 1` steps are those of the first `k`, then those of step `k`.
proof fn lemma_plan_ops_take_next(s: Seq<FlashStep>, k: int)
    requires
        0 <= k < s.len(),
    ensures
        plan_ops(s.take(k + 1)) == plan_ops(s.take(k)) + step_ops(s[k]),
{
    assert(s.take(k + 1).drop_last() =~= s.take(k));
}

/// The actions of the first `k` steps begin the actions of all the steps.
proof fn lemma_plan_ops_prefix(s: Seq<FlashStep>, k: int)
    requires
        0 <= k <= s.len(),
    ensures
        plan_ops(s.take(k)).len() <= plan_ops(s).len(),
        forall|i: int| 0 <= i < plan_ops(s.take(k)).len() ==> plan_ops(s.take(k))[i] == #[trigger] plan_ops(s)[i],
    decreases s.len() - k,
{
    if k == s.len() {
        assert(s.take(k) =~= s);
    } else {
        lemma_plan_ops_prefix(s, k + 1);
        lemma_plan_ops_take_next(s, k);
    }
}

impl FlashSession {
    /// The internal position agrees with the steps.
    pub closed spec fn inv(&self) -> bool {
        &&& forall|i: int| 0 <= i < self.steps@.len() ==> step_wf(#[trigger] self.steps@[i])
        &&& self.step <= self.steps@.len()
        &&& self.step < self.steps@.len() ==> self.op < step_ops(self.steps@[self.step as int]).len()
        &&& self.step == self.steps@.len() ==> self.op == 0
        &&& self.polls <= self.poll_budget
    }

    /// An idle session that tolerates `poll_budget` not-ready reads per command.
    pub fn new(poll_budget: u32) -> (r: Self)
        ensures
            r.inv(),
            r@ == (SessionView {
                steps: Seq::empty(),
                done: 0,
                waiting: false,
                polls: 0,
                poll_budget: poll_budget as nat,
                timed_out: false,
            }),
    {
        let r = FlashSession {
            steps: Vec::new(),
            step: 0,
            op: 0,
            waiting: false,
            polls: 0,
            poll_budget,
            timed_out: false,
        };
        assert(r.steps@.take(0) =~= Seq::<FlashStep>::empty());
        r
    }

    /// Starts a request made of `steps`.
    ///
    /// Refused with `Busy` while the previous request is in flight, and with
    /// `InvalidRange` if a step names a page or doubleword outside the flash.
    pub fn begin(&mut self, steps: Vec<FlashStep>) -> (r: Result<(), FlashError>)
        requires
            old(self).inv(),
        ensures
            final(self).inv(),
            in_flight(old(self)@) ==> r == Err::<(), FlashError>(FlashError::Busy) && final(self)@ == old(self)@,
            !in_flight(old(self)@) && !(forall|i: int| 0 <= i < steps@.len() ==> step_wf(#[trigger] steps@[i]))
                ==> r == Err::<(), FlashError>(FlashError::InvalidRange) && final(self)@ == old(self)@,
            !in_flight(old(self)@) && (forall|i: int| 0 <= i < steps@.len() ==> step_wf(#[trigger] steps@[i]))
                ==> r == Ok::<(), FlashError>(()) && final(self)@ == (SessionView {
                steps: steps@,
                done: 0,
                waiting: false,
                polls: 0,
                poll_budget: old(self)@.poll_budget,
                timed_out: false,
            }),
    {
        proof {
            lemma_plan_ops_prefix(self.steps@, self.step as int);
            if self.step == self.steps@.len() {
                assert(self.steps@.take(self.step as int) =~= self.steps@);
            } else {
                lemma_plan_ops_take_next(self.steps@, self.step as int);
                lemma_plan_ops_prefix(self.steps@, self.step as int + 1);
            }
        }
        if !self.timed_out && (self.step < self.steps.len() || self.waiting) {
            return Err(FlashError::Busy);
        }
        let mut i: usize = 0;
        while i < steps.len()
            invariant
                *self == *old(self),
                self.inv(),
                !in_flight(self@),
                i <= steps@.len(),
                forall|j: int| 0 <= j < i ==> step_wf(#[trigger] steps@[j]),
            decreases steps@.len() - i,
        {
            if !steps[i].is_well_formed() {
                return Err(FlashError::InvalidRange);
            }
            i = i + 1;
        }
        self.steps = steps;
        self.step = 0;
        self.op = 0;
        self.waiting = false;
        self.polls = 0;
        self.timed_out = false;
        assert(self.steps@.take(0) =~= Seq::<FlashStep>::empty());
        Ok(())
    }

    /// Advances the request, given the controller's ready flag as just read.
    ///
    /// While a command is in flight and the flag is clear, the session asks
    /// for another read, and gives up with `TimedOut` once the budget is
    /// spent. Otherwise it hands out the next hardware action of the request,
    /// or reports that the request is finished.
    pub fn step(&mut self, ready: bool) -> (a: SessionAction)
        requires
            old(self).inv(),
        ensures
            final(self).inv(),
            ({
                let v = old(self)@;
                let ops = plan_ops(v.steps);
                if v.timed_out {
                    a == SessionAction::TimedOut && final(self)@ == v
                } else if v.waiting && !ready {
                    if v.polls < v.poll_budget {
                        a == SessionAction::AwaitReady && final(self)@ == SessionView {
                            polls: v.polls + 1,
                            ..v
                        }
                    } else {
                        a == SessionAction::TimedOut && final(self)@ == SessionView {
                            timed_out: true,
                            ..v
                        }
                    }
                } else if v.done >= ops.len() {
                    a == SessionAction::Finished && final(self)@ == SessionView {
                        waiting: false,
                        polls: 0,
                        ..v
                    }
                } else {
                    a == SessionAction::Perform(ops[v.done as int]) && final(self)@ == SessionView {
                        done: v.done + 1,
                        waiting: ops[v.done as int].spec_needs_ready(),
                        polls: 0,
                        ..v
                    }
                }
            }),
    {
        let ghost s = self.steps@;
        proof {
            lemma_plan_ops_prefix(s, self.step as int);
            if self.step == s.len() {
                assert(s.take(self.step as int) =~= s);
            } else {
                lemma_plan_ops_take_next(s, self.step as int);
                lemma_plan_ops_prefix(s, self.step as int + 1);
            }
        }
        if self.timed_out {
            return SessionAction::TimedOut;
        }
        if self.waiting && !ready {
            if self.polls >= self.poll_budget {
                self.timed_out = true;
                return SessionAction::TimedOut;
            }
            self.polls = self.polls + 1;
            return SessionAction::AwaitReady;
        }
        self.waiting = false;
        self.polls = 0;
        if self.step >= self.steps.len() {
            return SessionAction::Finished;
        }
        let op = self.steps[self.step].op_at(self.op);
        if self.op + 1 < self.steps[self.step].op_count() {
            self.op = self.op + 1;
        } else {
            self.step = self.step + 1;
            self.op = 0;
        }
        self.waiting = op.needs_ready();
        SessionAction::Perform(op)
    }

    /// Tells whether a request is in flight.
    pub fn is_busy(&self) -> (r: bool)
        requires
            self.inv(),
        ensures
            r == in_flight(self@),
    {
        proof {
            lemma_plan_ops_prefix(self.steps@, self.step as int);
            if self.step == self.steps@.len() {
                assert(self.steps@.take(self.step as int) =~= self.steps@);
            } else {
                lemma_plan_ops_take_next(self.steps@, self.step as int);
                lemma_plan_ops_prefix(self.steps@, self.step as int + 1);
            }
        }
        !self.timed_out && (self.step < self.steps.len() || self.waiting)
    }

    /// Starts the erase of every page that `[address, address + length)` touches.
    pub fn begin_erase(&mut self, address: u32, length: u32) -> (r: Result<(), FlashError>)
        requires
            old(self).inv(),
        ensures
            final(self).inv(),
            in_flight(old(self)@) ==> r == Err::<(), FlashError>(FlashError::Busy) && final(self)@ == old(self)@,
            !in_flight(old(self)@) && !valid_range(address as int, length as int) ==> r == Err::<
                (),
                FlashError,
            >(FlashError::InvalidRange) && final(self)@ == old(self)@,
            !in_flight(old(self)@) && valid_range(address as int, length as int) ==> r == Ok::<
                (),
                FlashError,
            >(()) && final(self)@ == (SessionView {
                steps: erase_steps(address as int, length as int),
                done: 0,
                waiting: false,
                polls: 0,
                poll_budget: old(self)@.poll_budget,
                timed_out: false,
            }),
    {
        if self.is_busy() {
            return Err(FlashError::Busy);
        }
        let steps = match plan_erase(address, length) {
            Ok(steps) => steps,
            Err(e) => return Err(e),
        };
        proof {
            lemma_planned_steps_wf(address as int, Seq::empty(), length as int);
        }
        self.begin(steps)
    }

    /// Starts the write of the first `length` bytes of `source` to
    /// `[address, address + length)`.
    pub fn begin_write(&mut self, address: u32, source: &[u8], length: u32) -> (r: Result<(), FlashError>)
        requires
            old(self).inv(),
            length <= source@.len(),
        ensures
            final(self).inv(),
            in_flight(old(self)@) ==> r == Err::<(), FlashError>(FlashError::Busy) && final(self)@ == old(self)@,
            !in_flight(old(self)@) && !valid_range(address as int, length as int) ==> r == Err::<
                (),
                FlashError,
            >(FlashError::InvalidRange) && final(self)@ == old(self)@,
            !in_flight(old(self)@) && valid_range(address as int, length as int) ==> r == Ok::<
                (),
                FlashError,
            >(()) && final(self)@ == (SessionView {
                steps: write_steps(address as int, source@, length as int),
                done: 0,
                waiting: false,
                polls: 0,
                poll_budget: old(self)@.poll_budget,
                timed_out: false,
            }),
    {
        if self.is_busy() {
            return Err(FlashError::Busy);
        }
        let steps = match plan_write(address, source, length) {
            Ok(steps) => steps,
            Err(e) => return Err(e),
        };
        proof {
            lemma_planned_steps_wf(address as int, source@, length as int);
        }
        self.begin(steps)
    }
}

} // verus!
