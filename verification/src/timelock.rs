//! The time-lock queue shared by the three contracts: governance operations
//! are queued with an earliest execution time, may be contested by anyone
//! while their window is open, and may be cancelled by the contract's
//! privileged role.
use vstd::hash_map::StringHashMap;
use vstd::prelude::*;

verus! {

/// Default delay between queueing and executing an operation: 48 hours.
pub const TIMELOCK_DEFAULT_DELAY_SECS: u64 = 172_800;

/// A governance operation waiting out its delay period.
#[derive(Clone, Debug)]
pub struct PendingOp<A> {
    pub op_id: String,
    pub action: A,
    /// Project id or parameter name the operation acts on.
    pub target: String,
    pub initiated_by: String,
    /// Earliest execution timestamp, in seconds.
    pub eta: u64,
    /// Human-readable reason or new value.
    pub payload: String,
}

/// Record of a contest raised against a pending operation.
#[derive(Clone, Debug)]
pub struct ContestRecord {
    pub op_id: String,
    pub contested_by: String,
    pub reason: String,
    pub contested_at: u64,
}

/// Why the queue refuses to execute or contest an operation.
#[derive(Clone, Copy, Debug, PartialEq, Eq, Structural)]
pub enum TimelockRefusal {
    /// No operation is queued under the id.
    OpNotFound,
    /// The operation was contested and may not run.
    Contested,
    /// The delay has not elapsed yet.
    TooEarly,
    /// The contest window (before `eta`) has closed.
    WindowClosed,
}

/// Abstract content of a time-lock queue.
#[verifier::reject_recursive_types(A)]
pub struct TimelockState<A> {
    pub ops: Map<Seq<char>, PendingOp<A>>,
    pub contests: Map<Seq<char>, ContestRecord>,
    pub delay: u64,
}

impl<A> TimelockState<A> {
    /// The queue of a freshly deployed contract.
    pub open spec fn initial() -> Self {
        TimelockState { ops: Map::empty(), contests: Map::empty(), delay: TIMELOCK_DEFAULT_DELAY_SECS }
    }

    /// Why executing `op_id` at time `now` is refused, if it is.
    pub open spec fn execution_refusal(self, op_id: Seq<char>, now: u64) -> Option<TimelockRefusal> {
        if !self.ops.contains_key(op_id) {
            Some(TimelockRefusal::OpNotFound)
        } else if self.contests.contains_key(op_id) {
            Some(TimelockRefusal::Contested)
        } else if now < self.ops[op_id].eta {
            Some(TimelockRefusal::TooEarly)
        } else {
            None
        }
    }

    /// Why contesting `op_id` at time `now` is refused, if it is.
    pub open spec fn contest_refusal(self, op_id: Seq<char>, now: u64) -> Option<TimelockRefusal> {
        if !self.ops.contains_key(op_id) {
            Some(TimelockRefusal::OpNotFound)
        } else if now >= self.ops[op_id].eta {
            Some(TimelockRefusal::WindowClosed)
        } else {
            None
        }
    }

    /// The queue after `op` is queued (replacing any operation with its id).
    pub open spec fn with_op(self, op: PendingOp<A>) -> Self {
        TimelockState { ops: self.ops.insert(op.op_id@, op), ..self }
    }

    /// The queue after the operation `op_id` ran.
    pub open spec fn without_op(self, op_id: Seq<char>) -> Self {
        TimelockState { ops: self.ops.remove(op_id), ..self }
    }

    /// The queue after `record` was filed.
    pub open spec fn with_contest(self, record: ContestRecord) -> Self {
        TimelockState { contests: self.contests.insert(record.op_id@, record), ..self }
    }

    /// The queue after the operation `op_id` and any contest of it were dropped.
    pub open spec fn cancelled(self, op_id: Seq<char>) -> Self {
        TimelockState { ops: self.ops.remove(op_id), contests: self.contests.remove(op_id), ..self }
    }

    /// The queue after the delay was changed to `delay`.
    pub open spec fn with_delay(self, delay: u64) -> Self {
        TimelockState { delay, ..self }
    }
}

/// A time-lock queue: pending operations and contests, keyed by operation id.
#[verifier::reject_recursive_types(A)]
pub struct Timelock<A> {
    ops: StringHashMap<PendingOp<A>>,
    contests: StringHashMap<ContestRecord>,
    delay: u64,
}

impl<A> View for Timelock<A> {
    type V = TimelockState<A>;

    closed spec fn view(&self) -> TimelockState<A> {
        TimelockState { ops: self.ops@, contests: self.contests@, delay: self.delay }
    }
}

impl<A> Timelock<A> {
    /// An empty queue with the default delay.
    pub fn new() -> (t: Self)
        ensures
            t@ == TimelockState::<A>::initial(),
    {
        Timelock { ops: StringHashMap::new(), contests: StringHashMap::new(), delay: TIMELOCK_DEFAULT_DELAY_SECS }
    }

    /// The configured delay in seconds.
    pub fn delay(&self) -> (d: u64)
        ensures
            d == self@.delay,
    {
        self.delay
    }

    /// Changes the delay.
    pub fn set_delay(&mut self, delay: u64)
        ensures
            final(self)@ == old(self)@.with_delay(delay),
    {
        self.delay = delay;
    }

    /// The operation queued under `op_id`, if any.
    pub fn pending_op(&self, op_id: &str) -> (r: Option<&PendingOp<A>>)
        ensures
            match r {
                Some(op) => self@.ops.contains_key(op_id@) && *op == self@.ops[op_id@],
                None => !self@.ops.contains_key(op_id@),
            },
    {
        self.ops.get(op_id)
    }

    /// The contest filed against `op_id`, if any.
    pub fn contest_record(&self, op_id: &str) -> (r: Option<&ContestRecord>)
        ensures
            match r {
                Some(c) => self@.contests.contains_key(op_id@) && *c == self@.contests[op_id@],
                None => !self@.contests.contains_key(op_id@),
            },
    {
        self.contests.get(op_id)
    }

    /// The operation `op_id` if it may run at time `now`, or why it may not.
    pub fn executable(&self, op_id: &str, now: u64) -> (r: Result<&PendingOp<A>, TimelockRefusal>)
        ensures
            match r {
                Ok(op) => self@.execution_refusal(op_id@, now) is None && *op == self@.ops[op_id@],
                Err(e) => self@.execution_refusal(op_id@, now) == Some(e),
            },
    {
        match self.ops.get(op_id) {
            None => Err(TimelockRefusal::OpNotFound),
            Some(op) => {
                if self.contests.contains_key(op_id) {
                    Err(TimelockRefusal::Contested)
                } else if now < op.eta {
                    Err(TimelockRefusal::TooEarly)
                } else {
                    Ok(op)
                }
            },
        }
    }

    /// Why contesting `op_id` at `now` is refused, if it is.
    pub fn check_contest(&self, op_id: &str, now: u64) -> (r: Option<TimelockRefusal>)
        ensures
            r == self@.contest_refusal(op_id@, now),
    {
        match self.ops.get(op_id) {
            None => Some(TimelockRefusal::OpNotFound),
            Some(op) => if now >= op.eta {
                Some(TimelockRefusal::WindowClosed)
            } else {
                None
            },
        }
    }

    /// Queues `op` under its id.
    pub fn queue(&mut self, op: PendingOp<A>)
        ensures
            final(self)@ == old(self)@.with_op(op),
    {
        let key = op.op_id.clone();
        self.ops.insert(key, op);
    }

    /// Drops the operation `op_id` after it ran.
    pub fn remove_op(&mut self, op_id: &str)
        ensures
            final(self)@ == old(self)@.without_op(op_id@),
    {
        self.ops.remove(op_id);
    }

    /// Files `record` against its operation.
    pub fn file_contest(&mut self, record: ContestRecord)
        ensures
            final(self)@ == old(self)@.with_contest(record),
    {
        let key = record.op_id.clone();
        self.contests.insert(key, record);
    }

    /// Drops the operation `op_id` and any contest filed against it.
    pub fn cancel(&mut self, op_id: &str)
        ensures
            final(self)@ == old(self)@.cancelled(op_id@),
    {
        self.ops.remove(op_id);
        if self.contests.contains_key(op_id) {
            self.contests.remove(op_id);
        }
        proof {
            assert(self.contests@ =~= old(self).contests@.remove(op_id@));
        }
    }
}


/// An operation with a contest on file never runs.
pub proof fn lemma_contested_never_runs<A>(t: TimelockState<A>, record: ContestRecord, now: u64)
    ensures
        t.with_contest(record).execution_refusal(record.op_id@, now) is Some,
{
}

/// A cancelled operation can neither run nor be contested.
pub proof fn lemma_cancelled_is_gone<A>(t: TimelockState<A>, op_id: Seq<char>, now: u64)
    ensures
        t.cancelled(op_id).execution_refusal(op_id, now) == Some(TimelockRefusal::OpNotFound),
        t.cancelled(op_id).contest_refusal(op_id, now) == Some(TimelockRefusal::OpNotFound),
{
}

/// The contest window and the execution window never meet: at any moment
/// an operation may be contested, or run, or neither, but not both.
pub proof fn lemma_windows_disjoint<A>(t: TimelockState<A>, op_id: Seq<char>, now: u64)
    ensures
        !(t.contest_refusal(op_id, now) is None && t.execution_refusal(op_id, now) is None),
{
}

} // verus!
