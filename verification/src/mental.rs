//! What an agent wants: goals with priorities, the queue that schedules
//! them, and the small memory an agent keeps of how its goals ended.

use vstd::prelude::*;

use crate::gametime::Time;
use crate::position::Ps;

verus! {

/// The priority that stands for "no goal at all".
pub const MIN_PRIORITY: i32 = -1000;

pub const PRIORITY_ELEVATED: i32 = 5;

pub const PRIORITY_BASE: i32 = 1;

pub const PRIORITY_BASE_LOW: i32 = 0;

pub const PRIORITY_BASE_LOWES: i32 = -1;

pub const PRIORITY_HIGH: i32 = 10;

pub const PRIORITY_LOW_NEED: i32 = 3;

pub const PRIORITY_MEDIUM_NEED: i32 = 5;

pub const PRIORITY_HIGH_NEED: i32 = 11;

pub const PRIORITY_DANGER: i32 = 100;

pub const PRIORITY_UNEVITABLE: i32 = 150;

/// How the goal that an agent worked on in a tick ended.
#[derive(Debug, Copy, Clone, PartialEq, Eq, Structural)]
pub enum IntentionCompleted {
    /// The goal was reached and left the queue.
    Success,
    /// The goal could not be reached and left the queue.
    Failure,
    /// The goal is still being worked on.
    Pending,
    /// The agent had no goal.
    Undefined,
}

/// Something an agent noticed.
#[derive(Debug, Clone)]
pub struct MemoryEvent {
    pub name: String,
}

/// The kinds of goal. An item type is a tag such as `"bone"`.
#[derive(Debug, Clone, Copy)]
pub enum IntentionClass {
    /// Walk to a cell next to the given one.
    MoveToDestination(Ps),
    /// Walk onto the given cell.
    MoveToPs(Ps),
    /// Wait for that many think ticks.
    WaitCycles(isize),
    PickItemOfType(&'static str),
    ConsumeItemOfType(&'static str),
    ConsumeAnyItem,
    PickAnyItem,
    DropCarriedItemOfType(&'static str),
    DropAnyCarriedItem,
    ConsumeCarriedItemOfType(&'static str),
    ConsumeAnyCarriedItem,
    /// Use the interactive object on the agent's cell for that many
    /// simulated minutes.
    UseInteractiveMinutes(isize),
}

/// A goal together with its priority; the higher priority wins.
#[derive(Debug, Clone, Copy)]
pub struct Intention {
    pub priority: i32,
    pub value: IntentionClass,
}

impl Intention {
    pub fn new(priority: i32, value: IntentionClass) -> (r: Intention)
        ensures
            r.priority == priority,
            r.value == value,
    {
        Intention { priority, value }
    }
}

/// The place at which a goal of priority `priority` joins `backlog`: behind
/// every goal whose priority is at least as high, before the first lower one.
pub open spec fn slot_for(backlog: Seq<Intention>, priority: int) -> int
    decreases backlog.len(),
{
    if backlog.len() == 0 || backlog[0].priority < priority {
        0
    } else {
        1 + slot_for(backlog.drop_first(), priority)
    }
}

/// `backlog` runs from the highest priority to the lowest.
pub open spec fn descending(backlog: Seq<Intention>) -> bool {
    forall|i: int, j: int|
        0 <= i <= j < backlog.len() ==> (#[trigger] backlog[i]).priority >= (
        #[trigger] backlog[j]).priority
}

/// `backlog` with `goal` waiting in its place.
pub open spec fn enqueued(backlog: Seq<Intention>, goal: Intention) -> Seq<Intention> {
    backlog.insert(slot_for(backlog, goal.priority as int), goal)
}

/// The slot lies within the backlog; the goals before it are at least as
/// urgent as `priority`, and the goal at the slot, if there is one, is less
/// urgent.
pub proof fn lemma_slot_for(backlog: Seq<Intention>, priority: int)
    ensures
        0 <= slot_for(backlog, priority) <= backlog.len(),
        forall|j: int|
            0 <= j < slot_for(backlog, priority) ==> (#[trigger] backlog[j]).priority >= priority,
        slot_for(backlog, priority) < backlog.len() ==> backlog[slot_for(
            backlog,
            priority,
        )].priority < priority,
    decreases backlog.len(),
{
    if backlog.len() == 0 || backlog[0].priority < priority {
    } else {
        let rest = backlog.drop_first();
        lemma_slot_for(rest, priority);
        assert forall|j: int| 0 <= j < slot_for(backlog, priority) implies (
        #[trigger] backlog[j]).priority >= priority by {
            if j > 0 {
                assert(backlog[j] == rest[j - 1]);
            }
        }
        if slot_for(backlog, priority) < backlog.len() {
            assert(backlog[slot_for(backlog, priority)] == rest[slot_for(rest, priority)]);
        }
    }
}

/// The slot is the only place with the two properties of `lemma_slot_for`.
pub proof fn lemma_slot_is(backlog: Seq<Intention>, priority: int, k: int)
    requires
        0 <= k <= backlog.len(),
        forall|j: int| 0 <= j < k ==> (#[trigger] backlog[j]).priority >= priority,
        k < backlog.len() ==> backlog[k].priority < priority,
    ensures
        slot_for(backlog, priority) == k,
    decreases backlog.len(),
{
    if k == 0 {
    } else {
        let rest = backlog.drop_first();
        assert(backlog[0].priority >= priority);
        assert forall|j: int| 0 <= j < k - 1 implies (#[trigger] rest[j]).priority >= priority by {
            assert(rest[j] == backlog[j + 1]);
        }
        if k - 1 < rest.len() {
            assert(rest[k - 1] == backlog[k]);
        }
        lemma_slot_is(rest, priority, k - 1);
    }
}

/// Queueing a goal keeps a descending backlog descending.
pub proof fn lemma_enqueued_descending(backlog: Seq<Intention>, goal: Intention)
    requires
        descending(backlog),
    ensures
        descending(enqueued(backlog, goal)),
        enqueued(backlog, goal).len() == backlog.len() + 1,
{
    let k = slot_for(backlog, goal.priority as int);
    lemma_slot_for(backlog, goal.priority as int);
    let after = enqueued(backlog, goal);
    assert forall|i: int, j: int| 0 <= i <= j < after.len() implies (#[trigger] after[i]).priority
        >= (#[trigger] after[j]).priority by {
        let pi = if i < k {
            backlog[i]
        } else if i == k {
            goal
        } else {
            backlog[i - 1]
        };
        let pj = if j < k {
            backlog[j]
        } else if j == k {
            goal
        } else {
            backlog[j - 1]
        };
        assert(after[i] == pi);
        assert(after[j] == pj);
        if i < k && j > k {
            assert(backlog[i].priority >= backlog[j - 1].priority);
        }
        if i == k && j > k {
            assert(backlog[k].priority >= backlog[j - 1].priority);
        }
        if i > k {
            assert(backlog[i - 1].priority >= backlog[j - 1].priority);
        }
    }
}

/// Of two goals of the same priority, the one queued first waits in front of
/// the one queued second: equal priorities are served in order of arrival.
pub proof fn lemma_equal_priorities_keep_arrival_order(
    backlog: Seq<Intention>,
    first: Intention,
    second: Intention,
)
    requires
        descending(backlog),
        first.priority == second.priority,
    ensures
        ({
            let k = slot_for(backlog, first.priority as int);
            let both = enqueued(enqueued(backlog, first), second);
            &&& both[k] == first
            &&& both[k + 1] == second
        }),
{
    let p = first.priority as int;
    let k = slot_for(backlog, p);
    lemma_slot_for(backlog, p);
    let one = enqueued(backlog, first);
    assert forall|j: int| 0 <= j < k + 1 implies (#[trigger] one[j]).priority >= p by {
        if j < k {
            assert(one[j] == backlog[j]);
        }
    }
    if k + 1 < one.len() {
        assert(one[k + 1] == backlog[k]);
    }
    lemma_slot_is(one, p, k + 1);
}

/// The goal queue as a value: the goal being worked on and the goals that
/// wait, most urgent first.
pub struct CortexView {
    pub current: Option<Intention>,
    pub backlog: Seq<Intention>,
}

impl CortexView {
    /// The queue's invariant: the backlog is descending, nothing in it is
    /// more urgent than the current goal, and goals only wait while there is
    /// a current goal.
    pub open spec fn ordered(self) -> bool {
        &&& descending(self.backlog)
        &&& match self.current {
            Some(current) => forall|i: int|
                0 <= i < self.backlog.len() ==> current.priority >= (
                #[trigger] self.backlog[i]).priority,
            None => self.backlog.len() == 0,
        }
    }

    /// The queue after `goal` was announced: a goal more urgent than the
    /// current one takes its place and sends it to the backlog; any other
    /// goal joins the backlog.
    pub open spec fn intended(self, goal: Intention) -> CortexView {
        match self.current {
            None => CortexView { current: Some(goal), backlog: self.backlog },
            Some(current) => if current.priority < goal.priority {
                CortexView { current: Some(goal), backlog: enqueued(self.backlog, current) }
            } else {
                CortexView { current: Some(current), backlog: enqueued(self.backlog, goal) }
            },
        }
    }

    /// The queue after every goal of `goals` was announced, in order.
    pub open spec fn intended_all(self, goals: Seq<Intention>) -> CortexView
        decreases goals.len(),
    {
        if goals.len() == 0 {
            self
        } else {
            self.intended(goals[0]).intended_all(goals.drop_first())
        }
    }

    /// The queue after the current goal was dropped: the first goal of the
    /// backlog becomes the current one. A queue without a current goal stays
    /// as it is.
    pub open spec fn finished(self) -> CortexView {
        if self.current is None {
            self
        } else if self.backlog.len() == 0 {
            CortexView { current: None, backlog: self.backlog }
        } else {
            CortexView { current: Some(self.backlog[0]), backlog: self.backlog.drop_first() }
        }
    }

    /// The number of goals in the queue.
    pub open spec fn count(self) -> nat {
        if self.current is Some {
            self.backlog.len() + 1
        } else {
            self.backlog.len()
        }
    }

    /// The queue after current goals were dropped for as long as the current
    /// goal was less urgent than `priority`.
    pub open spec fn cleared_lower_than(self, priority: i32) -> CortexView
        decreases self.count(),
    {
        match self.current {
            Some(current) if current.priority < priority => self.finished().cleared_lower_than(
                priority,
            ),
            _ => self,
        }
    }

    /// The priority of the most urgent goal, or `MIN_PRIORITY` without one.
    pub open spec fn top_priority(self) -> i32 {
        match self.current {
            Some(current) => current.priority,
            None => if self.backlog.len() > 0 {
                self.backlog[0].priority
            } else {
                MIN_PRIORITY
            },
        }
    }

    /// Announcing a goal keeps the invariant: afterwards the current goal
    /// is still at least as urgent as every goal that waits.
    pub proof fn lemma_intended_ordered(self, goal: Intention)
        requires
            self.ordered(),
        ensures
            self.intended(goal).ordered(),
    {
        match self.current {
            None => {},
            Some(current) => {
                let joins = if current.priority < goal.priority {
                    current
                } else {
                    goal
                };
                let leads = if current.priority < goal.priority {
                    goal
                } else {
                    current
                };
                lemma_enqueued_descending(self.backlog, joins);
                lemma_slot_for(self.backlog, joins.priority as int);
                let k = slot_for(self.backlog, joins.priority as int);
                let after = enqueued(self.backlog, joins);
                assert forall|i: int| 0 <= i < after.len() implies leads.priority >= (
                #[trigger] after[i]).priority by {
                    if i < k {
                        assert(after[i] == self.backlog[i]);
                    } else if i > k {
                        assert(after[i] == self.backlog[i - 1]);
                    }
                }
            },
        }
    }

    /// Whatever goals are announced, and in whatever order, the current goal
    /// ends up at least as urgent as every goal in the backlog.
    pub proof fn lemma_intended_all_ordered(self, goals: Seq<Intention>)
        requires
            self.ordered(),
        ensures
            self.intended_all(goals).ordered(),
        decreases goals.len(),
    {
        if goals.len() > 0 {
            self.lemma_intended_ordered(goals[0]);
            self.intended(goals[0]).lemma_intended_all_ordered(goals.drop_first());
        }
    }

    /// Dropping the current goal keeps the invariant and promotes the goal
    /// that is most urgent among those waiting; among equally urgent ones,
    /// the one that waits in front, which is the one announced first.
    pub proof fn lemma_finished_promotes_front(self)
        requires
            self.ordered(),
        ensures
            self.finished().ordered(),
            self.current is None ==> self.finished() == self,
            self.current is Some && self.backlog.len() == 0 ==> self.finished().current is None,
            self.current is Some && self.backlog.len() > 0 ==> {
                &&& self.finished().current == Some(self.backlog[0])
                &&& self.finished().backlog == self.backlog.drop_first()
                &&& forall|i: int|
                    0 <= i < self.backlog.len() ==> self.backlog[0].priority >= (
                    #[trigger] self.backlog[i]).priority
            },
    {
        if self.current is Some && self.backlog.len() > 0 {
            let rest = self.backlog.drop_first();
            assert forall|i: int, j: int| 0 <= i <= j < rest.len() implies (
            #[trigger] rest[i]).priority >= (#[trigger] rest[j]).priority by {
                assert(rest[i] == self.backlog[i + 1]);
                assert(rest[j] == self.backlog[j + 1]);
            }
            assert forall|i: int| 0 <= i < rest.len() implies self.backlog[0].priority >= (
            #[trigger] rest[i]).priority by {
                assert(rest[i] == self.backlog[i + 1]);
            }
        }
    }

    /// Clearing keeps the invariant, and leaves no current goal that is less
    /// urgent than `priority`.
    pub proof fn lemma_cleared_ordered(self, priority: i32)
        requires
            self.ordered(),
        ensures
            self.cleared_lower_than(priority).ordered(),
            self.cleared_lower_than(priority).current matches Some(current) ==> current.priority
                >= priority,
        decreases self.count(),
    {
        match self.current {
            Some(current) if current.priority < priority => {
                self.lemma_finished_promotes_front();
                self.finished().lemma_cleared_ordered(priority);
            },
            _ => {},
        }
    }
}

/// The goal queue of one agent: the goal it works on and a backlog of goals
/// that wait, most urgent first, equally urgent ones in order of arrival.
#[derive(Debug)]
pub struct IntentionsCortex {
    queue: Vec<Intention>,
    current: Option<Intention>,
}

impl View for IntentionsCortex {
    type V = CortexView;

    closed spec fn view(&self) -> CortexView {
        CortexView { current: self.current, backlog: self.queue@ }
    }
}

impl IntentionsCortex {
    /// The queue keeps its invariant.
    pub open spec fn wf(&self) -> bool {
        self@.ordered()
    }

    pub fn new() -> (r: IntentionsCortex)
        ensures
            r@.current is None,
            r@.backlog.len() == 0,
            r.wf(),
    {
        IntentionsCortex { queue: Vec::new(), current: None }
    }

    /// The number of goals, the current one included.
    pub fn intentions_left(&self) -> (r: usize)
        requires
            self@.backlog.len() < usize::MAX,
        ensures
            r == self@.count(),
    {
        let mut intentions_counter: usize = self.queue.len();
        if self.current.is_some() {
            intentions_counter += 1
        }
        intentions_counter
    }

    /// Whether the queue holds no goal at all.
    pub fn is_idle(&self) -> (r: bool)
        ensures
            r == (self@.count() == 0),
    {
        self.queue.len() == 0 && self.current.is_none()
    }

    /// Drops current goals until the current goal is at least as urgent as
    /// `priority`, or none is left.
    pub fn clear_lower_than(&mut self, priority: i32)
        requires
            old(self).wf(),
        ensures
            final(self)@ == old(self)@.cleared_lower_than(priority),
            final(self).wf(),
            final(self)@.current matches Some(current) ==> current.priority >= priority,
    {
        proof {
            self@.lemma_cleared_ordered(priority);
        }
        loop
            invariant
                self.wf(),
                self@.cleared_lower_than(priority) == old(self)@.cleared_lower_than(priority),
            ensures
                self@ == old(self)@.cleared_lower_than(priority),
            decreases self@.count(),
        {
            match self.current {
                Some(intention) => {
                    if intention.priority >= priority {
                        break ;
                    }
                },
                None => {
                    break ;
                },
            }
            proof {
                self@.lemma_finished_promotes_front();
            }
            self.finish_current();
        }
    }

    /// Forgets every goal.
    pub fn clear_all(&mut self)
        ensures
            final(self)@.current is None,
            final(self)@.backlog.len() == 0,
            final(self).wf(),
    {
        self.current = None;
        self.queue.clear();
    }

    /// Puts `i` into the backlog, behind the goals that are at least as
    /// urgent and before those that are less urgent.
    pub fn enq(&mut self, i: Intention)
        ensures
            final(self)@.current == old(self)@.current,
            final(self)@.backlog == enqueued(old(self)@.backlog, i),
    {
        let mut slot: usize = 0;
        while slot < self.queue.len() && self.queue[slot].priority >= i.priority
            invariant
                slot <= self.queue.len(),
                self.queue@ == old(self).queue@,
                self.current == old(self).current,
                forall|j: int| 0 <= j < slot ==> (#[trigger] self.queue[j]).priority >= i.priority,
            decreases self.queue.len() - slot,
        {
            slot += 1;
        }
        proof {
            lemma_slot_is(self.queue@, i.priority as int, slot as int);
        }
        self.queue.insert(slot, i);
    }

    /// Takes the first goal out of the backlog.
    pub fn dequeue(&mut self) -> (r: Option<Intention>)
        ensures
            final(self)@.current == old(self)@.current,
            old(self)@.backlog.len() == 0 ==> r is None
                && final(self)@.backlog == old(self)@.backlog,
            old(self)@.backlog.len() > 0 ==> r == Some(old(self)@.backlog[0])
                && final(self)@.backlog == old(self)@.backlog.drop_first(),
    {
        if !self.queue.is_empty() {
            let first = self.queue.remove(0);
            assert(self.queue@ =~= old(self).queue@.drop_first());
            Some(first)
        } else {
            None
        }
    }

    /// The priority of the most urgent goal in the backlog.
    pub fn max_priority_in_q(&self) -> (r: Option<i32>)
        requires
            self.wf(),
        ensures
            self@.backlog.len() == 0 <==> r is None,
            r matches Some(top) ==> top == self@.backlog[0].priority && forall|i: int|
                0 <= i < self@.backlog.len() ==> top >= (#[trigger] self@.backlog[i]).priority,
    {
        if self.queue.is_empty() {
            None
        } else {
            Some(self.queue[0].priority)
        }
    }

    /// The priority of the most urgent goal in the queue, which in a
    /// well-formed queue is the current goal; `MIN_PRIORITY` for an empty
    /// queue.
    pub fn max_priority(&self) -> (r: i32)
        requires
            self.wf(),
        ensures
            r == self@.top_priority(),
            self@.current matches Some(current) ==> r == current.priority,
            self@.current is None ==> r == MIN_PRIORITY,
            forall|i: int| 0 <= i < self@.backlog.len()
                ==> r >= (#[trigger] self@.backlog[i]).priority,
    {
        match self.current {
            Some(current) => current.priority,
            None => match self.max_priority_in_q() {
                Some(top) => top,
                None => MIN_PRIORITY,
            },
        }
    }

    pub fn get_current(&self) -> (r: &Option<Intention>)
        ensures
            *r == self@.current,
    {
        &self.current
    }

    /// Drops the current goal and promotes the first goal of the backlog.
    /// Returns `false`, and changes nothing, where there is no current goal.
    pub fn finish_current(&mut self) -> (r: bool)
        ensures
            r == old(self)@.current is Some,
            final(self)@ == old(self)@.finished(),
            old(self).wf() ==> final(self).wf(),
    {
        proof {
            if self.wf() {
                self@.lemma_finished_promotes_front();
            }
        }
        if self.current.is_none() {
            false
        } else {
            self.current = self.dequeue();
            true
        }
    }

    /// Announces a goal. It becomes the current goal where there is none or
    /// where it is more urgent than the current one, which then waits in the
    /// backlog; else it waits in the backlog itself.
    pub fn intend(&mut self, i: Intention)
        ensures
            final(self)@ == old(self)@.intended(i),
            old(self).wf() ==> final(self).wf(),
            final(self)@.current is Some,
    {
        proof {
            if self.wf() {
                self@.lemma_intended_ordered(i);
            }
        }
        match self.current {
            Some(current) => {
                if current.priority < i.priority {
                    self.enq(current);
                    self.current = Some(i);
                } else {
                    self.enq(i)
                }
            },
            None => {
                self.current = Some(i)
            },
        }
    }
}

/// What an agent remembers of its last goals.
#[derive(Debug)]
pub struct Memory {
    pub events: Vec<MemoryEvent>,
    pub last_intention: Option<IntentionClass>,
    pub last_intention_failed: Option<IntentionClass>,
    pub last_intention_success: Option<IntentionClass>,
    pub last_intention_result: Option<bool>,
    /// How many goals in a row have failed; it stops counting at `i32::MAX`.
    pub cont_fail_counter: i32,
}

impl Memory {
    /// The memory holds nothing yet.
    pub open spec fn blank(&self) -> bool {
        &&& self.events@.len() == 0
        &&& self.last_intention is None
        &&& self.last_intention_failed is None
        &&& self.last_intention_success is None
        &&& self.last_intention_result is None
        &&& self.cont_fail_counter == 0
    }

    pub fn new() -> (r: Memory)
        ensures
            r.blank(),
    {
        Memory {
            events: Vec::new(),
            last_intention: None,
            last_intention_failed: None,
            last_intention_success: None,
            last_intention_result: None,
            cont_fail_counter: 0,
        }
    }

    /// The memory after it was noted that the goal `intention` ended with
    /// `success`.
    pub open spec fn noted(self, intention: IntentionClass, success: bool) -> Memory {
        if success {
            Memory {
                last_intention: Some(intention),
                last_intention_success: Some(intention),
                last_intention_result: Some(true),
                cont_fail_counter: 0,
                ..self
            }
        } else {
            Memory {
                last_intention: Some(intention),
                last_intention_failed: Some(intention),
                last_intention_result: Some(false),
                cont_fail_counter: if self.cont_fail_counter < i32::MAX {
                    (self.cont_fail_counter + 1) as i32
                } else {
                    i32::MAX
                },
                ..self
            }
        }
    }

    pub fn recall_all(&self) -> (r: &Vec<MemoryEvent>)
        ensures
            r == &self.events,
    {
        &self.events
    }
}

/// The deciding part of an agent: its goal queue, its memory, the counter
/// of a running wait and the clock reading it last saved.
#[derive(Debug)]
pub struct Brains {
    pub cycles_counter: isize,
    pub mem: Memory,
    pub intentions: IntentionsCortex,
    pub time_reference: Time,
}

impl Brains {
    /// The invariant of the parts: an ordered goal queue and a well-formed
    /// saved clock reading.
    pub open spec fn wf(&self) -> bool {
        self.intentions.wf() && self.time_reference.wf()
    }

    /// The mind of an agent that was just made: no goal, no wait, a blank
    /// memory, and the clock's zero as the saved reading.
    pub open spec fn blank(&self) -> bool {
        &&& self.cycles_counter == 0
        &&& self.mem.blank()
        &&& self.intentions@.current is None
        &&& self.intentions@.backlog.len() == 0
        &&& self.time_reference == (Time { days: 0, hours: 0, minutes: 0, fraction: 0, speed: 10 })
    }

    pub fn new() -> (r: Brains)
        ensures
            r.wf(),
            r.blank(),
    {
        Brains {
            mem: Memory::new(),
            intentions: IntentionsCortex::new(),
            cycles_counter: 0,
            time_reference: Time::new_zero(),
        }
    }

    /// Notes how the goal `intention` ended. A success resets the count of
    /// failures in a row, a failure adds one to it.
    pub fn remember_intention_result(&mut self, intention: IntentionClass, success: bool)
        ensures
            *final(self) == (Brains { mem: old(self).mem.noted(intention, success), ..*old(self) }),
    {
        self.mem.last_intention = Some(intention);
        if success {
            self.mem.last_intention_success = Some(intention);
            self.mem.cont_fail_counter = 0
        } else {
            self.mem.last_intention_failed = Some(intention);
            if self.mem.cont_fail_counter < i32::MAX {
                self.mem.cont_fail_counter += 1
            }
        }
        self.mem.last_intention_result = Some(success);
    }

    /// Starts a wait of `cycles` think ticks.
    pub fn init_cycles_counter(&mut self, cycles: isize)
        ensures
            *final(self) == (Brains { cycles_counter: cycles, ..*old(self) }),
    {
        self.cycles_counter = cycles
    }

    /// Lets one think tick of a wait pass. Returns `true` once the wait is
    /// over; until then it counts down and returns `false`.
    pub fn count_cycles(&mut self) -> (r: bool)
        ensures
            r == (old(self).cycles_counter <= 0),
            r ==> *final(self) == *old(self),
            !r ==> *final(self) == (Brains {
                cycles_counter: (old(self).cycles_counter - 1) as isize,
                ..*old(self)
            }),
    {
        if self.cycles_counter <= 0 {
            return true;
        }
        self.cycles_counter -= 1;
        false
    }

    /// Announces a wait of `cycles` think ticks with the given priority and
    /// starts its counter.
    pub fn intend_cycles_count(&mut self, cycles: isize, priority: i32)
        ensures
            final(self).intentions@ == old(self).intentions@.intended(
                Intention { priority, value: IntentionClass::WaitCycles(cycles) },
            ),
            old(self).wf() ==> final(self).wf(),
            final(self).cycles_counter == cycles,
            final(self).mem == old(self).mem,
            final(self).time_reference == old(self).time_reference,
    {
        self.intentions.intend(Intention::new(priority, IntentionClass::WaitCycles(cycles)));
        self.init_cycles_counter(cycles)
    }

    /// Saves the clock reading `time`, without its begun minute.
    pub fn save_time(&mut self, time: &Time)
        ensures
            *final(self) == (Brains { time_reference: time.snapshot_value(), ..*old(self) }),
    {
        self.time_reference = time.snapshot()
    }
}

} // verus!
