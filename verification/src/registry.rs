//! The task registry: which connection slots exist and what each one holds.

use crate::task::{ConnectionError, ConnectionTask, TaskState, TaskView};
use vstd::prelude::*;

verus! {

/// What a slot holds: the task of a connection attempt that is under way, or
/// the channel that such an attempt produced. It never holds both.
pub enum Slot<C> {
    Pending(ConnectionTask<C>),
    Live(C),
}

/// The model of a slot that contracts speak of.
pub enum SlotView<C> {
    Pending(TaskView<C>),
    Live(C),
}

impl<C> View for Slot<C> {
    type V = SlotView<C>;

    open spec fn view(&self) -> SlotView<C> {
        match self {
            Slot::Pending(task) => SlotView::Pending(task@),
            Slot::Live(channel) => SlotView::Live(*channel),
        }
    }
}

/// What an observer can tell of a slot.
#[derive(Debug, Clone, Copy, PartialEq, Eq, Structural)]
pub enum SlotStatus {
    /// No such slot: never created, or discarded after a failed attempt.
    Absent,
    /// The connection attempt is under way.
    Pending,
    /// The channel is installed.
    Live,
}

/// What a tick reports of a task that resolved.
#[derive(Debug, PartialEq, Eq)]
pub enum TaskEvent {
    /// The attempt succeeded and the channel was installed in the slot.
    Connected { slot: u64 },
    /// The attempt failed and the slot was discarded.
    Failed { slot: u64, error: ConnectionError },
}

/// What can happen to a registry.
pub enum RegistryEvent<C> {
    /// A connection to `endpoint` is asked for.
    Trigger { endpoint: Seq<char> },
    /// The handshake of the slot reports its result.
    Complete { slot: u64, result: Result<C, ConnectionError> },
    /// The pending tasks are polled.
    Tick,
}

/// Whether a slot is stored under `id`.
pub open spec fn has_slot<C>(slots: Seq<(u64, SlotView<C>)>, id: u64) -> bool {
    exists|i: int| 0 <= i < slots.len() && (#[trigger] slots[i]).0 == id
}

/// Where the slot `id` stands in the sequence, if it is stored.
pub open spec fn position<C>(slots: Seq<(u64, SlotView<C>)>, id: u64) -> int {
    choose|i: int| 0 <= i < slots.len() && (#[trigger] slots[i]).0 == id
}

/// The slot stored under `id`, if there is one.
pub open spec fn slot_of<C>(slots: Seq<(u64, SlotView<C>)>, id: u64) -> Option<SlotView<C>> {
    if has_slot(slots, id) {
        Some(slots[position(slots, id)].1)
    } else {
        None
    }
}

/// The status that goes with the contents of a slot.
pub open spec fn status_of<C>(slot: Option<SlotView<C>>) -> SlotStatus {
    match slot {
        None => SlotStatus::Absent,
        Some(SlotView::Pending(_)) => SlotStatus::Pending,
        Some(SlotView::Live(_)) => SlotStatus::Live,
    }
}

/// The identifiers grow along the sequence and stay below `bound`.
pub open spec fn ascending<C>(slots: Seq<(u64, SlotView<C>)>, bound: nat) -> bool {
    &&& forall|i: int, j: int| 0 <= i < j < slots.len() ==> slots[i].0 < slots[j].0
    &&& forall|i: int| 0 <= i < slots.len() ==> (#[trigger] slots[i]).0 < bound
}

/// A slot as `trigger` creates it: pending, with a task that has not reported.
pub open spec fn fresh<C>(endpoint: Seq<char>) -> SlotView<C> {
    SlotView::Pending(TaskView { endpoint, state: TaskState::Working })
}

/// What a tick makes of one slot: a pending slot whose task has succeeded
/// becomes live, one whose task has failed is discarded, and every other slot
/// stays as it is.
pub open spec fn promoted<C>(entry: (u64, SlotView<C>)) -> Option<(u64, SlotView<C>)> {
    match entry.1 {
        SlotView::Pending(task) => match task.state {
            TaskState::Finished(Ok(channel)) => Some((entry.0, SlotView::Live(channel))),
            TaskState::Finished(Err(_)) => None,
            _ => Some(entry),
        },
        SlotView::Live(_) => Some(entry),
    }
}

/// What a tick reports of one slot: something for a pending slot whose task
/// has a result, nothing for any other.
pub open spec fn resolution<C>(entry: (u64, SlotView<C>)) -> Option<TaskEvent> {
    match entry.1 {
        SlotView::Pending(task) => match task.state {
            TaskState::Finished(Ok(_)) => Some(TaskEvent::Connected { slot: entry.0 }),
            TaskState::Finished(Err(error)) => Some(TaskEvent::Failed { slot: entry.0, error }),
            _ => None,
        },
        SlotView::Live(_) => None,
    }
}

/// The identifier of a live slot, nothing for a pending one.
pub open spec fn live_id<C>(entry: (u64, SlotView<C>)) -> Option<u64> {
    match entry.1 {
        SlotView::Live(_) => Some(entry.0),
        SlotView::Pending(_) => None,
    }
}

/// `promoted`, as a function value.
pub open spec fn promotion<C>() -> spec_fn((u64, SlotView<C>)) -> Option<(u64, SlotView<C>)> {
    |entry: (u64, SlotView<C>)| promoted(entry)
}

/// `resolution`, as a function value.
pub open spec fn reporting<C>() -> spec_fn((u64, SlotView<C>)) -> Option<TaskEvent> {
    |entry: (u64, SlotView<C>)| resolution(entry)
}

/// `live_id`, as a function value.
pub open spec fn live_ids<C>() -> spec_fn((u64, SlotView<C>)) -> Option<u64> {
    |entry: (u64, SlotView<C>)| live_id(entry)
}

/// The model of a registry that contracts speak of: its slots in the order
/// of their creation, each with its identifier, and the identifier that the
/// next slot will get.
pub struct RegistryView<C> {
    pub slots: Seq<(u64, SlotView<C>)>,
    pub next_slot: nat,
}

impl<C> RegistryView<C> {
    /// Identifiers grow with the order of creation, so that none occurs
    /// twice, and all of them are below the next one to be given out.
    pub open spec fn wf(self) -> bool {
        &&& ascending(self.slots, self.next_slot)
        &&& self.next_slot <= u64::MAX
    }

    /// What the slot `id` holds.
    pub open spec fn slot(self, id: u64) -> Option<SlotView<C>> {
        slot_of(self.slots, id)
    }

    /// The registry without slots.
    pub open spec fn empty() -> Self {
        RegistryView { slots: Seq::empty(), next_slot: 0 }
    }

    /// Whether an identifier is left for another slot.
    pub open spec fn has_room(self) -> bool {
        self.next_slot < u64::MAX
    }

    /// The registry after a trigger: one more slot, pending, at the end;
    /// or the same registry, where no identifier is left.
    pub open spec fn trigger(self, endpoint: Seq<char>) -> Self {
        if self.has_room() {
            RegistryView {
                slots: self.slots.push((self.next_slot as u64, fresh(endpoint))),
                next_slot: self.next_slot + 1,
            }
        } else {
            self
        }
    }

    /// Whether the slot `id` can take the result of its handshake: it is
    /// pending, and its task has not reported yet.
    pub open spec fn accepts(self, id: u64) -> bool {
        self.slot(id) matches Some(SlotView::Pending(task)) && task.state is Working
    }

    /// The registry after the handshake of the slot `id` has reported
    /// `result`: the task of the slot holds the result, where the slot
    /// accepts one; nothing has changed, where it does not.
    pub open spec fn complete(self, id: u64, result: Result<C, ConnectionError>) -> Self {
        if self.accepts(id) {
            let endpoint = self.slot(id)->Some_0->Pending_0.endpoint;
            let task = TaskView { endpoint, state: TaskState::Finished(result) };
            RegistryView {
                slots: self.slots.update(position(self.slots, id), (id, SlotView::Pending(task))),
                next_slot: self.next_slot,
            }
        } else {
            self
        }
    }

    /// The registry after a tick: each slot is what `promoted` makes of it.
    pub open spec fn tick(self) -> Self {
        RegistryView { slots: self.slots.filter_map(promotion()), next_slot: self.next_slot }
    }

    /// The registry after one event.
    pub open spec fn step(self, event: RegistryEvent<C>) -> Self {
        match event {
            RegistryEvent::Trigger { endpoint } => self.trigger(endpoint),
            RegistryEvent::Complete { slot, result } => self.complete(slot, result),
            RegistryEvent::Tick => self.tick(),
        }
    }

    /// The registry after a sequence of events, the first one first.
    pub open spec fn run(self, events: Seq<RegistryEvent<C>>) -> Self
        decreases events.len(),
    {
        if events.len() == 0 {
            self
        } else {
            self.run(events.drop_last()).step(events.last())
        }
    }

    /// The registry that a sequence of events leads to from the empty one.
    pub open spec fn reached(events: Seq<RegistryEvent<C>>) -> Self {
        Self::empty().run(events)
    }
}

/// In a sequence with growing identifiers, a slot is found where it stands.
pub proof fn lemma_slot_at<C>(slots: Seq<(u64, SlotView<C>)>, bound: nat, i: int)
    requires
        ascending(slots, bound),
        0 <= i < slots.len(),
    ensures
        has_slot(slots, slots[i].0),
        position(slots, slots[i].0) == i,
        slot_of(slots, slots[i].0) == Some(slots[i].1),
{
    let id = slots[i].0;
    assert(has_slot(slots, id));
    let k = position(slots, id);
    if k < i {
        assert(slots[k].0 < slots[i].0);
    } else if i < k {
        assert(slots[i].0 < slots[k].0);
    }
}

/// Looking up a slot after one more was appended under a larger identifier.
pub proof fn lemma_slot_of_push<C>(
    slots: Seq<(u64, SlotView<C>)>,
    entry: (u64, SlotView<C>),
    bound: nat,
    id: u64,
)
    requires
        ascending(slots, bound),
        forall|i: int| 0 <= i < slots.len() ==> (#[trigger] slots[i]).0 < entry.0,
    ensures
        slot_of(slots.push(entry), id) == if id == entry.0 {
            Some(entry.1)
        } else {
            slot_of(slots, id)
        },
{
    let longer = slots.push(entry);
    assert(ascending(longer, (entry.0 + 1) as nat));
    if id == entry.0 {
        lemma_slot_at(longer, (entry.0 + 1) as nat, slots.len() as int);
    } else if has_slot(slots, id) {
        let k = position(slots, id);
        assert(longer[k] == slots[k]);
        lemma_slot_at(longer, (entry.0 + 1) as nat, k);
    } else {
        if has_slot(longer, id) {
            let j = position(longer, id);
            assert(slots[j].0 == id);
        }
    }
}

/// Looking up a slot after the contents of one slot were replaced.
pub proof fn lemma_slot_of_update<C>(
    slots: Seq<(u64, SlotView<C>)>,
    bound: nat,
    i: int,
    contents: SlotView<C>,
    id: u64,
)
    requires
        ascending(slots, bound),
        0 <= i < slots.len(),
    ensures
        ascending(slots.update(i, (slots[i].0, contents)), bound),
        slot_of(slots.update(i, (slots[i].0, contents)), id) == if id == slots[i].0 {
            Some(contents)
        } else {
            slot_of(slots, id)
        },
{
    let changed = slots.update(i, (slots[i].0, contents));
    assert(ascending(changed, bound));
    if id == slots[i].0 {
        lemma_slot_at(changed, bound, i);
    } else if has_slot(slots, id) {
        let k = position(slots, id);
        assert(changed[k] == slots[k]);
        lemma_slot_at(changed, bound, k);
    } else {
        if has_slot(changed, id) {
            let j = position(changed, id);
            assert(slots[j].0 == id);
        }
    }
}

/// What a tick does to slots with growing identifiers: the identifiers still
/// grow, no slot appears, and each slot becomes what `promoted` makes of it.
pub proof fn lemma_promotion<C>(slots: Seq<(u64, SlotView<C>)>, bound: nat)
    requires
        ascending(slots, bound),
    ensures
        ascending(slots.filter_map(promotion()), bound),
        forall|i: int|
            0 <= i < slots.filter_map(promotion()).len() ==> has_slot(
                slots,
                (#[trigger] slots.filter_map(promotion())[i]).0,
            ),
        forall|id: u64|
            #[trigger] slot_of(slots.filter_map(promotion()), id) == match slot_of(slots, id) {
                Some(slot) => match promoted((id, slot)) {
                    Some(entry) => Some(entry.1),
                    None => None,
                },
                None => None,
            },
    decreases slots.len(),
{
    let after = slots.filter_map(promotion());
    if slots.len() == 0 {
        assert forall|id: u64| !has_slot(slots, id) && !has_slot(after, id) by {}
    } else {
        let rest = slots.drop_last();
        let last = slots.last();
        lemma_promotion(rest, bound);
        let rest_after = rest.filter_map(promotion());
        assert forall|i: int| 0 <= i < rest_after.len() implies (#[trigger] rest_after[i]).0
            < last.0 by {
            let id = rest_after[i].0;
            assert(has_slot(rest, id));
            let k = position(rest, id);
            assert(rest[k] == slots[k]);
        }
        assert forall|id: u64|
            #[trigger] slot_of(after, id) == match slot_of(slots, id) {
                Some(slot) => match promoted((id, slot)) {
                    Some(entry) => Some(entry.1),
                    None => None,
                },
                None => None,
            } by {
            lemma_slot_of_push(rest, last, bound, id);
            match promoted(last) {
                Some(entry) => {
                    assert(after == rest_after.push(entry));
                    assert(entry.0 == last.0);
                    lemma_slot_of_push(rest_after, entry, bound, id);
                },
                None => {
                    assert(after == rest_after);
                },
            }
            assert(slots == rest.push(last));
        }
        assert forall|i: int| 0 <= i < after.len() implies has_slot(
            slots,
            (#[trigger] after[i]).0,
        ) by {
            if i < rest_after.len() {
                let id = rest_after[i].0;
                let k = position(rest, id);
                assert(slots[k].0 == id);
            } else {
                assert(slots[slots.len() - 1].0 == after[i].0);
            }
        }
    }
}

/// A well-formed registry is well formed after any event.
pub proof fn lemma_step_keeps_wf<C>(registry: RegistryView<C>, event: RegistryEvent<C>)
    requires
        registry.wf(),
    ensures
        registry.step(event).wf(),
{
    match event {
        RegistryEvent::Trigger { endpoint } => {},
        RegistryEvent::Complete { slot, result } => {
            if registry.accepts(slot) {
                let i = position(registry.slots, slot);
                let endpoint = registry.slot(slot)->Some_0->Pending_0.endpoint;
                let task = TaskView { endpoint, state: TaskState::Finished(result) };
                lemma_slot_of_update(
                    registry.slots,
                    registry.next_slot,
                    i,
                    SlotView::Pending(task),
                    slot,
                );
            }
        },
        RegistryEvent::Tick => {
            lemma_promotion(registry.slots, registry.next_slot);
        },
    }
}

/// A well-formed registry is well formed after any sequence of events.
pub proof fn lemma_run_keeps_wf<C>(registry: RegistryView<C>, events: Seq<RegistryEvent<C>>)
    requires
        registry.wf(),
    ensures
        registry.run(events).wf(),
    decreases events.len(),
{
    if events.len() > 0 {
        lemma_run_keeps_wf(registry, events.drop_last());
        lemma_step_keeps_wf(registry.run(events.drop_last()), events.last());
    }
}

/// Whatever sequence of triggers, handshake results and ticks a registry
/// goes through from its empty start, no identifier ever stands for two
/// slots: what the registry holds under an identifier is one slot, which is
/// pending or live and never both.
pub proof fn lemma_slots_stay_apart<C>(events: Seq<RegistryEvent<C>>, i: int, j: int)
    requires
        0 <= i < RegistryView::reached(events).slots.len(),
        0 <= j < RegistryView::reached(events).slots.len(),
        RegistryView::reached(events).slots[i].0 == RegistryView::reached(events).slots[j].0,
    ensures
        i == j,
        RegistryView::reached(events).wf(),
        RegistryView::reached(events).slot(RegistryView::reached(events).slots[i].0) == Some(
            RegistryView::reached(events).slots[i].1,
        ),
{
    let reached = RegistryView::reached(events);
    lemma_run_keeps_wf(RegistryView::<C>::empty(), events);
    lemma_slot_at(reached.slots, reached.next_slot, i);
    lemma_slot_at(reached.slots, reached.next_slot, j);
}

spec fn deep<C>(entries: Seq<(u64, Slot<C>)>) -> Seq<(u64, SlotView<C>)> {
    entries.map_values(|entry: (u64, Slot<C>)| (entry.0, entry.1@))
}

/// The connection slots of one link, each under an identifier that is never
/// given out twice, in the order of their creation.
pub struct Registry<C> {
    entries: Vec<(u64, Slot<C>)>,
    next_id: u64,
}

impl<C> View for Registry<C> {
    type V = RegistryView<C>;

    closed spec fn view(&self) -> RegistryView<C> {
        RegistryView { slots: deep(self.entries@), next_slot: self.next_id as nat }
    }
}

impl<C> Registry<C> {
    /// The registry is well formed. `new` makes it so and every method keeps
    /// it so.
    pub open spec fn wf(&self) -> bool {
        self@.wf()
    }

    /// The place of the slot `id` among the entries.
    fn find(&self, id: u64) -> (out: Option<usize>)
        requires
            self.wf(),
        ensures
            match out {
                Some(i) => i < self.entries.len() && self.entries[i as int].0 == id && has_slot(
                    self@.slots,
                    id,
                ) && position(self@.slots, id) == i,
                None => !has_slot(self@.slots, id),
            },
    {
        let mut i: usize = 0;
        while i < self.entries.len()
            invariant
                self.wf(),
                i <= self.entries.len(),
                forall|k: int| 0 <= k < i ==> self.entries[k].0 != id,
            decreases self.entries.len() - i,
        {
            if self.entries[i].0 == id {
                assert(self@.slots[i as int].0 == id);
                proof {
                    lemma_slot_at(self@.slots, self@.next_slot, i as int);
                }
                return Some(i);
            }
            i = i + 1;
        }
        assert forall|k: int| 0 <= k < self@.slots.len() implies (#[trigger] self@.slots[k]).0
            != id by {
            assert(self.entries[k].0 != id);
        }
        None
    }

    /// A registry without slots.
    pub fn new() -> (registry: Self)
        ensures
            registry.wf(),
            registry@ == RegistryView::<C>::empty(),
    {
        let registry = Registry { entries: Vec::new(), next_id: 0 };
        assert(registry@.slots =~= Seq::<(u64, SlotView<C>)>::empty());
        registry
    }

    /// Creates a slot for a connection attempt to `endpoint` and returns its
    /// identifier. The slot starts out pending, with a task that has not
    /// reported yet, and stands after all earlier slots. Returns `None`, and
    /// changes nothing, only when every identifier has been given out.
    pub fn trigger(&mut self, endpoint: &str) -> (out: Option<u64>)
        requires
            old(self).wf(),
        ensures
            final(self).wf(),
            final(self)@ == old(self)@.trigger(endpoint@),
            out == if old(self)@.has_room() {
                Some(old(self)@.next_slot as u64)
            } else {
                None
            },
    {
        if self.next_id == u64::MAX {
            return None;
        }
        let id = self.next_id;
        let task = ConnectionTask::start(endpoint);
        self.entries.push((id, Slot::Pending(task)));
        self.next_id = id + 1;
        assert(self@.slots =~= old(self)@.slots.push((id, fresh(endpoint@))));
        Some(id)
    }

    /// Hands the result of a handshake to the task of the slot `id`. The
    /// result is taken, and `true` returned, exactly when the slot is pending
    /// and its task has no result yet; otherwise nothing changes.
    pub fn complete(&mut self, id: u64, result: Result<C, ConnectionError>) -> (accepted: bool)
        requires
            old(self).wf(),
        ensures
            final(self).wf(),
            final(self)@ == old(self)@.complete(id, result),
            accepted == old(self)@.accepts(id),
    {
        match self.find(id) {
            None => false,
            Some(i) => {
                let accepted = match &mut self.entries[i].1 {
                    Slot::Pending(task) => task.complete(result),
                    Slot::Live(_) => false,
                };
                proof {
                    if accepted {
                        let task = old(self).entries@[i as int].1->Pending_0@;
                        let finished = TaskView {
                            endpoint: task.endpoint,
                            state: TaskState::Finished(result),
                        };
                        assert(self@.slots =~= old(self)@.slots.update(
                            i as int,
                            (id, SlotView::Pending(finished)),
                        ));
                        lemma_slot_of_update(
                            old(self)@.slots,
                            old(self)@.next_slot,
                            i as int,
                            SlotView::Pending(finished),
                            id,
                        );
                    } else {
                        assert(self@.slots =~= old(self)@.slots);
                    }
                }
                accepted
            },
        }
    }

    /// Polls every pending task once. A slot whose task has succeeded becomes
    /// live with the channel that the task produced; a slot whose task has
    /// failed is discarded; every other slot stays as it is, and no slot
    /// appears. The resolved tasks are reported in the order of their slots.
    pub fn tick(&mut self) -> (events: Vec<TaskEvent>)
        requires
            old(self).wf(),
        ensures
            final(self).wf(),
            final(self)@ == old(self)@.tick(),
            events@ == old(self)@.slots.filter_map(reporting()),
            forall|id: u64|
                #[trigger] final(self)@.slot(id) == match old(self)@.slot(id) {
                    Some(slot) => match promoted((id, slot)) {
                        Some(entry) => Some(entry.1),
                        None => None,
                    },
                    None => None,
                },
    {
        let mut taken: Vec<(u64, Slot<C>)> = Vec::new();
        std::mem::swap(&mut self.entries, &mut taken);
        let mut events: Vec<TaskEvent> = Vec::new();
        let ghost before = deep(taken@);
        for entry in it: taken
            invariant
                before == deep(it.seq()),
                before == old(self)@.slots,
                self.next_id == old(self).next_id,
                self@.slots == before.take(it.index()).filter_map(promotion()),
                events@ == before.take(it.index()).filter_map(reporting()),
        {
            proof {
                before.lemma_filter_map_take_succ(promotion(), it.index());
                before.lemma_filter_map_take_succ(reporting(), it.index());
            }
            let ghost kept = self@.slots;
            let (id, slot) = entry;
            match slot {
                Slot::Live(channel) => {
                    self.entries.push((id, Slot::Live(channel)));
                    assert(self@.slots =~= kept.push((id, SlotView::Live(channel))));
                },
                Slot::Pending(mut task) => {
                    match task.poll() {
                        None => {
                            self.entries.push((id, Slot::Pending(task)));
                            assert(self@.slots =~= kept.push((id, SlotView::Pending(task@))));
                        },
                        Some(Ok(channel)) => {
                            self.entries.push((id, Slot::Live(channel)));
                            events.push(TaskEvent::Connected { slot: id });
                            assert(self@.slots =~= kept.push((id, SlotView::Live(channel))));
                        },
                        Some(Err(error)) => {
                            events.push(TaskEvent::Failed { slot: id, error });
                        },
                    }
                },
            }
        }
        proof {
            assert(before.take(before.len() as int) =~= before);
            lemma_promotion(before, old(self)@.next_slot);
        }
        events
    }

    /// What an observer can tell of the slot `id`.
    pub fn status(&self, id: u64) -> (out: SlotStatus)
        requires
            self.wf(),
        ensures
            out == status_of(self@.slot(id)),
    {
        match self.find(id) {
            None => SlotStatus::Absent,
            Some(i) => match &self.entries[i].1 {
                Slot::Pending(_) => SlotStatus::Pending,
                Slot::Live(_) => SlotStatus::Live,
            },
        }
    }

    /// The identifiers of the live slots, in the order of their creation.
    pub fn live_slots(&self) -> (out: Vec<u64>)
        ensures
            out@ == self@.slots.filter_map(live_ids()),
    {
        let mut out: Vec<u64> = Vec::new();
        let mut i: usize = 0;
        while i < self.entries.len()
            invariant
                i <= self.entries.len(),
                out@ == self@.slots.take(i as int).filter_map(live_ids()),
            decreases self.entries.len() - i,
        {
            proof {
                self@.slots.lemma_filter_map_take_succ(live_ids(), i as int);
            }
            match &self.entries[i].1 {
                Slot::Live(_) => {
                    out.push(self.entries[i].0);
                },
                Slot::Pending(_) => {},
            }
            i = i + 1;
        }
        assert(self@.slots.take(i as int) =~= self@.slots);
        out
    }

    /// The channel installed in the slot `id`, if the slot is live.
    pub fn channel(&self, id: u64) -> (out: Option<&C>)
        requires
            self.wf(),
        ensures
            match out {
                Some(channel) => self@.slot(id) == Some(SlotView::Live(*channel)),
                None => !(self@.slot(id) matches Some(SlotView::Live(_))),
            },
    {
        match self.find(id) {
            None => None,
            Some(i) => match &self.entries[i].1 {
                Slot::Pending(_) => None,
                Slot::Live(channel) => Some(channel),
            },
        }
    }

    /// The channel installed in the slot `id`, for the pump to write to and
    /// read from. Whatever the borrower makes of the channel, the slot stays
    /// live and no other slot changes.
    pub fn channel_mut(&mut self, id: u64) -> (out: Option<&mut C>)
        requires
            old(self).wf(),
        ensures
            final(self).wf(),
            final(self)@.next_slot == old(self)@.next_slot,
            match out {
                Some(channel) => {
                    &&& old(self)@.slot(id) == Some(SlotView::Live(*channel))
                    &&& final(self)@.slots == old(self)@.slots.update(
                        position(old(self)@.slots, id),
                        (id, SlotView::Live(*final(channel))),
                    )
                },
                None => {
                    &&& !(old(self)@.slot(id) matches Some(SlotView::Live(_)))
                    &&& final(self)@ == old(self)@
                },
            },
    {
        match self.find(id) {
            None => None,
            Some(i) => {
                if let Slot::Pending(_) = &self.entries[i].1 {
                    return None;
                }
                match &mut self.entries[i].1 {
                    Slot::Live(channel) => {
                        proof {
                            let before = old(self).entries@;
                            let after = after_borrow(self.entries)@;
                            assert(after == before.update(
                                i as int,
                                (id, Slot::Live(*final(channel))),
                            ));
                            assert(deep(after) =~= deep(before).update(
                                i as int,
                                (id, SlotView::Live(*final(channel))),
                            ));
                            lemma_slot_of_update(
                                deep(before),
                                old(self)@.next_slot,
                                i as int,
                                SlotView::Live(*final(channel)),
                                id,
                            );
                        }
                        Some(channel)
                    },
                    Slot::Pending(_) => None,
                }
            },
        }
    }
}

} // verus!
