//! Sequences of operations on a task store, and what holds of the identifiers they hand out.

use crate::model::StoreView;
use crate::today::Today;
use vstd::prelude::*;

verus! {

/// One operation on a task store.
pub enum Action {
    /// Create a task with this label and kind on this date.
    Insert { name: Seq<char>, is_daily: bool, today: Today },
    /// Delete the task with this identifier, if there is one.
    Remove { id: u64 },
    /// Flip the completion flag of the task with this identifier, if there is one.
    Toggle { id: u64 },
    /// Run the recurrence check on this date.
    Refresh { today: Today },
}

impl Action {
    /// Whether the date that the operation carries, if it carries one, is one a calendar can
    /// show.
    pub open spec fn in_calendar(self) -> bool {
        match self {
            Action::Insert { today, .. } => today.in_calendar(),
            Action::Refresh { today } => today.in_calendar(),
            _ => true,
        }
    }
}

impl StoreView {
    /// The store after one operation.
    pub open spec fn step(self, action: Action) -> StoreView {
        match action {
            Action::Insert { name, is_daily, today } => self.inserted(name, is_daily, today),
            Action::Remove { id } => self.removed(id),
            Action::Toggle { id } => self.toggled(id),
            Action::Refresh { today } => self.refreshed(today),
        }
    }

    /// The store after a sequence of operations, carried out from first to last.
    pub open spec fn run(self, actions: Seq<Action>) -> StoreView
        decreases actions.len(),
    {
        if actions.len() == 0 {
            self
        } else {
            self.run(actions.drop_last()).step(actions.last())
        }
    }

    /// Whether the sequence can be carried out: whenever it creates a task, the counter has not
    /// run out.
    pub open spec fn admits(self, actions: Seq<Action>) -> bool
        decreases actions.len(),
    {
        if actions.len() == 0 {
            true
        } else {
            &&& self.admits(actions.drop_last())
            &&& actions.last() is Insert ==> self.run(actions.drop_last()).has_room()
        }
    }

    /// The identifier that the operation at the given place is handed, if it creates a task:
    /// the counter's value after the operations before it.
    pub open spec fn issued(self, actions: Seq<Action>, at: int) -> u64 {
        self.run(actions.take(at)).next_id
    }
}

/// One operation keeps the invariant and never moves the counter back; creating a task moves it
/// on by one, to an identifier that was not in use.
pub proof fn lemma_step_keeps_invariant(store: StoreView, action: Action)
    requires
        store.wf(),
        action is Insert ==> store.has_room(),
    ensures
        store.step(action).wf(),
        store.step(action).next_id >= store.next_id,
        action is Insert ==> store.step(action).next_id == store.next_id + 1
            && !store.tasks.contains_key(store.next_id),
        !(action is Insert) ==> store.step(action).next_id == store.next_id,
{
}

/// No operation changes the label or the kind of a task that it leaves in the store: a daily
/// task stays daily, a weekly one weekly.
pub proof fn lemma_step_keeps_kind(store: StoreView, action: Action, id: u64)
    requires
        store.tasks.contains_key(id),
        store.step(action).tasks.contains_key(id),
        action is Insert ==> store.wf(),
    ensures
        store.step(action).tasks[id].name == store.tasks[id].name,
        store.step(action).tasks[id].period.daily() == store.tasks[id].period.daily(),
{
}

/// With dates that a calendar can show, markers stay ones that a calendar can show.
pub proof fn lemma_step_keeps_markers_in_calendar(store: StoreView, action: Action)
    requires
        store.in_calendar(),
        action.in_calendar(),
    ensures
        store.step(action).in_calendar(),
{
    let after = store.step(action);
    assert forall|id: u64| after.tasks.contains_key(id) implies (#[trigger] after.tasks[id])
        .period.in_calendar() by {
        if !(action is Insert && id == store.next_id) {
            assert(store.tasks[id].period.in_calendar());
        }
    }
}

/// Carrying out the first `n + 1` operations is carrying out the first `n` and then the next.
pub proof fn lemma_run_prefix(store: StoreView, actions: Seq<Action>, n: int)
    requires
        0 <= n < actions.len(),
    ensures
        store.run(actions.take(n + 1)) == store.run(actions.take(n)).step(actions[n]),
        store.admits(actions.take(n + 1)) <==> store.admits(actions.take(n)) && (actions[n]
            is Insert ==> store.run(actions.take(n)).has_room()),
{
    assert(actions.take(n + 1).drop_last() =~= actions.take(n));
    assert(actions.take(n + 1).last() == actions[n]);
}

/// A sequence that can be carried out can be carried out up to any place in it.
pub proof fn lemma_admits_prefix(store: StoreView, actions: Seq<Action>, n: int)
    requires
        store.admits(actions),
        0 <= n <= actions.len(),
    ensures
        store.admits(actions.take(n)),
    decreases actions.len(),
{
    if n == actions.len() {
        assert(actions.take(n) =~= actions);
    } else {
        lemma_admits_prefix(store, actions.drop_last(), n);
        assert(actions.drop_last().take(n) =~= actions.take(n));
    }
}

/// Whatever is done to a store, the invariant holds afterwards and the counter has not moved
/// back.
pub proof fn lemma_run_keeps_invariant(store: StoreView, actions: Seq<Action>)
    requires
        store.wf(),
        store.admits(actions),
    ensures
        store.run(actions).wf(),
        store.run(actions).next_id >= store.next_id,
    decreases actions.len(),
{
    if actions.len() > 0 {
        lemma_run_keeps_invariant(store, actions.drop_last());
        lemma_step_keeps_invariant(store.run(actions.drop_last()), actions.last());
    }
}

/// The counter after more operations is not behind the counter after fewer, and the invariant
/// holds at every place on the way.
pub proof fn lemma_counter_never_falls(store: StoreView, actions: Seq<Action>, m: int, n: int)
    requires
        store.wf(),
        store.admits(actions),
        0 <= m <= n <= actions.len(),
    ensures
        store.run(actions.take(m)).next_id <= store.run(actions.take(n)).next_id,
        store.run(actions.take(m)).wf(),
        store.run(actions.take(n)).wf(),
    decreases n - m,
{
    lemma_admits_prefix(store, actions, n);
    lemma_run_keeps_invariant(store, actions.take(n));
    lemma_admits_prefix(store, actions, m);
    lemma_run_keeps_invariant(store, actions.take(m));
    if m < n {
        lemma_counter_never_falls(store, actions, m, n - 1);
        lemma_run_prefix(store, actions, n - 1);
        lemma_step_keeps_invariant(store.run(actions.take(n - 1)), actions[n - 1]);
    }
}

/// Identifiers are handed out in strictly increasing order: of two operations that create a
/// task, the later one gets the larger identifier, whatever is removed, flipped or checked in
/// between. So no identifier is handed out twice.
pub proof fn lemma_issued_ids_increase(
    store: StoreView,
    actions: Seq<Action>,
    earlier: int,
    later: int,
)
    requires
        store.wf(),
        store.admits(actions),
        0 <= earlier < later < actions.len(),
        actions[earlier] is Insert,
        actions[later] is Insert,
    ensures
        store.issued(actions, earlier) < store.issued(actions, later),
{
    lemma_counter_never_falls(store, actions, earlier, earlier);
    lemma_admits_prefix(store, actions, earlier + 1);
    lemma_run_prefix(store, actions, earlier);
    lemma_step_keeps_invariant(store.run(actions.take(earlier)), actions[earlier]);
    lemma_counter_never_falls(store, actions, earlier + 1, later);
}

/// An identifier that is handed out is new: it was in use in no earlier state, neither in the
/// store that the sequence started from nor after any of the operations before.
pub proof fn lemma_issued_id_was_never_in_use(
    store: StoreView,
    actions: Seq<Action>,
    at: int,
    earlier: int,
)
    requires
        store.wf(),
        store.admits(actions),
        0 <= earlier <= at < actions.len(),
        actions[at] is Insert,
    ensures
        !store.run(actions.take(earlier)).tasks.contains_key(store.issued(actions, at)),
        !store.tasks.contains_key(store.issued(actions, at)),
{
    lemma_counter_never_falls(store, actions, earlier, at);
    lemma_counter_never_falls(store, actions, 0, at);
    assert(actions.take(0) =~= Seq::empty());
}

/// An identifier that has been handed out is never in use again once its task is removed: after
/// the operation that created the task, the counter stays above the identifier, and every
/// identifier in the store stays below the counter.
pub proof fn lemma_issued_id_is_not_reused(
    store: StoreView,
    actions: Seq<Action>,
    at: int,
    later: int,
)
    requires
        store.wf(),
        store.admits(actions),
        0 <= at < later <= actions.len(),
        actions[at] is Insert,
    ensures
        !store.run(actions.take(at)).tasks.contains_key(store.issued(actions, at)),
        store.issued(actions, at) < store.run(actions.take(later)).next_id,
        later < actions.len() && actions[later] is Insert ==> store.issued(actions, later)
            != store.issued(actions, at),
{
    lemma_counter_never_falls(store, actions, at, at);
    lemma_admits_prefix(store, actions, at + 1);
    lemma_run_prefix(store, actions, at);
    lemma_step_keeps_invariant(store.run(actions.take(at)), actions[at]);
    lemma_counter_never_falls(store, actions, at + 1, later);
}

} // verus!
