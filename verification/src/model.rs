//! The task store as a mathematical map, and what each operation does to it.

use crate::task::TaskView;
use crate::today::Today;
use vstd::prelude::*;

verus! {

/// The state of a task store: the tasks by identifier, and the identifier that the next new task
/// will get.
pub struct StoreView {
    pub tasks: Map<u64, TaskView>,
    pub next_id: u64,
}

impl StoreView {
    /// Every identifier in use is below the counter, so the counter never hands out an
    /// identifier that is in use.
    pub open spec fn wf(self) -> bool {
        forall|id: u64| self.tasks.contains_key(id) ==> id < self.next_id
    }

    /// Whether every task's marker is one a calendar can show.
    pub open spec fn in_calendar(self) -> bool {
        forall|id: u64|
            self.tasks.contains_key(id) ==> (#[trigger] self.tasks[id]).period.in_calendar()
    }

    /// Whether some task's period has rolled over on the given date.
    pub open spec fn has_stale(self, today: Today) -> bool {
        exists|id: u64| self.tasks.contains_key(id) && (#[trigger] self.tasks[id]).period.stale(today)
    }

    /// Whether the counter can still hand out an identifier.
    pub open spec fn has_room(self) -> bool {
        self.next_id < u64::MAX
    }

    /// The store with no task, whose counter stands at 0.
    pub open spec fn empty() -> StoreView {
        StoreView { tasks: Map::empty(), next_id: 0 }
    }

    /// The store after a task with the given label is created on the given date. The task gets
    /// the counter's value as its identifier, and the counter moves on by one.
    pub open spec fn inserted(self, name: Seq<char>, is_daily: bool, today: Today) -> StoreView
        recommends
            self.has_room(),
    {
        StoreView {
            tasks: self.tasks.insert(self.next_id, TaskView::created(name, is_daily, today)),
            next_id: (self.next_id + 1) as u64,
        }
    }

    /// The store without the task of the given identifier; the same store if there is none.
    pub open spec fn removed(self, id: u64) -> StoreView {
        StoreView { tasks: self.tasks.remove(id), next_id: self.next_id }
    }

    /// The store with the completion flag of the given task flipped; the same store if there is
    /// no such task.
    pub open spec fn toggled(self, id: u64) -> StoreView {
        if self.tasks.contains_key(id) {
            StoreView {
                tasks: self.tasks.insert(id, self.tasks[id].toggled()),
                next_id: self.next_id,
            }
        } else {
            self
        }
    }

    /// The store after the recurrence check on the given date has been applied to every task.
    pub open spec fn refreshed(self, today: Today) -> StoreView {
        StoreView {
            tasks: self.tasks.map_values(|t: TaskView| t.refreshed(today)),
            next_id: self.next_id,
        }
    }

    /// Whether the sequence shows the store's tasks in ascending order of identifier: each task
    /// once, under its identifier, and nothing else.
    pub open spec fn lists(self, entries: Seq<(u64, TaskView)>) -> bool {
        &&& forall|i: int, j: int| 0 <= i < j < entries.len() ==> entries[i].0 < entries[j].0
        &&& forall|i: int|
            0 <= i < entries.len() ==> self.tasks.contains_pair(
                (#[trigger] entries[i]).0,
                entries[i].1,
            )
        &&& forall|id: u64|
            self.tasks.contains_key(id) ==> exists|i: int|
                0 <= i < entries.len() && (#[trigger] entries[i]).0 == id
    }

    /// The store that a saved listing and a saved counter describe, if they describe one: no
    /// identifier in the listing may have reached the counter.
    pub open spec fn restored(entries: Seq<(u64, TaskView)>, next_id: u64) -> Option<StoreView> {
        if forall|i: int| 0 <= i < entries.len() ==> (#[trigger] entries[i]).0 < next_id {
            Some(StoreView { tasks: collected(entries), next_id })
        } else {
            None
        }
    }

    /// The store that an application starts with, given what was saved, if anything: the store
    /// that the saved listing and counter describe, or the empty store where nothing was saved
    /// or what was saved describes no store.
    pub open spec fn loaded(saved: Option<(Seq<(u64, TaskView)>, u64)>) -> StoreView {
        match saved {
            Some((entries, next_id)) => match StoreView::restored(entries, next_id) {
                Some(store) => store,
                None => StoreView::empty(),
            },
            None => StoreView::empty(),
        }
    }
}

/// The map that holds each listed task under its identifier. Where an identifier is listed more
/// than once, the last entry counts.
pub open spec fn collected(entries: Seq<(u64, TaskView)>) -> Map<u64, TaskView>
    decreases entries.len(),
{
    if entries.len() == 0 {
        Map::empty()
    } else {
        collected(entries.drop_last()).insert(entries.last().0, entries.last().1)
    }
}

/// A collected map holds exactly the identifiers that the listing names.
pub proof fn lemma_collected_ids(entries: Seq<(u64, TaskView)>)
    ensures
        forall|id: u64|
            collected(entries).contains_key(id) <==> exists|i: int|
                0 <= i < entries.len() && (#[trigger] entries[i]).0 == id,
    decreases entries.len(),
{
    if entries.len() > 0 {
        let front = entries.drop_last();
        lemma_collected_ids(front);
        assert forall|id: u64| collected(entries).contains_key(id) implies exists|i: int|
            0 <= i < entries.len() && (#[trigger] entries[i]).0 == id by {
            if id == entries.last().0 {
                assert(entries[entries.len() - 1].0 == id);
            } else {
                assert(collected(front).contains_key(id));
                let i = choose|i: int| 0 <= i < front.len() && (#[trigger] front[i]).0 == id;
                assert(entries[i].0 == id);
            }
        }
        assert forall|id: u64|
            (exists|i: int| 0 <= i < entries.len() && (#[trigger] entries[i]).0 == id)
            implies collected(entries).contains_key(id) by {
            let i = choose|i: int| 0 <= i < entries.len() && (#[trigger] entries[i]).0 == id;
            if i < entries.len() - 1 {
                assert(front[i].0 == id);
                assert(collected(front).contains_key(id));
            }
        }
    }
}

} // verus!
