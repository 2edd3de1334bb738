//! The task store: tasks under identifiers that are handed out in increasing order.

use crate::ascending::{ascending, entries};
use crate::laws::{lemma_listing_length, lemma_restore_gives_back};
use crate::model::{collected, lemma_collected_ids, StoreView};
use crate::task::{Task, TaskView};
use crate::today::Today;
use std::collections::BTreeMap;
use vstd::prelude::*;

verus! {

/// The task store. Tasks are kept in the order of their identifiers, which a counter hands out
/// and never reuses.
#[derive(Debug)]
pub struct TemplateApp {
    todos: BTreeMap<u64, Task>,
    id: u64,
}

/// A listing as the store hands it out, with each task taken by its view.
pub open spec fn entry_views(listing: Seq<(u64, &Task)>) -> Seq<(u64, TaskView)> {
    Seq::new(listing.len(), |i: int| (listing[i].0, listing[i].1@))
}

/// A listing as the store takes it back, with each task taken by its view.
pub open spec fn owned_entry_views(listing: Seq<(u64, Task)>) -> Seq<(u64, TaskView)> {
    Seq::new(listing.len(), |i: int| (listing[i].0, listing[i].1@))
}

/// What was saved, if anything, with each task taken by its view.
pub open spec fn saved_views(saved: Option<(Vec<(u64, Task)>, u64)>) -> Option<
    (Seq<(u64, TaskView)>, u64),
> {
    match saved {
        Some((listing, next_id)) => Some((owned_entry_views(listing@), next_id)),
        None => None,
    }
}

impl View for TemplateApp {
    type V = StoreView;

    closed spec fn view(&self) -> StoreView {
        StoreView { tasks: self.todos@.map_values(|t: Task| t@), next_id: self.id }
    }
}

impl Default for TemplateApp {
    /// An empty store whose counter starts at 0.
    fn default() -> (store: TemplateApp)
        ensures
            store@ == StoreView::empty(),
            store.wf(),
    {
        let store = Self { todos: BTreeMap::new(), id: 0 };
        assert(store@.tasks =~= Map::empty());
        store
    }
}

impl TemplateApp {
    /// The invariant of the store: every identifier in use is below the counter.
    pub open spec fn wf(&self) -> bool {
        self@.wf()
    }

    /// The store that the application starts with: the saved one, if something was saved and it
    /// describes a store, and an empty one otherwise.
    pub fn new(saved: Option<(Vec<(u64, Task)>, u64)>) -> (store: TemplateApp)
        ensures
            store.wf(),
            store@ == StoreView::loaded(saved_views(saved)),
    {
        match saved {
            Some((listing, next_id)) => {
                match TemplateApp::restore(listing, next_id) {
                    Some(store) => store,
                    None => TemplateApp::default(),
                }
            },
            None => TemplateApp::default(),
        }
    }

    /// Rebuilds a store from a saved listing of its tasks and its saved counter.
    ///
    /// The listing need not be in order; where it names an identifier twice, the later entry
    /// counts. A listing with an identifier that the counter has not passed describes no store,
    /// and nothing is returned for it.
    pub fn restore(listing: Vec<(u64, Task)>, next_id: u64) -> (store: Option<TemplateApp>)
        ensures
            match store {
                Some(s) => s.wf() && StoreView::restored(owned_entry_views(listing@), next_id)
                    == Some(s@),
                None => StoreView::restored(owned_entry_views(listing@), next_id) is None,
            },
    {
        let ghost shown = owned_entry_views(listing@);
        let mut todos: BTreeMap<u64, Task> = BTreeMap::new();
        let mut valid = true;
        proof {
            assert(shown.take(0) =~= Seq::empty());
            assert(todos@.map_values(|t: Task| t@) =~= collected(shown.take(0)));
        }
        for entry in it: listing
            invariant
                it.seq() == listing@,
                shown == owned_entry_views(listing@),
                valid <==> forall|j: int| 0 <= j < it.index() ==> (#[trigger] shown[j]).0 < next_id,
                todos@.map_values(|t: Task| t@) == collected(shown.take(it.index())),
        {
            let ghost n = it.index();
            let ghost so_far = todos@;
            let (id, task) = entry;
            if id >= next_id {
                valid = false;
            }
            todos.insert(id, task);
            proof {
                assert(shown[n] == (id, task@));
                assert(shown.take(n + 1).drop_last() =~= shown.take(n));
                assert(shown.take(n + 1).last() == shown[n]);
                assert(todos@.map_values(|t: Task| t@) =~= so_far.map_values(|t: Task| t@).insert(
                    id,
                    task@,
                ));
            }
        }
        proof {
            assert(shown.take(shown.len() as int) =~= shown);
            lemma_collected_ids(shown);
        }
        if valid {
            Some(TemplateApp { todos, id: next_id })
        } else {
            None
        }
    }

    /// Creates a task on the given date and returns its identifier: the value of the counter,
    /// which moves on by one. The new task is not done, and its marker is the date's day of the
    /// month or ISO week.
    pub fn insert(&mut self, name: String, is_daily: bool, today: Today) -> (id: u64)
        requires
            old(self).wf(),
            old(self)@.has_room(),
        ensures
            id == old(self)@.next_id,
            final(self)@ == old(self)@.inserted(name@, is_daily, today),
            final(self).wf(),
    {
        let id = self.id;
        self.todos.insert(id, Task::create(name, is_daily, today));
        self.id = id + 1;
        assert(self@.tasks =~= old(self)@.inserted(name@, is_daily, today).tasks);
        id
    }

    /// Deletes the task with the given identifier, if there is one.
    pub fn remove(&mut self, id: u64)
        requires
            old(self).wf(),
        ensures
            final(self)@ == old(self)@.removed(id),
            final(self).wf(),
    {
        self.todos.remove(&id);
        assert(self@.tasks =~= old(self)@.removed(id).tasks);
    }

    /// Flips the completion flag of the task with the given identifier, if there is one.
    pub fn toggle_done(&mut self, id: u64)
        requires
            old(self).wf(),
        ensures
            final(self)@ == old(self)@.toggled(id),
            final(self).wf(),
    {
        match self.todos.remove(&id) {
            Some(task) => {
                let mut task = task;
                task.toggle();
                self.todos.insert(id, task);
                assert(self@.tasks =~= old(self)@.toggled(id).tasks);
            },
            None => {
                assert(self.todos@ =~= old(self).todos@);
            },
        }
    }

    /// The tasks with their identifiers, in ascending order of identifier.
    pub fn iter(&self) -> (listing: Vec<(u64, &Task)>)
        ensures
            self@.lists(entry_views(listing@)),
            listing@.len() == self@.tasks.len(),
    {
        let listing = entries(&self.todos);
        proof {
            let shown = entry_views(listing@);
            assert forall|i: int| 0 <= i < shown.len() implies self@.tasks.contains_pair(
                (#[trigger] shown[i]).0,
                shown[i].1,
            ) by {
                assert(self.todos@.contains_key(listing@[i].0));
            }
            assert forall|id: u64| self@.tasks.contains_key(id) implies exists|i: int|
                0 <= i < shown.len() && (#[trigger] shown[i]).0 == id by {
                let i = choose|i: int| 0 <= i < listing@.len() && (#[trigger] listing@[i]).0 == id;
                assert(shown[i].0 == id);
            }
            lemma_listing_length(self@, shown);
        }
        listing
    }

    /// What there is to save of the store: a copy of each task with its identifier, in ascending
    /// order of identifier, and the counter. [`TemplateApp::restore`] and [`TemplateApp::new`]
    /// take both back and give the same store again.
    pub fn save(&self) -> (saved: (Vec<(u64, Task)>, u64))
        ensures
            self@.lists(owned_entry_views(saved.0@)),
            saved.0@.len() == self@.tasks.len(),
            saved.1 == self@.next_id,
            self.wf() ==> StoreView::restored(owned_entry_views(saved.0@), saved.1) == Some(self@),
            self.wf() ==> StoreView::loaded(Some((owned_entry_views(saved.0@), saved.1)))
                == self@,
    {
        let listing = self.iter();
        let mut copies: Vec<(u64, Task)> = Vec::new();
        let mut i: usize = 0;
        while i < listing.len()
            invariant
                i <= listing.len(),
                copies@.len() == i,
                forall|j: int| 0 <= j < i ==> #[trigger] copies@[j] == (listing@[j].0, *listing@[j].1),
            decreases listing.len() - i,
        {
            copies.push((listing[i].0, listing[i].1.clone()));
            i += 1;
        }
        proof {
            assert(owned_entry_views(copies@) =~= entry_views(listing@));
            if self.wf() {
                lemma_restore_gives_back(self@, owned_entry_views(copies@));
            }
        }
        (copies, self.id)
    }

    /// The identifiers in use, in ascending order.
    pub fn ids(&self) -> (ids: Vec<u64>)
        ensures
            ascending(ids@),
            ids@.len() == self@.tasks.len(),
            forall|i: int| 0 <= i < ids@.len() ==> self@.tasks.contains_key(#[trigger] ids@[i]),
            forall|id: u64| self@.tasks.contains_key(id) ==> ids@.contains(id),
    {
        let listing = self.iter();
        let mut ids: Vec<u64> = Vec::new();
        let mut i: usize = 0;
        while i < listing.len()
            invariant
                i <= listing.len(),
                ids@.len() == i,
                forall|j: int| 0 <= j < i ==> #[trigger] ids@[j] == listing@[j].0,
            decreases listing.len() - i,
        {
            ids.push(listing[i].0);
            i += 1;
        }
        proof {
            let shown = entry_views(listing@);
            assert forall|j: int, k: int| 0 <= j < k < ids@.len() implies ids@[j] < ids@[k] by {
                assert(shown[j].0 < shown[k].0);
            }
            assert forall|k: int| 0 <= k < ids@.len() implies self@.tasks.contains_key(
                #[trigger] ids@[k],
            ) by {
                assert(self@.tasks.contains_pair(shown[k].0, shown[k].1));
            }
            assert forall|id: u64| self@.tasks.contains_key(id) implies ids@.contains(id) by {
                let k = choose|k: int| 0 <= k < shown.len() && (#[trigger] shown[k]).0 == id;
                assert(ids@[k] == id);
            }
        }
        ids
    }

    /// Runs the recurrence check on the given date over every task: each task whose period has
    /// rolled over is reset to not done and gets the date's marker; the others are left alone.
    pub fn refresh(&mut self, today: Today)
        requires
            old(self).wf(),
        ensures
            final(self)@ == old(self)@.refreshed(today),
            final(self).wf(),
    {
        let ids = self.ids();
        let ghost before = self.todos@;
        let mut i: usize = 0;
        while i < ids.len()
            invariant
                i <= ids.len(),
                self.id == old(self).id,
                before == old(self).todos@,
                ascending(ids@),
                self.todos@.dom() == before.dom(),
                forall|j: int| 0 <= j < ids@.len() ==> before.contains_key(#[trigger] ids@[j]),
                forall|id: u64| before.contains_key(id) ==> ids@.contains(id),
                forall|j: int|
                    0 <= j < i ==> (#[trigger] self.todos@[ids@[j]])@ == before[ids@[j]]@.refreshed(
                        today,
                    ),
                forall|j: int|
                    i <= j < ids@.len() ==> #[trigger] self.todos@[ids@[j]] == before[ids@[j]],
            decreases ids.len() - i,
        {
            let id = ids[i];
            let ghost during = self.todos@;
            match self.todos.remove(&id) {
                Some(task) => {
                    let mut task = task;
                    task.refresh(today);
                    self.todos.insert(id, task);
                },
                None => {},
            }
            proof {
                assert(self.todos@.dom() =~= before.dom());
                assert forall|j: int| 0 <= j < ids@.len() && j != i implies self.todos@[ids@[j]]
                    == during[ids@[j]] by {
                    assert(ids@[j] != ids@[i as int]);
                }
            }
            i += 1;
        }
        proof {
            let goal = old(self)@.refreshed(today).tasks;
            assert forall|id: u64| self@.tasks.contains_key(id) implies self@.tasks[id]
                == goal[id] by {
                assert(ids@.contains(id));
                let j = choose|j: int| 0 <= j < ids@.len() && ids@[j] == id;
                assert(self.todos@[ids@[j]]@ == before[ids@[j]]@.refreshed(today));
            }
            assert(self@.tasks =~= goal);
        }
    }

    /// The task with the given identifier, if there is one.
    pub fn get(&self, id: u64) -> (task: Option<&Task>)
        ensures
            match task {
                Some(t) => self@.tasks.contains_key(id) && self@.tasks[id] == t@,
                None => !self@.tasks.contains_key(id),
            },
    {
        self.todos.get(&id)
    }

    /// Whether there is a task with the given identifier.
    pub fn contains(&self, id: u64) -> (b: bool)
        ensures
            b == self@.tasks.contains_key(id),
    {
        self.todos.contains_key(&id)
    }

    /// The number of tasks.
    pub fn len(&self) -> (n: usize)
        ensures
            n == self@.tasks.len(),
            self@.tasks.dom().finite(),
    {
        assert(self@.tasks.dom() =~= self.todos@.dom());
        self.todos.len()
    }

    /// The identifier that the next new task will get.
    pub fn next_id(&self) -> (id: u64)
        ensures
            id == self@.next_id,
    {
        self.id
    }

    /// Whether another task can be created, that is, whether the counter has not run out.
    pub fn has_room(&self) -> (b: bool)
        ensures
            b == self@.has_room(),
    {
        self.id < u64::MAX
    }
}

} // verus!
