//! What holds of the task store whatever is done with it.

use crate::interval::Interval;
use crate::model::{collected, lemma_collected_ids, StoreView};
use crate::task::TaskView;
use crate::today::Today;
use vstd::prelude::*;

verus! {

/// A period that starts on some date is of the kind asked for, carries that date's marker, and
/// is not stale on that date.
pub proof fn lemma_started_is_current(is_daily: bool, today: Today)
    ensures
        Interval::started_on(is_daily, today).daily() == is_daily,
        Interval::started_on(is_daily, today).marker() == (if is_daily {
            today.day
        } else {
            today.week
        }),
        !Interval::started_on(is_daily, today).stale(today),
        today.in_calendar() ==> Interval::started_on(is_daily, today).in_calendar(),
{
}

/// Moving a period to a date keeps its kind and leaves it current for that date and for every
/// date that is not later in either number.
pub proof fn lemma_moved_is_current(period: Interval, today: Today, again: Today)
    requires
        again.day <= today.day,
        again.week <= today.week,
    ensures
        period.moved_to(today).daily() == period.daily(),
        period.moved_to(today).marker() == period.marker_on(today),
        !period.moved_to(today).stale(again),
        today.in_calendar() ==> period.moved_to(today).in_calendar(),
{
}

/// A marker never moves back: the recurrence check leaves it where it is or moves it forward,
/// and it resets the completion flag exactly when it moves the marker.
pub proof fn lemma_marker_never_moves_back(task: TaskView, today: Today)
    ensures
        task.refreshed(today).period.marker() >= task.period.marker(),
        task.refreshed(today).period.marker() >= task.period.marker_on(today),
        task.refreshed(today).period.marker() > task.period.marker() ==> !task.refreshed(
            today,
        ).done,
        task.refreshed(today).period.marker() == task.period.marker() ==> task.refreshed(today)
            == task,
        task.period.in_calendar() && today.in_calendar() ==> task.refreshed(
            today,
        ).period.in_calendar(),
{
}

/// A task that has just been created is not done, keeps the kind it was created with, carries
/// the marker of the date of its creation, and is left alone by a recurrence check on that date.
pub proof fn lemma_created_task_is_current(name: Seq<char>, is_daily: bool, today: Today)
    ensures
        !TaskView::created(name, is_daily, today).done,
        TaskView::created(name, is_daily, today).name == name,
        TaskView::created(name, is_daily, today).period.daily() == is_daily,
        TaskView::created(name, is_daily, today).period.marker() == (if is_daily {
            today.day
        } else {
            today.week
        }),
        !TaskView::created(name, is_daily, today).period.stale(today),
        TaskView::created(name, is_daily, today).refreshed(today) == TaskView::created(
            name,
            is_daily,
            today,
        ),
{
}

/// Creating a task puts exactly that task into the store, under the identifier that the counter
/// showed, and changes no other task.
pub proof fn lemma_insert_adds_one(store: StoreView, name: Seq<char>, is_daily: bool, today: Today)
    requires
        store.wf(),
        store.has_room(),
    ensures
        store.inserted(name, is_daily, today).wf(),
        !store.tasks.contains_key(store.next_id),
        store.inserted(name, is_daily, today).tasks[store.next_id] == TaskView::created(
            name,
            is_daily,
            today,
        ),
        store.inserted(name, is_daily, today).next_id == store.next_id + 1,
        store.inserted(name, is_daily, today).removed(store.next_id).tasks == store.tasks,
{
    assert(store.inserted(name, is_daily, today).removed(store.next_id).tasks =~= store.tasks);
}

/// The recurrence check leaves a task current: a second check on the same date, or on a date
/// that is not later in either number, changes nothing.
pub proof fn lemma_task_refresh_settles(task: TaskView, today: Today, again: Today)
    requires
        again.day <= today.day,
        again.week <= today.week,
    ensures
        task.refreshed(today).refreshed(again) == task.refreshed(today),
        task.refreshed(today).period.daily() == task.period.daily(),
        task.refreshed(today).name == task.name,
{
}

/// The recurrence check is idempotent: run twice in succession on the same date, the second run
/// leaves the store as the first one left it.
pub proof fn lemma_refresh_is_idempotent(store: StoreView, today: Today)
    ensures
        store.refreshed(today).refreshed(today) == store.refreshed(today),
{
    lemma_refresh_settles(store, today, today);
}

/// After a recurrence check, a further check on a date that is not later in either number
/// changes nothing.
pub proof fn lemma_refresh_settles(store: StoreView, today: Today, again: Today)
    requires
        again.day <= today.day,
        again.week <= today.week,
    ensures
        store.refreshed(today).refreshed(again) == store.refreshed(today),
{
    let once = store.refreshed(today);
    assert forall|id: u64| once.tasks.contains_key(id) implies #[trigger] once.refreshed(
        again,
    ).tasks[id] == once.tasks[id] by {
        lemma_task_refresh_settles(store.tasks[id], today, again);
    }
    assert(once.refreshed(again).tasks =~= once.tasks);
}

/// After the recurrence check no task is stale, and a store without a stale task is left as it
/// is: tasks become current inside the check and nowhere else.
pub proof fn lemma_refresh_leaves_no_task_stale(store: StoreView, today: Today)
    ensures
        !store.refreshed(today).has_stale(today),
        !store.has_stale(today) ==> store.refreshed(today) == store,
{
    if !store.has_stale(today) {
        assert forall|id: u64| store.tasks.contains_key(id) implies #[trigger] store.refreshed(
            today,
        ).tasks[id] == store.tasks[id] by {
            assert(!store.tasks[id].period.stale(today));
        }
        assert(store.refreshed(today).tasks =~= store.tasks);
    }
}

/// The recurrence check neither adds nor removes a task, keeps the counter and the invariant,
/// and does to each task what the check on a single task does.
pub proof fn lemma_refresh_is_per_task(store: StoreView, today: Today)
    requires
        store.wf(),
    ensures
        store.refreshed(today).wf(),
        store.refreshed(today).next_id == store.next_id,
        store.refreshed(today).tasks.dom() == store.tasks.dom(),
        forall|id: u64|
            store.tasks.contains_key(id) ==> #[trigger] store.refreshed(today).tasks[id]
                == store.tasks[id].refreshed(today),
{
    assert(store.refreshed(today).tasks.dom() =~= store.tasks.dom());
}

/// Once a task is removed it is gone: its identifier is no longer in the store, and flipping or
/// removing it again changes nothing. No other task is touched, and the counter stays.
pub proof fn lemma_removed_stays_removed(store: StoreView, id: u64)
    requires
        store.wf(),
    ensures
        store.removed(id).wf(),
        !store.removed(id).tasks.contains_key(id),
        store.removed(id).next_id == store.next_id,
        store.removed(id).toggled(id) == store.removed(id),
        store.removed(id).removed(id) == store.removed(id),
        forall|other: u64|
            other != id ==> (store.removed(id).tasks.contains_key(other)
                <==> store.tasks.contains_key(other)) && store.removed(id).tasks[other]
                == store.tasks[other],
        forall|entries: Seq<(u64, TaskView)>, i: int|
            store.removed(id).lists(entries) && 0 <= i < entries.len() ==> (
            #[trigger] entries[i]).0 != id,
{
    assert(store.removed(id).removed(id).tasks =~= store.removed(id).tasks);
}

/// Removing or flipping a task that is not there leaves the store as it is.
pub proof fn lemma_absent_task_is_no_op(store: StoreView, id: u64)
    requires
        !store.tasks.contains_key(id),
    ensures
        store.removed(id) == store,
        store.toggled(id) == store,
{
    assert(store.removed(id).tasks =~= store.tasks);
}

/// Flipping a task changes its completion flag and nothing else, and flipping it twice gives
/// the store back.
pub proof fn lemma_toggle_flips_one(store: StoreView, id: u64)
    requires
        store.wf(),
        store.tasks.contains_key(id),
    ensures
        store.toggled(id).wf(),
        store.toggled(id).next_id == store.next_id,
        store.toggled(id).tasks.dom() == store.tasks.dom(),
        store.toggled(id).tasks[id].done == !store.tasks[id].done,
        store.toggled(id).tasks[id].name == store.tasks[id].name,
        store.toggled(id).tasks[id].period == store.tasks[id].period,
        forall|other: u64| other != id ==> store.toggled(id).tasks[other] == store.tasks[other],
        store.toggled(id).toggled(id) == store,
{
    assert(store.toggled(id).tasks.dom() =~= store.tasks.dom());
    assert(store.toggled(id).toggled(id).tasks =~= store.tasks);
}

/// Two listings of one store name the same identifiers at the same places, as far as both go.
proof fn lemma_listings_agree_up_to(
    store: StoreView,
    a: Seq<(u64, TaskView)>,
    b: Seq<(u64, TaskView)>,
    n: int,
)
    requires
        store.lists(a),
        store.lists(b),
        0 <= n <= a.len(),
        n <= b.len(),
    ensures
        forall|i: int| 0 <= i < n ==> (#[trigger] a[i]).0 == b[i].0,
    decreases n,
{
    if n > 0 {
        lemma_listings_agree_up_to(store, a, b, n - 1);
        let last = n - 1;
        if a[last].0 < b[last].0 {
            assert(store.tasks.contains_key(a[last].0));
            let j = choose|j: int| 0 <= j < b.len() && (#[trigger] b[j]).0 == a[last].0;
            if j < last {
                assert(a[j].0 == b[j].0);
            }
        } else if b[last].0 < a[last].0 {
            assert(store.tasks.contains_key(b[last].0));
            let j = choose|j: int| 0 <= j < a.len() && (#[trigger] a[j]).0 == b[last].0;
            if j < last {
                assert(a[j].0 == b[j].0);
            }
        }
    }
}

/// A listing that agrees with another as far as it goes is not the shorter of the two.
proof fn lemma_listing_is_not_shorter(
    store: StoreView,
    a: Seq<(u64, TaskView)>,
    b: Seq<(u64, TaskView)>,
)
    requires
        store.lists(a),
        store.lists(b),
    ensures
        a.len() >= b.len(),
{
    if a.len() < b.len() {
        let n = a.len() as int;
        lemma_listings_agree_up_to(store, a, b, n);
        assert(store.tasks.contains_key(b[n].0));
        let j = choose|j: int| 0 <= j < a.len() && (#[trigger] a[j]).0 == b[n].0;
        assert(a[j].0 == b[j].0);
    }
}

/// A store has one listing only, so listing it again, with nothing done to it in between, gives
/// the same sequence.
pub proof fn lemma_listing_is_unique(
    store: StoreView,
    a: Seq<(u64, TaskView)>,
    b: Seq<(u64, TaskView)>,
)
    requires
        store.lists(a),
        store.lists(b),
    ensures
        a == b,
{
    lemma_listing_is_not_shorter(store, a, b);
    lemma_listing_is_not_shorter(store, b, a);
    lemma_listings_agree_up_to(store, a, b, a.len() as int);
    assert forall|i: int| 0 <= i < a.len() implies a[i] == b[i] by {
        assert(a[i].0 == b[i].0);
        assert(store.tasks.contains_pair(a[i].0, a[i].1));
        assert(store.tasks.contains_pair(b[i].0, b[i].1));
    }
    assert(a =~= b);
}

/// A listing names as many tasks as the store holds.
pub proof fn lemma_listing_length(store: StoreView, entries: Seq<(u64, TaskView)>)
    requires
        store.lists(entries),
    ensures
        store.tasks.dom().finite(),
        store.tasks.len() == entries.len(),
    decreases entries.len(),
{
    if entries.len() == 0 {
        assert(store.tasks.dom() =~= Set::empty());
    } else {
        let last = entries.last();
        let front = entries.drop_last();
        let rest = store.removed(last.0);
        assert(rest.lists(front)) by {
            assert forall|i: int| 0 <= i < front.len() implies rest.tasks.contains_pair(
                (#[trigger] front[i]).0,
                front[i].1,
            ) by {
                assert(store.tasks.contains_pair(entries[i].0, entries[i].1));
            }
            assert forall|id: u64| rest.tasks.contains_key(id) implies exists|i: int|
                0 <= i < front.len() && (#[trigger] front[i]).0 == id by {
                let i = choose|i: int| 0 <= i < entries.len() && (#[trigger] entries[i]).0 == id;
                assert(front[i].0 == id);
            }
        }
        lemma_listing_length(rest, front);
        assert(store.tasks.contains_pair(entries[entries.len() - 1].0, last.1));
        assert(store.tasks.dom() =~= rest.tasks.dom().insert(last.0));
    }
}

/// Collecting a listing of distinct identifiers gives each identifier the task listed with it.
proof fn lemma_collected_entry(entries: Seq<(u64, TaskView)>, i: int)
    requires
        forall|a: int, b: int| 0 <= a < b < entries.len() ==> entries[a].0 < entries[b].0,
        0 <= i < entries.len(),
    ensures
        collected(entries).contains_pair(entries[i].0, entries[i].1),
    decreases entries.len(),
{
    if i < entries.len() - 1 {
        let front = entries.drop_last();
        lemma_collected_entry(front, i);
        assert(front[i] == entries[i]);
        assert(entries[i].0 < entries[entries.len() - 1].0);
    }
}

/// Saving and loading loses nothing: a store's listing and its counter restore to that very
/// store.
pub proof fn lemma_restore_gives_back(store: StoreView, entries: Seq<(u64, TaskView)>)
    requires
        store.wf(),
        store.lists(entries),
    ensures
        StoreView::restored(entries, store.next_id) == Some(store),
{
    assert forall|i: int| 0 <= i < entries.len() implies (#[trigger] entries[i]).0
        < store.next_id by {
        assert(store.tasks.contains_pair(entries[i].0, entries[i].1));
    }
    lemma_collected_ids(entries);
    assert forall|id: u64| store.tasks.contains_key(id) implies collected(entries).contains_key(
        id,
    ) && collected(entries)[id] == store.tasks[id] by {
        let i = choose|i: int| 0 <= i < entries.len() && (#[trigger] entries[i]).0 == id;
        lemma_collected_entry(entries, i);
        assert(store.tasks.contains_pair(entries[i].0, entries[i].1));
    }
    assert forall|id: u64| collected(entries).contains_key(id) implies store.tasks.contains_key(
        id,
    ) by {
        let i = choose|i: int| 0 <= i < entries.len() && (#[trigger] entries[i]).0 == id;
        assert(store.tasks.contains_pair(entries[i].0, entries[i].1));
    }
    assert(collected(entries) =~= store.tasks);
}

/// A store that is saved and loaded again is the store it was: the same tasks under the same
/// identifiers, and the same counter, which is taken from what was saved and not worked out
/// from the identifiers in use. So an identifier whose task was removed before saving is not
/// handed out again after loading.
pub proof fn lemma_load_gives_back(store: StoreView, entries: Seq<(u64, TaskView)>)
    requires
        store.wf(),
        store.lists(entries),
    ensures
        StoreView::loaded(Some((entries, store.next_id))) == store,
        StoreView::loaded(Some((entries, store.next_id))).tasks == store.tasks,
        StoreView::loaded(Some((entries, store.next_id))).next_id == store.next_id,
{
    lemma_restore_gives_back(store, entries);
}

/// Whatever is loaded is a store that keeps the invariant; with nothing saved, or with a saved
/// state that describes no store, it is the empty store.
pub proof fn lemma_loaded_is_well_formed(saved: Option<(Seq<(u64, TaskView)>, u64)>)
    ensures
        StoreView::loaded(saved).wf(),
        saved is None ==> StoreView::loaded(saved) == StoreView::empty(),
        saved matches Some((entries, next_id)) ==> (StoreView::restored(entries, next_id)
            is None ==> StoreView::loaded(saved) == StoreView::empty()),
{
    match saved {
        Some((entries, next_id)) => {
            lemma_restored_is_well_formed(entries, next_id);
        },
        None => {},
    }
}

/// Loading never yields a store that breaks the invariant: whatever is restored has every
/// identifier below its counter, and keeps the saved counter.
pub proof fn lemma_restored_is_well_formed(entries: Seq<(u64, TaskView)>, next_id: u64)
    ensures
        StoreView::restored(entries, next_id) matches Some(store) ==> store.wf() && store.next_id
            == next_id,
{
    lemma_collected_ids(entries);
}

} // verus!
