//! A single recurring to-do item.

use crate::interval::Interval;
use crate::today::Today;
use vstd::prelude::*;

verus! {

/// One recurring to-do item: a label, whether it has been completed for the current period, and
/// the period it recurs with.
#[derive(Debug)]
pub struct Task {
    pub name: String,
    pub done: bool,
    pub period: Interval,
}

/// What a task is, with its label as a sequence of characters.
pub struct TaskView {
    pub name: Seq<char>,
    pub done: bool,
    pub period: Interval,
}

impl View for Task {
    type V = TaskView;

    open spec fn view(&self) -> TaskView {
        TaskView { name: self.name@, done: self.done, period: self.period }
    }
}

impl TaskView {
    /// A task as it is right after creation on the given date: not done, and current.
    pub open spec fn created(name: Seq<char>, is_daily: bool, today: Today) -> TaskView {
        TaskView { name, done: false, period: Interval::started_on(is_daily, today) }
    }

    /// The task after the recurrence check on the given date. A stale task is reset to not done
    /// and its marker is moved to the date; any other task is left as it is.
    pub open spec fn refreshed(self, today: Today) -> TaskView {
        if self.period.stale(today) {
            TaskView { name: self.name, done: false, period: self.period.moved_to(today) }
        } else {
            self
        }
    }

    /// The task with its completion flag flipped.
    pub open spec fn toggled(self) -> TaskView {
        TaskView { name: self.name, done: !self.done, period: self.period }
    }
}

impl Default for Task {
    /// A daily task labelled "todo", not done, with the marker on the first of the month.
    fn default() -> (task: Task)
        ensures
            task@ == (TaskView { name: "todo"@, done: false, period: Interval::Daily(1) }),
    {
        Self { name: "todo".to_owned(), done: false, period: Interval::Daily(1) }
    }
}

impl Clone for Task {
    /// A copy with the same label, completion flag and period.
    fn clone(&self) -> (task: Task)
        ensures
            task == *self,
    {
        Task { name: self.name.clone(), done: self.done, period: self.period }
    }
}

impl Task {
    /// Creates a task on the given date: not done, daily or weekly as asked, and current.
    pub fn create(name: String, is_daily: bool, today: Today) -> (task: Task)
        ensures
            task@ == TaskView::created(name@, is_daily, today),
            task.name == name,
    {
        Task { name, done: false, period: Interval::starting(is_daily, today) }
    }

    /// Runs the recurrence check on the given date: if the task's period has rolled over, the
    /// task is reset to not done and its marker is moved to the date.
    pub fn refresh(&mut self, today: Today)
        ensures
            final(self)@ == old(self)@.refreshed(today),
            final(self).name == old(self).name,
    {
        match self.period {
            Interval::Daily(_) => {
                if self.period.extract() < today.day {
                    self.done = false;
                    self.period = Interval::Daily(today.day);
                }
            },
            Interval::Weekly(_) => {
                if self.period.extract() < today.week {
                    self.done = false;
                    self.period = Interval::Weekly(today.week);
                }
            },
        }
    }

    /// Flips the completion flag.
    pub fn toggle(&mut self)
        ensures
            final(self)@ == old(self)@.toggled(),
            final(self).name == old(self).name,
    {
        self.done = !self.done;
    }
}

} // verus!
