//! Recurring to-do items that reset themselves when a new day or ISO week begins.
//!
//! A [`TemplateApp`] is the task store: it hands out identifiers in increasing order, keeps the
//! tasks in that order, and runs the recurrence check over them. A [`Task`] is done or not done
//! for the period that its [`Interval`] marks; [`Today`] is the date the check compares with.
//! [`StoreView`] says what each operation does, [`laws`] and [`history`] say what follows from
//! that. [`WrapApp`] is the state of the frame around the task list.

pub mod ascending;
pub mod history;
pub mod interval;
pub mod laws;
pub mod model;
pub mod store;
pub mod task;
pub mod today;
pub mod wrap_app;

pub use crate::interval::Interval;
pub use crate::model::StoreView;
pub use crate::store::TemplateApp;
pub use crate::task::{Task, TaskView};
pub use crate::today::Today;
pub use crate::wrap_app::{Anchor, WrapApp};
