//! An in-memory habit tracker: habits are created from free-text names,
//! identified by a slug derived from the name, and marked complete on
//! calendar dates. Every operation carries a contract over the view of the
//! store, a sequence of habit records.

pub mod date;
pub mod error;
pub mod frequency;
pub mod laws;
pub mod model;
pub mod report;
pub mod shell;
pub mod slug;
pub mod store;
pub mod text;

pub use crate::date::Date;
pub use crate::error::StoreError;
pub use crate::frequency::FrequencyHabit;
pub use crate::shell::MenuOption;
pub use crate::store::Completion;
pub use crate::store::HabitStore;
pub use crate::store::HabitSummary;
