//! Filesystem watching: the events the watcher reports and the decisions
//! it takes on them.
//!
//! Receiving notifications from the operating system and updating the
//! index happen outside this module; the [`WatcherState`] keeps the watched
//! directories and decides what each event asks of the index.
pub mod events;
pub mod state;

pub use events::{events_for, events_of_notification, ChangeKind, WatchEvent};
pub use state::{WatchAction, WatcherState};
