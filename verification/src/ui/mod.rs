//! The logic of the desktop front end that does not depend on a toolkit:
//! the search screen's state machine, the status bar texts and the theme's
//! style sheet.
pub mod search;
pub mod status;
pub mod theme;

pub use search::{SearchState, UiAction};
pub use status::{pagination, ready_status};
pub use theme::{generate_css, uses_dark_css, ColorTheme};
