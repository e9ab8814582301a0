//! Resolution of free-text menu entries for an interactive terminal tutorial.
//!
//! A line typed at the menu selects the first topic, in menu order, whose
//! label contains the typed text as a contiguous run of letters, whatever the
//! case of the letters typed.

pub mod demos;
pub mod matcher;
pub mod menu;
pub mod pattern;
pub mod resolver;
pub mod text;

pub use demos::{demonstrate_enums, demonstrate_reliability, demonstrate_structs};
pub use matcher::{match_substring, try_match_substring};
pub use menu::Menu;
pub use resolver::resolve;
