//! The interactive shell.

pub mod catalogue;
pub mod command;
pub mod drawing;
pub mod help;
pub mod history;
pub mod info;
pub mod language;
pub mod layout;
pub mod line;
pub mod listing;
pub mod messages;
pub mod nearest;
pub mod queue;
pub mod reader;
pub mod results;
pub mod session;
pub mod suggestions;
pub mod transport;
pub mod welcome;
