pub mod actions;
pub mod agents;
pub mod brief;
pub mod calls;
pub mod chat;
pub mod conductor;
pub mod daemons;
pub mod json;
pub mod models;
pub mod paths;
pub mod pattern;
pub mod prompt;
pub mod reply;
pub mod sentences;
pub mod settings;
pub mod setup;
pub mod speech;
pub mod state;
pub mod text;
pub mod turn;
pub mod version;
