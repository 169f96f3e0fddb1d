pub mod action;
pub mod dictionary;
pub mod hints;
pub mod laws;
pub mod phase;
pub mod player;
pub mod state;
pub mod view;
