//! The decisions behind Otoha, a menu-bar app that reads the current selection aloud through a
//! local speech server, and that mirrors a reader plugin.
//!
//! Here stands, with its contract, what the app decides: what its texts mean, which steps it takes
//! and in which order, and what its menu bar shows. Left to the app are the speeds on offer, which
//! are floating-point numbers, and the format of its settings file. Where a procedure alternates
//! decisions and effects it is a state machine: its state says what is to be done next, `next` takes
//! in what came of it, and whoever runs it has the effects. The proof functions whose names begin
//! with `law_` state what holds of whole runs.

pub mod capture;
pub mod menu;
pub mod net;
pub mod obsidian;
pub mod playback;
pub mod server;
pub mod settings;
pub mod speech;
pub mod text;
pub mod ui;
pub mod update;
pub mod voice;
