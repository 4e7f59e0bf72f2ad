//! Application-level phases shared with the host.
use vstd::prelude::*;

verus! {

/// Top-level screen of the application.
#[derive(Debug, Clone, Copy, PartialEq, Eq, Structural, Hash, Default)]
pub enum AppState {
    #[default]
    Menu,
}

/// Whether the hosted game is running or paused.
#[derive(Debug, Clone, Copy, PartialEq, Eq, Structural, Hash, Default)]
pub enum GameState {
    #[default]
    Playing,
    Paused,
}

} // verus!
