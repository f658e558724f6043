//! The external media player, as the core sees it.
//!
//! The player itself is an outside process; the core never talks to it
//! directly. Instead the caller reads the player's state into a
//! [`PlayerSnapshot`] before dispatching, hands player events in as
//! [`PlayerEvent`] values, and carries out the [`Action`]s the dispatch
//! functions return, in order.
use vstd::prelude::*;

use crate::proto::{CommandView, VoyeursCommand};

verus! {

/// How long, in milliseconds, an on-screen notice stays up.
pub const NOTICE_MILLIS: u64 = 2000;

/// The player's state at the moment a command is dispatched. Positions
/// and durations are the bit patterns of doubles in seconds, exactly as
/// they travel on the wire.
pub struct PlayerSnapshot {
    /// Whether playback is paused.
    pub pause: bool,
    /// Current playback position.
    pub playback_time: u64,
    /// Name of the file being played; empty when unknown.
    pub filename: String,
    /// Length of the file being played.
    pub duration: u64,
    /// The path or URL the player was given; empty when unknown.
    pub path: String,
}

/// Mathematical image of a [`PlayerSnapshot`].
pub struct PlayerSnapshotView {
    pub pause: bool,
    pub playback_time: u64,
    pub filename: Seq<char>,
    pub duration: u64,
    pub path: Seq<char>,
}

impl View for PlayerSnapshot {
    type V = PlayerSnapshotView;

    open spec fn view(&self) -> PlayerSnapshotView {
        PlayerSnapshotView {
            pause: self.pause,
            playback_time: self.playback_time,
            filename: self.filename@,
            duration: self.duration,
            path: self.path@,
        }
    }
}

/// One instruction to the caller, to be carried out in list order.
#[derive(Debug, Clone, PartialEq)]
pub enum Action {
    /// Pause (true) or resume (false) the player.
    SetPause(bool),
    /// Seek the player to an absolute position (bits of a double in
    /// seconds), retrying until the file is loaded.
    SeekTo(u64),
    /// Show an on-screen notice for the given number of milliseconds.
    ShowText(String, u64),
    /// Log a non-fatal warning.
    Warn(String),
    /// Load this path or URL into the player.
    LoadFile(String),
    /// Block until the player reports the load complete.
    AwaitFileLoaded,
    /// Encode the command and write it to the addressed peer.
    Send(u64, VoyeursCommand),
    /// Encode the command and write it to every peer, in room order.
    Broadcast(VoyeursCommand),
    /// As `Broadcast`, but skip the addressed peer.
    BroadcastExcluding(VoyeursCommand, u64),
    /// End the process; playback is over.
    Exit,
}

/// Mathematical image of an [`Action`].
pub enum ActionView {
    SetPause(bool),
    SeekTo(u64),
    ShowText(Seq<char>, u64),
    Warn(Seq<char>),
    LoadFile(Seq<char>),
    AwaitFileLoaded,
    Send(u64, CommandView),
    Broadcast(CommandView),
    BroadcastExcluding(CommandView, u64),
    Exit,
}

impl View for Action {
    type V = ActionView;

    open spec fn view(&self) -> ActionView {
        match self {
            Action::SetPause(p) => ActionView::SetPause(*p),
            Action::SeekTo(t) => ActionView::SeekTo(*t),
            Action::ShowText(s, ms) => ActionView::ShowText(s@, *ms),
            Action::Warn(s) => ActionView::Warn(s@),
            Action::LoadFile(s) => ActionView::LoadFile(s@),
            Action::AwaitFileLoaded => ActionView::AwaitFileLoaded,
            Action::Send(addr, c) => ActionView::Send(*addr, c@),
            Action::Broadcast(c) => ActionView::Broadcast(c@),
            Action::BroadcastExcluding(c, addr) => ActionView::BroadcastExcluding(c@, *addr),
            Action::Exit => ActionView::Exit,
        }
    }
}

/// The mathematical image of an action list.
pub open spec fn actions_view(v: Vec<Action>) -> Seq<ActionView> {
    v@.map_values(|a: Action| a@)
}

/// One event from the player's event stream, as the bridge consumes it.
#[derive(Debug, Clone, Copy, PartialEq, Eq, Structural)]
pub enum PlayerEvent {
    /// The player is shutting down.
    Shutdown,
    /// Playback reached the end of the file.
    EndFile,
    /// The pause property changed to this value.
    PauseChange(bool),
    /// The seeking property changed: true while buffering, false once
    /// a seek lands.
    Seeking(bool),
    /// Anything else the player may emit; the bridge lets it pass.
    Other,
}

} // verus!
