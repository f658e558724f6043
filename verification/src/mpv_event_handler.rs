//! The player-event bridge: local player changes become outbound
//! commands.
//!
//! One loop per process, outside the crate, blocks on the player's
//! event stream and calls [`handle_player_event`] under the room lock
//! for each event. The bridge is where echo suppression acts: a state
//! change that an inbound command caused arms the room's one-shot
//! flag, and the bridge swallows exactly the next event instead of
//! broadcasting it back out.
use vstd::prelude::*;

use crate::client_message_handler::StepView;
use crate::player::{actions_view, Action, ActionView, PlayerEvent, PlayerSnapshot,
    PlayerSnapshotView, NOTICE_MILLIS};
use crate::proto::{CommandView, VoyeursCommand};
use crate::room::{Shared, SharedView};
use vstd::string::StringExecFns;

verus! {

/// What one player event does, once the suppression flag has had its
/// say. Shutdown and end-of-file end the process. A pause change runs
/// the readiness rules: in standalone mode the new state is simply
/// announced; otherwise the process's own readiness is set, a pause is
/// announced as `Ready(false)`, and an unpause is held to the barrier —
/// if some peer is not ready the player is re-paused (suppressed, with
/// a notice) and the peers are told `Ready(false)`, else `Ready(true)`
/// goes out. A completed seek broadcasts the new position; a seek still
/// buffering, and anything else, does nothing.
pub open spec fn spec_bridge_event(
    r: SharedView,
    standalone: bool,
    ev: PlayerEvent,
    p: PlayerSnapshotView,
) -> StepView {
    match ev {
        PlayerEvent::Shutdown => StepView {
            room: r,
            actions: seq![ActionView::Exit],
            close: false,
        },
        PlayerEvent::EndFile => StepView {
            room: r,
            actions: seq![ActionView::Exit],
            close: false,
        },
        PlayerEvent::PauseChange(paused) => {
            if standalone {
                StepView {
                    room: r,
                    actions: seq![ActionView::Broadcast(CommandView::Ready(!paused))],
                    close: false,
                }
            } else {
                let r1 = SharedView { is_ready: !paused, ..r };
                if paused {
                    StepView {
                        room: r1,
                        actions: seq![ActionView::Broadcast(CommandView::Ready(false))],
                        close: false,
                    }
                } else if !r1.all_ready() {
                    StepView {
                        room: (SharedView { ignore_next: true, ..r1 }),
                        actions: seq![
                            ActionView::ShowText("Somebody isn't ready"@, NOTICE_MILLIS),
                            ActionView::SetPause(true),
                            ActionView::Broadcast(CommandView::Ready(false)),
                        ],
                        close: false,
                    }
                } else {
                    StepView {
                        room: r1,
                        actions: seq![ActionView::Broadcast(CommandView::Ready(true))],
                        close: false,
                    }
                }
            }
        },
        PlayerEvent::Seeking(in_progress) => {
            if in_progress {
                StepView { room: r, actions: Seq::empty(), close: false }
            } else {
                StepView {
                    room: r,
                    actions: seq![ActionView::Broadcast(CommandView::Seek(p.playback_time))],
                    close: false,
                }
            }
        },
        PlayerEvent::Other => StepView { room: r, actions: Seq::empty(), close: false },
    }
}

/// What one player event does. An armed suppression flag swallows the
/// event whole — the flag clears, nothing is broadcast — and every
/// later event is processed by [`spec_bridge_event`].
pub open spec fn spec_bridge(
    r: SharedView,
    standalone: bool,
    ev: PlayerEvent,
    p: PlayerSnapshotView,
) -> StepView {
    if r.ignore_next {
        StepView {
            room: (SharedView { ignore_next: false, ..r }),
            actions: Seq::empty(),
            close: false,
        }
    } else {
        spec_bridge_event(r, standalone, ev, p)
    }
}

/// Applies one player event: mutates the room as [`spec_bridge`] says
/// and returns exactly the instructions it lists.
pub fn handle_player_event(
    room: &mut Shared,
    standalone: bool,
    ev: &PlayerEvent,
    player: &PlayerSnapshot,
) -> (r: Vec<Action>)
    requires
        old(room)@.wf(),
    ensures
        final(room)@.wf(),
        final(room)@ == spec_bridge(old(room)@, standalone, *ev, player@).room,
        actions_view(r) == spec_bridge(old(room)@, standalone, *ev, player@).actions,
{
    let ghost step = spec_bridge(room@, standalone, *ev, player@);
    let mut actions: Vec<Action> = Vec::new();
    if room.ignore_next {
        room.ignore_next = false;
        proof {
            assert(actions_view(actions) =~= step.actions);
        }
        return actions;
    }
    match ev {
        PlayerEvent::Shutdown => {
            actions.push(Action::Exit);
        },
        PlayerEvent::EndFile => {
            actions.push(Action::Exit);
        },
        PlayerEvent::PauseChange(paused) => {
            let paused: bool = *paused;
            if standalone {
                actions.push(Action::Broadcast(VoyeursCommand::Ready(!paused)));
            } else {
                room.is_ready = !paused;
                if paused {
                    actions.push(Action::Broadcast(VoyeursCommand::Ready(false)));
                } else if !room.all_ready() {
                    actions.push(
                        Action::ShowText(String::from_str("Somebody isn't ready"), NOTICE_MILLIS),
                    );
                    room.ignore_next = true;
                    actions.push(Action::SetPause(true));
                    actions.push(Action::Broadcast(VoyeursCommand::Ready(false)));
                } else {
                    actions.push(Action::Broadcast(VoyeursCommand::Ready(true)));
                }
            }
        },
        PlayerEvent::Seeking(in_progress) => {
            if !*in_progress {
                actions.push(Action::Broadcast(VoyeursCommand::Seek(player.playback_time)));
            }
        },
        PlayerEvent::Other => {
        },
    }
    proof {
        assert(actions_view(actions) =~= step.actions);
    }
    actions
}

/// Echo suppression is one-shot: while the flag is armed, the very next
/// player event — whatever it is — is swallowed with no outward effect
/// and disarms the flag, so the event after that is processed normally.
pub proof fn lemma_one_shot_suppression(
    r: SharedView,
    standalone: bool,
    e1: PlayerEvent,
    p1: PlayerSnapshotView,
    e2: PlayerEvent,
    p2: PlayerSnapshotView,
)
    requires
        r.ignore_next,
    ensures
        spec_bridge(r, standalone, e1, p1).actions == Seq::<ActionView>::empty(),
        !spec_bridge(r, standalone, e1, p1).room.ignore_next,
        spec_bridge(spec_bridge(r, standalone, e1, p1).room, standalone, e2, p2)
            == spec_bridge_event(spec_bridge(r, standalone, e1, p1).room, standalone, e2, p2),
{
}

/// An inbound seek to a new position arms the suppression flag, so the
/// player event it causes is not rebroadcast.
pub proof fn lemma_inbound_seek_arms_suppression(
    r: SharedView,
    st: crate::room::SettingsView,
    addr: u64,
    t: u64,
    p: PlayerSnapshotView,
)
    requires
        t != p.playback_time,
    ensures
        crate::client_message_handler::spec_on_seek(r, st, addr, t, p).room.ignore_next,
{
}

/// An inbound readiness report that changes the player's pause state
/// arms the suppression flag, so the player event it causes is not
/// rebroadcast.
pub proof fn lemma_inbound_ready_arms_suppression(
    r: SharedView,
    st: crate::room::SettingsView,
    addr: u64,
    flag: bool,
    p: PlayerSnapshotView,
)
    requires
        !st.standalone,
        !flag ==> !p.pause,
        flag ==> p.pause && r.is_ready && r.set_peer_ready(addr, true).all_ready(),
    ensures
        crate::client_message_handler::spec_on_ready(r, st, addr, flag, p).room.ignore_next,
{
}

} // verus!
