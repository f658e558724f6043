//! Dispatch of one inbound command against the room and the player.
//!
//! A session loop outside the crate reads frames from its socket,
//! snapshots the player, and calls [`handle_command`] under the room
//! lock; the returned [`Reaction`] tells it what to do next. What each
//! command does is a mathematical function of the room, the settings,
//! the sender, and the player snapshot: [`spec_dispatch`]. The
//! readiness barrier, the echo-suppression arming, the hub fan-out and
//! the username gate are all consequences of that function, proved
//! below.
use vstd::prelude::*;

use crate::player::{actions_view, Action, ActionView, PlayerSnapshot, PlayerSnapshotView,
    NOTICE_MILLIS};
use crate::proto::{CommandView, VoyeursCommand};
use crate::room::{targets_excluding, Settings, SettingsView, Shared, SharedView};
use vstd::string::{StrSliceExecFns, StringExecFns};

verus! {

/// Whether a character counts as alphanumeric, as the Unicode tables
/// have it. Named only: the tables are the definition.
pub uninterp spec fn is_alphanum(c: char) -> bool;

/// Relies on `char::is_alphanumeric`: a property of the character
/// alone, the same on every machine.
#[verifier::external_body]
fn char_is_alphanumeric(c: char) -> (r: bool)
    ensures
        r == is_alphanum(c),
{
    c.is_alphanumeric()
}

/// Whether a string parses as a well-formed absolute URL. Named only:
/// the URL grammar is the definition.
pub uninterp spec fn is_url(s: Seq<char>) -> bool;

/// Relies on `url::Url::parse`: whether a string parses as an absolute
/// URL is a function of the characters alone.
#[verifier::external_body]
fn parses_as_url(s: &str) -> (r: bool)
    ensures
        r == is_url(s@),
{
    url::Url::parse(s).is_ok()
}

/// A username is acceptable when every character is alphanumeric; the
/// empty username passes vacuously.
pub open spec fn spec_username_valid(name: Seq<char>) -> bool {
    forall|i: int| 0 <= i < name.len() ==> is_alphanum(name[i])
}

/// Checks a username character by character.
pub fn username_valid(name: &str) -> (r: bool)
    ensures
        r == spec_username_valid(name@),
{
    let n: usize = name.unicode_len();
    let mut i: usize = 0;
    while i < n
        invariant
            0 <= i <= n,
            n == name@.len(),
            forall|j: int| 0 <= j < i ==> is_alphanum(name@[j]),
        decreases n - i,
    {
        let c = name.get_char(i);
        if !char_is_alphanumeric(c) {
            assert(!is_alphanum(name@[i as int]));
            return false;
        }
        i = i + 1;
    }
    true
}

/// The hub's answer to `GetStreamName`, given whether its source path
/// parsed as a URL: the path itself, or the empty string for "no
/// stream available".
pub fn stream_name_reply(path: &String, path_is_url: bool) -> (r: VoyeursCommand)
    ensures
        r@ == CommandView::StreamName(
            if path_is_url {
                path@
            } else {
                Seq::<char>::empty()
            },
        ),
{
    if path_is_url {
        VoyeursCommand::StreamName(path.clone())
    } else {
        VoyeursCommand::StreamName(String::new())
    }
}

/// What one dispatch does: the room afterwards, the instructions to
/// carry out in order, and whether to close the connection.
pub struct StepView {
    pub room: SharedView,
    pub actions: Seq<ActionView>,
    pub close: bool,
}

/// An inbound readiness report. In standalone mode the peer vote is
/// ignored: the local player is simply put in the reported state (echo
/// suppressed) and, on a hub, the report fans out. Otherwise the
/// sender's bit is recorded first. A `false` pauses the local player if
/// it was playing and, on a hub, warns the other peers. A `true`
/// resumes playback only behind the barrier: this process ready and
/// every peer ready; resumption is echo-suppressed, and a hub tells
/// everyone.
pub open spec fn spec_on_ready(
    r: SharedView,
    st: SettingsView,
    addr: u64,
    flag: bool,
    p: PlayerSnapshotView,
) -> StepView {
    if st.standalone {
        let toggles = p.pause == flag;
        StepView {
            room: if toggles {
                (SharedView { ignore_next: true, ..r })
            } else {
                r
            },
            actions: (if toggles {
                seq![ActionView::SetPause(!flag)]
            } else {
                Seq::empty()
            }) + (if st.is_serving {
                seq![ActionView::Broadcast(CommandView::Ready(flag))]
            } else {
                Seq::empty()
            }),
            close: false,
        }
    } else {
        let r1 = r.set_peer_ready(addr, flag);
        if !flag {
            let toggles = !p.pause;
            StepView {
                room: if toggles {
                    (SharedView { ignore_next: true, ..r1 })
                } else {
                    r1
                },
                actions: (if toggles {
                    seq![ActionView::SetPause(true)]
                } else {
                    Seq::empty()
                }) + (if st.is_serving {
                    seq![ActionView::BroadcastExcluding(CommandView::Ready(false), addr)]
                } else {
                    Seq::empty()
                }),
                close: false,
            }
        } else if r1.is_ready && r1.all_ready() {
            let toggles = p.pause;
            StepView {
                room: if toggles {
                    (SharedView { ignore_next: true, ..r1 })
                } else {
                    r1
                },
                actions: (if toggles {
                    seq![ActionView::SetPause(false)]
                } else {
                    Seq::empty()
                }) + (if st.is_serving {
                    seq![ActionView::Broadcast(CommandView::Ready(true))]
                } else {
                    Seq::empty()
                }),
                close: false,
            }
        } else {
            StepView { room: r1, actions: Seq::empty(), close: false }
        }
    }
}

/// An inbound seek. A position equal to the player's current one is an
/// echo and does nothing. Otherwise the suppression flag is armed, the
/// player is moved, and a hub forwards the seek to every peer but the
/// sender.
pub open spec fn spec_on_seek(
    r: SharedView,
    st: SettingsView,
    addr: u64,
    t: u64,
    p: PlayerSnapshotView,
) -> StepView {
    if t != p.playback_time {
        StepView {
            room: (SharedView { ignore_next: true, ..r }),
            actions: seq![ActionView::SeekTo(t)] + (if st.is_serving {
                seq![ActionView::BroadcastExcluding(CommandView::Seek(t), addr)]
            } else {
                Seq::empty()
            }),
            close: false,
        }
    } else {
        StepView { room: r, actions: Seq::empty(), close: false }
    }
}

/// An inbound handshake. A username with any non-alphanumeric
/// character closes the connection without a reply. Otherwise the
/// username is recorded and the sender is brought up to date: the
/// player pauses, a notice names the newcomer, and the sender receives
/// the filename, the duration, the position, and the readiness the
/// player had when it was snapshotted, in that order.
pub open spec fn spec_on_new_connection(
    r: SharedView,
    st: SettingsView,
    addr: u64,
    name: Seq<char>,
    p: PlayerSnapshotView,
) -> StepView {
    if !spec_username_valid(name) {
        StepView { room: r, actions: Seq::empty(), close: true }
    } else {
        StepView {
            room: r.set_peer_username(addr, name),
            actions: seq![
                ActionView::SetPause(true),
                ActionView::ShowText(name + ": connected"@, NOTICE_MILLIS),
                ActionView::Send(addr, CommandView::Filename(p.filename)),
                ActionView::Send(addr, CommandView::Duration(p.duration)),
                ActionView::Send(addr, CommandView::Seek(p.playback_time)),
                ActionView::Send(addr, CommandView::Ready(!p.pause)),
            ],
            close: false,
        }
    }
}

/// An inbound request for the source URL. Only a hub answers: with its
/// player's path when that parses as a URL, and with the empty string
/// otherwise.
pub open spec fn spec_on_get_stream_name(
    r: SharedView,
    st: SettingsView,
    addr: u64,
    p: PlayerSnapshotView,
) -> StepView {
    if st.is_serving {
        StepView {
            room: r,
            actions: seq![
                ActionView::Send(
                    addr,
                    CommandView::StreamName(
                        if is_url(p.path) {
                            p.path
                        } else {
                            Seq::<char>::empty()
                        },
                    ),
                ),
            ],
            close: false,
        }
    } else {
        StepView { room: r, actions: Seq::empty(), close: false }
    }
}

/// An inbound source URL, meaningful only to a process configured to
/// play the hub's content. An empty URL means the hub has no stream:
/// warn and do nothing. Otherwise load it, wait for the player to
/// finish loading, and begin the normal join sequence by sending the
/// handshake.
pub open spec fn spec_on_stream_name(
    r: SharedView,
    st: SettingsView,
    addr: u64,
    url: Seq<char>,
) -> StepView {
    if st.accept_source {
        if url.len() == 0 {
            StepView {
                room: r,
                actions: seq![ActionView::Warn("server is not streaming from a valid url"@)],
                close: false,
            }
        } else {
            StepView {
                room: r,
                actions: seq![
                    ActionView::LoadFile(url),
                    ActionView::AwaitFileLoaded,
                    ActionView::Send(addr, CommandView::NewConnection(st.username)),
                ],
                close: false,
            }
        }
    } else {
        StepView { room: r, actions: Seq::empty(), close: false }
    }
}

/// An inbound filename report: a mismatch with the local player's file
/// is worth a notice, never a disconnect.
pub open spec fn spec_on_filename(r: SharedView, f: Seq<char>, p: PlayerSnapshotView) -> StepView {
    if f != p.filename {
        StepView {
            room: r,
            actions: seq![
                ActionView::ShowText(
                    "filename does not match with server's filename"@,
                    NOTICE_MILLIS,
                ),
            ],
            close: false,
        }
    } else {
        StepView { room: r, actions: Seq::empty(), close: false }
    }
}

/// An inbound duration report: as with filenames, a mismatch is only a
/// notice.
pub open spec fn spec_on_duration(r: SharedView, d: u64, p: PlayerSnapshotView) -> StepView {
    if d != p.duration {
        StepView {
            room: r,
            actions: seq![
                ActionView::ShowText(
                    "duration does not match with server's duration"@,
                    NOTICE_MILLIS,
                ),
            ],
            close: false,
        }
    } else {
        StepView { room: r, actions: Seq::empty(), close: false }
    }
}

/// What dispatching a command does, by command.
pub open spec fn spec_dispatch(
    r: SharedView,
    st: SettingsView,
    addr: u64,
    c: CommandView,
    p: PlayerSnapshotView,
) -> StepView {
    match c {
        CommandView::NewConnection(name) => spec_on_new_connection(r, st, addr, name, p),
        CommandView::Ready(flag) => spec_on_ready(r, st, addr, flag, p),
        CommandView::Seek(t) => spec_on_seek(r, st, addr, t, p),
        CommandView::Filename(f) => spec_on_filename(r, f, p),
        CommandView::Duration(d) => spec_on_duration(r, d, p),
        CommandView::StreamName(url) => spec_on_stream_name(r, st, addr, url),
        CommandView::GetStreamName => spec_on_get_stream_name(r, st, addr, p),
    }
}

/// What the session loop must do after one dispatch: the instructions,
/// in order, and whether to tear the connection down.
pub struct Reaction {
    pub actions: Vec<Action>,
    pub close: bool,
}

/// Applies one inbound command: mutates the room as [`spec_dispatch`]
/// says and returns exactly the instructions it lists.
pub fn handle_command(
    room: &mut Shared,
    settings: &Settings,
    addr: u64,
    cmd: &VoyeursCommand,
    player: &PlayerSnapshot,
) -> (r: Reaction)
    requires
        old(room)@.wf(),
    ensures
        final(room)@.wf(),
        ({
            let step = spec_dispatch(old(room)@, settings@, addr, cmd@, player@);
            final(room)@ == step.room && actions_view(r.actions) == step.actions && r.close
                == step.close
        }),
{
    let ghost step = spec_dispatch(old(room)@, settings@, addr, cmd@, player@);
    match cmd {
        VoyeursCommand::Ready(flag) => {
            let flag: bool = *flag;
            let mut actions: Vec<Action> = Vec::new();
            if settings.standalone {
                if player.pause == flag {
                    room.ignore_next = true;
                    actions.push(Action::SetPause(!flag));
                }
                if settings.is_serving {
                    actions.push(Action::Broadcast(VoyeursCommand::Ready(flag)));
                }
            } else {
                room.set_peer_ready(addr, flag);
                if !flag {
                    if !player.pause {
                        room.ignore_next = true;
                        actions.push(Action::SetPause(true));
                    }
                    if settings.is_serving {
                        actions.push(
                            Action::BroadcastExcluding(VoyeursCommand::Ready(false), addr),
                        );
                    }
                } else {
                    if room.is_ready && room.all_ready() {
                        if player.pause {
                            room.ignore_next = true;
                            actions.push(Action::SetPause(false));
                        }
                        if settings.is_serving {
                            actions.push(Action::Broadcast(VoyeursCommand::Ready(true)));
                        }
                    }
                }
            }
            proof {
                assert(actions_view(actions) =~= step.actions);
            }
            Reaction { actions, close: false }
        },
        VoyeursCommand::Seek(t) => {
            let t: u64 = *t;
            let mut actions: Vec<Action> = Vec::new();
            if t != player.playback_time {
                room.ignore_next = true;
                actions.push(Action::SeekTo(t));
                if settings.is_serving {
                    actions.push(Action::BroadcastExcluding(VoyeursCommand::Seek(t), addr));
                }
            }
            proof {
                assert(actions_view(actions) =~= step.actions);
            }
            Reaction { actions, close: false }
        },
        VoyeursCommand::NewConnection(name) => {
            if !username_valid(name.as_str()) {
                let actions: Vec<Action> = Vec::new();
                proof {
                    assert(actions_view(actions) =~= step.actions);
                }
                Reaction { actions, close: true }
            } else {
                room.set_peer_username(addr, name.clone());
                let mut actions: Vec<Action> = Vec::new();
                actions.push(Action::SetPause(true));
                actions.push(Action::ShowText(name.clone().concat(": connected"), NOTICE_MILLIS));
                actions.push(Action::Send(addr, VoyeursCommand::Filename(player.filename.clone())));
                actions.push(Action::Send(addr, VoyeursCommand::Duration(player.duration)));
                actions.push(Action::Send(addr, VoyeursCommand::Seek(player.playback_time)));
                actions.push(Action::Send(addr, VoyeursCommand::Ready(!player.pause)));
                proof {
                    assert(actions_view(actions) =~= step.actions);
                }
                Reaction { actions, close: false }
            }
        },
        VoyeursCommand::Filename(f) => {
            let mut actions: Vec<Action> = Vec::new();
            if !(*f == player.filename) {
                actions.push(
                    Action::ShowText(
                        String::from_str("filename does not match with server's filename"),
                        NOTICE_MILLIS,
                    ),
                );
            }
            proof {
                assert(actions_view(actions) =~= step.actions);
            }
            Reaction { actions, close: false }
        },
        VoyeursCommand::Duration(d) => {
            let mut actions: Vec<Action> = Vec::new();
            if *d != player.duration {
                actions.push(
                    Action::ShowText(
                        String::from_str("duration does not match with server's duration"),
                        NOTICE_MILLIS,
                    ),
                );
            }
            proof {
                assert(actions_view(actions) =~= step.actions);
            }
            Reaction { actions, close: false }
        },
        VoyeursCommand::StreamName(url) => {
            let mut actions: Vec<Action> = Vec::new();
            if settings.accept_source {
                if url.as_str().is_empty() {
                    actions.push(
                        Action::Warn(
                            String::from_str("server is not streaming from a valid url"),
                        ),
                    );
                } else {
                    actions.push(Action::LoadFile(url.clone()));
                    actions.push(Action::AwaitFileLoaded);
                    actions.push(
                        Action::Send(
                            addr,
                            VoyeursCommand::NewConnection(settings.username.clone()),
                        ),
                    );
                }
            }
            proof {
                assert(actions_view(actions) =~= step.actions);
            }
            Reaction { actions, close: false }
        },
        VoyeursCommand::GetStreamName => {
            let mut actions: Vec<Action> = Vec::new();
            if settings.is_serving {
                let ok = parses_as_url(player.path.as_str());
                let reply = stream_name_reply(&player.path, ok);
                actions.push(Action::Send(addr, reply));
            }
            proof {
                assert(actions_view(actions) =~= step.actions);
            }
            Reaction { actions, close: false }
        },
    }
}

/// Readiness barrier, blocking half: as long as any peer other than the
/// sender still reports not ready, an incoming `Ready(true)` records
/// the sender's bit and does nothing else — in particular it never
/// resumes the local player.
pub proof fn lemma_barrier_blocks(
    r: SharedView,
    st: SettingsView,
    addr: u64,
    p: PlayerSnapshotView,
    i: int,
)
    requires
        !st.standalone,
        0 <= i < r.peers.len(),
        r.peers[i].0 != addr,
        !r.peers[i].1.ready,
    ensures
        spec_on_ready(r, st, addr, true, p).actions == Seq::<ActionView>::empty(),
        spec_on_ready(r, st, addr, true, p).room == r.set_peer_ready(addr, true),
{
    let r1 = r.set_peer_ready(addr, true);
    assert(r1.peers[i] == r.peers[i]);
    assert(!r1.all_ready());
}

/// Readiness barrier, completing half: when the local process is ready,
/// its player paused, and every peer other than the sender already
/// ready, the sender's `Ready(true)` resumes playback exactly once —
/// one echo-suppressed unpause, and on a hub one broadcast of the good
/// news.
pub proof fn lemma_barrier_completes(
    r: SharedView,
    st: SettingsView,
    addr: u64,
    p: PlayerSnapshotView,
)
    requires
        !st.standalone,
        r.is_ready,
        p.pause,
        forall|i: int|
            0 <= i < r.peers.len() && r.peers[i].0 != addr ==> r.peers[i].1.ready,
    ensures
        spec_on_ready(r, st, addr, true, p).actions == seq![ActionView::SetPause(false)] + (
        if st.is_serving {
            seq![ActionView::Broadcast(CommandView::Ready(true))]
        } else {
            Seq::<ActionView>::empty()
        }),
        spec_on_ready(r, st, addr, true, p).room.ignore_next,
{
    let r1 = r.set_peer_ready(addr, true);
    assert forall|i: int| 0 <= i < r1.peers.len() implies r1.peers[i].1.ready by {
        if r.peers[i].0 == addr {
            assert(r1.peers[i].1.ready);
        } else {
            assert(r.peers[i].1.ready);
        }
    }
    assert(r1.all_ready());
}

/// Hub fan-out: a seek that changes the position, received by a hub
/// from one peer, is forwarded to every other peer and never echoed
/// back to the sender.
pub proof fn lemma_hub_fanout(
    r: SharedView,
    st: SettingsView,
    addr: u64,
    t: u64,
    p: PlayerSnapshotView,
)
    requires
        st.is_serving,
        t != p.playback_time,
    ensures
        spec_on_seek(r, st, addr, t, p).actions == seq![
            ActionView::SeekTo(t),
            ActionView::BroadcastExcluding(CommandView::Seek(t), addr),
        ],
        forall|i: int|
            0 <= i < r.peers.len() && r.peers[i].0 != addr ==> targets_excluding(
                r.peers,
                addr,
            ).contains(r.peers[i].0),
        forall|j: int|
            0 <= j < targets_excluding(r.peers, addr).len() ==> targets_excluding(r.peers, addr)[j]
                != addr,
{
    assert(spec_on_seek(r, st, addr, t, p).actions =~= seq![
        ActionView::SeekTo(t),
        ActionView::BroadcastExcluding(CommandView::Seek(t), addr),
    ]);
    assert forall|i: int|
        0 <= i < r.peers.len() && r.peers[i].0 != addr implies targets_excluding(
        r.peers,
        addr,
    ).contains(r.peers[i].0) by {
        crate::room::lemma_targets_excluding_complete(r.peers, addr, i);
    }
    assert forall|j: int| 0 <= j < targets_excluding(r.peers, addr).len() implies targets_excluding(
        r.peers,
        addr,
    )[j] != addr by {
        crate::room::lemma_targets_excluding_sound(r.peers, addr, j);
    }
}

/// Username gate: a handshake whose username fails validation closes
/// the connection without a reply and without touching the room; a
/// valid one never closes it.
pub proof fn lemma_username_gate(
    r: SharedView,
    st: SettingsView,
    addr: u64,
    name: Seq<char>,
    p: PlayerSnapshotView,
)
    ensures
        !spec_username_valid(name) ==> spec_on_new_connection(r, st, addr, name, p) == (StepView {
            room: r,
            actions: Seq::<ActionView>::empty(),
            close: true,
        }),
        spec_username_valid(name) ==> !spec_on_new_connection(r, st, addr, name, p).close,
{
}

} // verus!
