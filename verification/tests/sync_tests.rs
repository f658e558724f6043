use voyeurs::client_message_handler::handle_command;
use voyeurs::mpv_event_handler::handle_player_event;
use voyeurs::player::{Action, PlayerEvent, PlayerSnapshot};
use voyeurs::proto::VoyeursCommand;
use voyeurs::room::{Settings, Shared};

fn hub_settings() -> Settings {
    Settings {
        is_serving: true,
        username: "user".to_string(),
        accept_source: false,
        standalone: false,
    }
}

fn client_settings() -> Settings {
    Settings {
        is_serving: false,
        username: "user".to_string(),
        accept_source: false,
        standalone: false,
    }
}

fn snapshot(pause: bool, position: f64) -> PlayerSnapshot {
    PlayerSnapshot {
        pause,
        playback_time: position.to_bits(),
        filename: "movie.mkv".to_string(),
        duration: (3600.0f64).to_bits(),
        path: "/tmp/movie.mkv".to_string(),
    }
}

fn unpauses(actions: &[Action]) -> usize {
    actions
        .iter()
        .filter(|a| matches!(a, Action::SetPause(false)))
        .count()
}

#[test]
fn barrier_waits_for_the_last_peer() {
    let mut room = Shared::new();
    let settings = hub_settings();
    let paused = snapshot(true, 0.0);
    for addr in [1, 2, 3] {
        room.add_peer(addr);
        room.set_peer_ready(addr, true);
    }
    room.is_ready = true;

    // peer 1 reports not ready
    let r = handle_command(&mut room, &settings, 1, &VoyeursCommand::Ready(false), &paused);
    assert_eq!(unpauses(&r.actions), 0);

    // the other two peers report ready: still no resumption
    let r = handle_command(&mut room, &settings, 2, &VoyeursCommand::Ready(true), &paused);
    assert_eq!(unpauses(&r.actions), 0);
    let r = handle_command(&mut room, &settings, 3, &VoyeursCommand::Ready(true), &paused);
    assert_eq!(unpauses(&r.actions), 0);

    // the hold-out comes around: exactly one unpause, announced to all
    let r = handle_command(&mut room, &settings, 1, &VoyeursCommand::Ready(true), &paused);
    assert_eq!(
        r.actions,
        vec![
            Action::SetPause(false),
            Action::Broadcast(VoyeursCommand::Ready(true)),
        ]
    );
    assert_eq!(unpauses(&r.actions), 1);
}

#[test]
fn barrier_needs_local_readiness_too() {
    let mut room = Shared::new();
    let settings = hub_settings();
    let paused = snapshot(true, 0.0);
    room.add_peer(1);
    room.is_ready = false;

    let r = handle_command(&mut room, &settings, 1, &VoyeursCommand::Ready(true), &paused);
    assert_eq!(unpauses(&r.actions), 0);
    assert!(r.actions.is_empty());
}

#[test]
fn inbound_seek_is_suppressed_once() {
    let mut room = Shared::new();
    let settings = client_settings();
    let playing = snapshot(false, 10.0);
    room.add_peer(1);

    // an inbound seek to a new position arms the one-shot flag
    let t = (25.0f64).to_bits();
    let r = handle_command(&mut room, &settings, 1, &VoyeursCommand::Seek(t), &playing);
    assert_eq!(r.actions, vec![Action::SeekTo(t)]);
    assert!(room.ignore_next);

    // the player event that seek causes is swallowed, not rebroadcast
    let after_seek = snapshot(false, 25.0);
    let acts = handle_player_event(&mut room, false, &PlayerEvent::Seeking(false), &after_seek);
    assert!(acts.is_empty());
    assert!(!room.ignore_next);

    // the next local event goes out normally
    let later = snapshot(false, 30.0);
    let acts = handle_player_event(&mut room, false, &PlayerEvent::Seeking(false), &later);
    assert_eq!(
        acts,
        vec![Action::Broadcast(VoyeursCommand::Seek((30.0f64).to_bits()))]
    );
}

#[test]
fn inbound_ready_is_suppressed_once() {
    let mut room = Shared::new();
    let settings = client_settings();
    let playing = snapshot(false, 10.0);
    room.add_peer(1);

    // an inbound "not ready" pauses the playing player, suppressed
    let r = handle_command(&mut room, &settings, 1, &VoyeursCommand::Ready(false), &playing);
    assert_eq!(r.actions, vec![Action::SetPause(true)]);
    assert!(room.ignore_next);

    // the pause event that causes is swallowed
    let paused = snapshot(true, 10.0);
    let acts = handle_player_event(&mut room, false, &PlayerEvent::PauseChange(true), &paused);
    assert!(acts.is_empty());
    assert!(!room.ignore_next);

    // a genuine local pause afterwards is broadcast
    let acts = handle_player_event(&mut room, false, &PlayerEvent::PauseChange(true), &paused);
    assert_eq!(acts, vec![Action::Broadcast(VoyeursCommand::Ready(false))]);
}

#[test]
fn echo_of_current_position_is_ignored() {
    let mut room = Shared::new();
    let settings = client_settings();
    let playing = snapshot(false, 25.0);
    room.add_peer(1);

    let t = (25.0f64).to_bits();
    let r = handle_command(&mut room, &settings, 1, &VoyeursCommand::Seek(t), &playing);
    assert!(r.actions.is_empty());
    assert!(!room.ignore_next);
}

#[test]
fn hub_fans_a_seek_out_to_everyone_else() {
    let mut room = Shared::new();
    let settings = hub_settings();
    let playing = snapshot(false, 10.0);
    for addr in [1, 2, 3] {
        room.add_peer(addr);
    }

    let t = (99.0f64).to_bits();
    let r = handle_command(&mut room, &settings, 1, &VoyeursCommand::Seek(t), &playing);
    assert_eq!(
        r.actions,
        vec![
            Action::SeekTo(t),
            Action::BroadcastExcluding(VoyeursCommand::Seek(t), 1),
        ]
    );
    // resolving the excluding broadcast: B and C, never A
    assert_eq!(room.broadcast_targets_excluding(1), vec![2, 3]);
}

#[test]
fn alphanumeric_username_is_accepted() {
    let mut room = Shared::new();
    let settings = hub_settings();
    let playing = snapshot(false, 12.5);
    room.add_peer(1);

    let cmd = VoyeursCommand::NewConnection("bob2".to_string());
    let r = handle_command(&mut room, &settings, 1, &cmd, &playing);
    assert!(!r.close);
    assert!(!r.actions.is_empty());
    let peer = room.remove_peer(1).unwrap();
    assert_eq!(peer.username, "bob2");
}

#[test]
fn bad_username_terminates_without_a_reply() {
    let mut room = Shared::new();
    let settings = hub_settings();
    let playing = snapshot(false, 12.5);
    room.add_peer(1);

    let cmd = VoyeursCommand::NewConnection("bob!".to_string());
    let r = handle_command(&mut room, &settings, 1, &cmd, &playing);
    assert!(r.close);
    assert!(r.actions.is_empty());
    // the username was never recorded
    let peer = room.remove_peer(1).unwrap();
    assert_eq!(peer.username, "");
}

#[test]
fn join_sequence_end_to_end() {
    // hub side: a client joins while the hub plays at 12.5 s
    let mut hub_room = Shared::new();
    let hub = hub_settings();
    let hub_player = snapshot(false, 12.5);
    hub_room.add_peer(1);

    let r = handle_command(
        &mut hub_room,
        &hub,
        1,
        &VoyeursCommand::NewConnection("user".to_string()),
        &hub_player,
    );
    assert!(!r.close);
    assert_eq!(
        r.actions,
        vec![
            Action::SetPause(true),
            Action::ShowText("user: connected".to_string(), 2000),
            Action::Send(1, VoyeursCommand::Filename("movie.mkv".to_string())),
            Action::Send(1, VoyeursCommand::Duration((3600.0f64).to_bits())),
            Action::Send(1, VoyeursCommand::Seek((12.5f64).to_bits())),
            Action::Send(1, VoyeursCommand::Ready(true)),
        ]
    );

    // client side: apply the hub's replies in order
    let mut client_room = Shared::new();
    let client = client_settings();
    client_room.add_peer(0); // the hub connection
    client_room.is_ready = true; // the client's player is not paused
    let client_player = snapshot(false, 0.0);

    let mut seeks: Vec<u64> = Vec::new();
    let mut pause_changes: Vec<bool> = Vec::new();
    for action in r.actions {
        if let Action::Send(_, cmd) = action {
            let cr = handle_command(&mut client_room, &client, 0, &cmd, &client_player);
            assert!(!cr.close);
            for a in cr.actions {
                match a {
                    Action::SeekTo(t) => seeks.push(t),
                    Action::SetPause(p) => pause_changes.push(p),
                    _ => {}
                }
            }
        }
    }
    // the client ends at 12.5 seconds and was never paused
    assert_eq!(seeks, vec![(12.5f64).to_bits()]);
    assert!(pause_changes.is_empty());
}

#[test]
fn hub_answers_stream_requests_with_its_url() {
    let mut room = Shared::new();
    let settings = hub_settings();
    room.add_peer(1);
    let mut player = snapshot(false, 0.0);
    player.path = "http://example.com/stream.mkv".to_string();

    let r = handle_command(&mut room, &settings, 1, &VoyeursCommand::GetStreamName, &player);
    assert_eq!(
        r.actions,
        vec![Action::Send(
            1,
            VoyeursCommand::StreamName("http://example.com/stream.mkv".to_string())
        )]
    );
}

#[test]
fn hub_answers_stream_requests_without_a_url_emptily() {
    let mut room = Shared::new();
    let settings = hub_settings();
    room.add_peer(1);
    let player = snapshot(false, 0.0); // path is a bare filesystem path

    let r = handle_command(&mut room, &settings, 1, &VoyeursCommand::GetStreamName, &player);
    assert_eq!(
        r.actions,
        vec![Action::Send(1, VoyeursCommand::StreamName(String::new()))]
    );
}

#[test]
fn clients_do_not_answer_stream_requests() {
    let mut room = Shared::new();
    let settings = client_settings();
    room.add_peer(1);
    let player = snapshot(false, 0.0);

    let r = handle_command(&mut room, &settings, 1, &VoyeursCommand::GetStreamName, &player);
    assert!(r.actions.is_empty());
}

#[test]
fn accepted_stream_is_loaded_then_joined() {
    let mut room = Shared::new();
    let mut settings = client_settings();
    settings.accept_source = true;
    room.add_peer(1);
    let player = snapshot(true, 0.0);

    let url = "http://example.com/stream.mkv".to_string();
    let r = handle_command(&mut room, &settings, 1, &VoyeursCommand::StreamName(url.clone()), &player);
    assert_eq!(
        r.actions,
        vec![
            Action::LoadFile(url),
            Action::AwaitFileLoaded,
            Action::Send(1, VoyeursCommand::NewConnection("user".to_string())),
        ]
    );

    // an empty stream name is only worth a warning
    let r = handle_command(
        &mut room,
        &settings,
        1,
        &VoyeursCommand::StreamName(String::new()),
        &player,
    );
    assert_eq!(
        r.actions,
        vec![Action::Warn(
            "server is not streaming from a valid url".to_string()
        )]
    );
}

#[test]
fn mismatched_metadata_is_only_a_notice() {
    let mut room = Shared::new();
    let settings = client_settings();
    room.add_peer(1);
    let player = snapshot(false, 0.0);

    let r = handle_command(
        &mut room,
        &settings,
        1,
        &VoyeursCommand::Filename("other.mkv".to_string()),
        &player,
    );
    assert!(!r.close);
    assert_eq!(
        r.actions,
        vec![Action::ShowText(
            "filename does not match with server's filename".to_string(),
            2000
        )]
    );

    let r = handle_command(
        &mut room,
        &settings,
        1,
        &VoyeursCommand::Filename("movie.mkv".to_string()),
        &player,
    );
    assert!(r.actions.is_empty());

    let r = handle_command(
        &mut room,
        &settings,
        1,
        &VoyeursCommand::Duration((99.0f64).to_bits()),
        &player,
    );
    assert_eq!(
        r.actions,
        vec![Action::ShowText(
            "duration does not match with server's duration".to_string(),
            2000
        )]
    );
}

#[test]
fn bridge_announces_local_pause_changes() {
    let mut room = Shared::new();
    room.add_peer(1);
    room.set_peer_ready(1, true);

    // local pause: tell everyone we are not ready
    let paused = snapshot(true, 0.0);
    let acts = handle_player_event(&mut room, false, &PlayerEvent::PauseChange(true), &paused);
    assert_eq!(acts, vec![Action::Broadcast(VoyeursCommand::Ready(false))]);
    assert!(!room.is_ready);

    // local unpause with everyone ready: announce readiness
    let playing = snapshot(false, 0.0);
    let acts = handle_player_event(&mut room, false, &PlayerEvent::PauseChange(false), &playing);
    assert_eq!(acts, vec![Action::Broadcast(VoyeursCommand::Ready(true))]);
    assert!(room.is_ready);
}

#[test]
fn bridge_repauses_when_somebody_is_not_ready() {
    let mut room = Shared::new();
    room.add_peer(1);
    room.add_peer(2);
    room.set_peer_ready(1, true); // peer 2 is not ready

    let playing = snapshot(false, 0.0);
    let acts = handle_player_event(&mut room, false, &PlayerEvent::PauseChange(false), &playing);
    assert_eq!(
        acts,
        vec![
            Action::ShowText("Somebody isn't ready".to_string(), 2000),
            Action::SetPause(true),
            Action::Broadcast(VoyeursCommand::Ready(false)),
        ]
    );
    assert!(room.ignore_next); // the re-pause must not echo
}

#[test]
fn bridge_ends_the_process_when_playback_ends() {
    let mut room = Shared::new();
    let player = snapshot(false, 0.0);
    let acts = handle_player_event(&mut room, false, &PlayerEvent::Shutdown, &player);
    assert_eq!(acts, vec![Action::Exit]);
    let acts = handle_player_event(&mut room, false, &PlayerEvent::EndFile, &player);
    assert_eq!(acts, vec![Action::Exit]);
}

#[test]
fn standalone_mirrors_reports_without_voting() {
    let mut room = Shared::new();
    let settings = Settings {
        is_serving: false,
        username: "user".to_string(),
        accept_source: false,
        standalone: true,
    };
    room.add_peer(1);

    // player paused, peer says ready: set the player playing, suppressed
    let paused = snapshot(true, 0.0);
    let r = handle_command(&mut room, &settings, 1, &VoyeursCommand::Ready(true), &paused);
    assert_eq!(r.actions, vec![Action::SetPause(false)]);
    assert!(room.ignore_next);

    // standalone bridge: local changes are simply announced
    room.ignore_next = false;
    let playing = snapshot(false, 0.0);
    let acts = handle_player_event(&mut room, true, &PlayerEvent::PauseChange(false), &playing);
    assert_eq!(acts, vec![Action::Broadcast(VoyeursCommand::Ready(true))]);
}
