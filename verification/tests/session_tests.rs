use fun_together::comm::{Command, HostComm};
use fun_together::registry::Registry;
use fun_together::session::{step, Effect, Payload, RoomEvent, RoomSession};

fn prepared_room(max_players: u32) -> (RoomSession, Registry) {
    let mut s = RoomSession::new(1);
    let mut reg = Registry::new();
    let cands = vec!["ABCD".to_string()];
    let (_, cont) = s.apply_prepare(&mut reg, max_players, "Trivia".to_string(), &cands);
    assert!(cont);
    (s, reg)
}

fn state_of(s: &RoomSession) -> Command {
    s.to_state()
}

#[test]
fn scenario_full_room_lifecycle() {
    let mut s = RoomSession::new(1);
    let mut reg = Registry::new();
    let cands = vec!["ABCD".to_string()];
    let (eff, cont) = s.apply_prepare(&mut reg, 2, "Trivia".to_string(), &cands);
    assert!(cont);
    assert_eq!(eff.len(), 2);
    assert_eq!(
        eff[0],
        Effect::ToHost(Command::PrepareReply { key: "ABCD".to_string() })
    );
    assert_eq!(
        eff[1],
        Effect::ToHost(Command::State {
            name: "Trivia".to_string(),
            players: vec![],
            max_players: 2,
            accept_conns: true,
        })
    );
    assert_eq!(
        reg.room_name(&"ABCD".to_string()),
        Some("Trivia".to_string())
    );

    let (eff, cont) = step(&mut s, &mut reg, RoomEvent::Channel(HostComm::Join(1)));
    assert!(cont);
    assert_eq!(
        eff,
        vec![Effect::ToHost(Command::State {
            name: "Trivia".to_string(),
            players: vec![1],
            max_players: 2,
            accept_conns: true,
        })]
    );

    let (eff, cont) = step(&mut s, &mut reg, RoomEvent::Channel(HostComm::Join(2)));
    assert!(cont);
    assert_eq!(
        eff,
        vec![Effect::ToHost(Command::State {
            name: "Trivia".to_string(),
            players: vec![1, 2],
            max_players: 2,
            accept_conns: false,
        })]
    );

    let (eff, cont) = step(&mut s, &mut reg, RoomEvent::Host(Command::Start));
    assert!(cont);
    assert!(!s.accepting);
    assert_eq!(
        eff,
        vec![Effect::ToHost(Command::State {
            name: "Trivia".to_string(),
            players: vec![1, 2],
            max_players: 2,
            accept_conns: false,
        })]
    );

    let (eff, cont) = step(
        &mut s,
        &mut reg,
        RoomEvent::Host(Command::To { to: vec![], data: b"Q1".to_vec() }),
    );
    assert!(cont);
    assert_eq!(
        eff,
        vec![
            Effect::ToPlayer { id: 1, payload: Payload::Binary(b"Q1".to_vec()) },
            Effect::ToPlayer { id: 2, payload: Payload::Binary(b"Q1".to_vec()) },
        ]
    );

    let (eff, cont) = step(&mut s, &mut reg, RoomEvent::Channel(HostComm::Leave(1)));
    assert!(cont);
    assert_eq!(
        eff,
        vec![Effect::ToHost(Command::State {
            name: "Trivia".to_string(),
            players: vec![2],
            max_players: 2,
            accept_conns: false,
        })]
    );

    let (eff, cont) = step(&mut s, &mut reg, RoomEvent::Host(Command::Stop));
    assert!(!cont);
    assert_eq!(
        eff,
        vec![Effect::CloseHost, Effect::ClosePlayer { id: 2 }]
    );
    assert_eq!(reg.room_name(&"ABCD".to_string()), None);
    assert!(s.members.is_empty());
}

#[test]
fn join_rejected_when_not_accepting() {
    let mut s = RoomSession::new(1);
    assert!(!s.accepting);
    let eff = s.apply_join(5);
    assert!(s.members.is_empty());
    assert_eq!(eff.len(), 2);
    assert_eq!(eff[0], Effect::RejectJoin { id: 5 });
    assert_eq!(eff[1], Effect::ToHost(state_of(&s)));
}

#[test]
fn join_rejected_when_full() {
    let (mut s, _reg) = prepared_room(1);
    let eff = s.apply_join(1);
    assert_eq!(eff.len(), 1);
    assert_eq!(s.members, vec![1]);
    let eff = s.apply_join(2);
    assert_eq!(s.members, vec![1]);
    assert_eq!(eff[0], Effect::RejectJoin { id: 2 });
    assert_eq!(eff[1], Effect::ToHost(state_of(&s)));
}

#[test]
fn join_after_start_rejected() {
    let (mut s, _reg) = prepared_room(4);
    s.apply_start();
    let eff = s.apply_join(1);
    assert!(s.members.is_empty());
    assert_eq!(eff[0], Effect::RejectJoin { id: 1 });
}

#[test]
fn start_twice_is_idempotent_and_errorless() {
    let (mut s, _reg) = prepared_room(2);
    s.apply_join(1);
    let eff1 = s.apply_start();
    assert!(!s.accepting);
    let eff2 = s.apply_start();
    assert!(!s.accepting);
    for eff in [&eff1, &eff2] {
        assert_eq!(eff.len(), 1);
        assert!(matches!(eff[0], Effect::ToHost(Command::State { .. })));
    }
}

#[test]
fn kick_absent_player_is_noop_with_snapshot() {
    let (mut s, _reg) = prepared_room(3);
    s.apply_join(1);
    s.apply_join(2);
    let eff = s.apply_kick(9);
    assert_eq!(s.members, vec![1, 2]);
    assert_eq!(eff, vec![Effect::ToHost(state_of(&s))]);
}

#[test]
fn kick_member_closes_and_snapshots() {
    let (mut s, _reg) = prepared_room(3);
    s.apply_join(1);
    s.apply_join(2);
    let eff = s.apply_kick(1);
    assert_eq!(s.members, vec![2]);
    assert_eq!(eff.len(), 2);
    assert_eq!(eff[0], Effect::ClosePlayer { id: 1 });
    assert_eq!(eff[1], Effect::ToHost(state_of(&s)));
}

#[test]
fn broadcast_reaches_every_member_and_no_one_else() {
    let (mut s, _reg) = prepared_room(3);
    s.apply_join(1);
    s.apply_join(2);
    s.apply_join(3);
    let eff = s.apply_to(&vec![], &Payload::Binary(vec![7, 8]));
    assert_eq!(
        eff,
        vec![
            Effect::ToPlayer { id: 1, payload: Payload::Binary(vec![7, 8]) },
            Effect::ToPlayer { id: 2, payload: Payload::Binary(vec![7, 8]) },
            Effect::ToPlayer { id: 3, payload: Payload::Binary(vec![7, 8]) },
        ]
    );
}

#[test]
fn directed_send_skips_non_members() {
    let (mut s, _reg) = prepared_room(3);
    s.apply_join(1);
    s.apply_join(2);
    let eff = s.apply_to(&vec![1, 9], &Payload::Binary(vec![4]));
    assert_eq!(
        eff,
        vec![Effect::ToPlayer { id: 1, payload: Payload::Binary(vec![4]) }]
    );
}

#[test]
fn text_send_delivers_text_payload() {
    let (mut s, mut reg) = prepared_room(2);
    s.apply_join(1);
    let (eff, cont) = step(
        &mut s,
        &mut reg,
        RoomEvent::Host(Command::ToStr { to: vec![1], data: "hi".to_string() }),
    );
    assert!(cont);
    assert_eq!(
        eff,
        vec![Effect::ToPlayer { id: 1, payload: Payload::Text("hi".to_string()) }]
    );
}

#[test]
fn forwarded_player_command_reaches_host_verbatim() {
    let (mut s, mut reg) = prepared_room(2);
    s.apply_join(1);
    let cmd = Command::FromStr { from: 1, data: "guess".to_string() };
    let (eff, cont) = step(
        &mut s,
        &mut reg,
        RoomEvent::Channel(HostComm::Command(cmd)),
    );
    assert!(cont);
    assert_eq!(
        eff,
        vec![Effect::ToHost(Command::FromStr { from: 1, data: "guess".to_string() })]
    );
}

#[test]
fn prepare_requery_repeats_key() {
    let (mut s, mut reg) = prepared_room(2);
    let cands = vec!["WXYZ".to_string()];
    let (eff, cont) = s.apply_prepare(&mut reg, 9, "Other".to_string(), &cands);
    assert!(cont);
    assert_eq!(
        eff,
        vec![Effect::ToHost(Command::PrepareReply { key: "ABCD".to_string() })]
    );
    assert_eq!(s.max_players, 2);
    assert_eq!(s.name, "Trivia".to_string());
    assert_eq!(reg.room_name(&"WXYZ".to_string()), None);
}

#[test]
fn prepare_skips_taken_codes() {
    let mut reg = Registry::new();
    let mut other = RoomSession::new(1);
    let (_, cont) = other.apply_prepare(&mut reg, 2, "First".to_string(), &vec!["AAAA".to_string()]);
    assert!(cont);
    let mut s = RoomSession::new(2);
    let cands = vec!["AAAA".to_string(), "BBBB".to_string()];
    let (eff, cont) = s.apply_prepare(&mut reg, 2, "Second".to_string(), &cands);
    assert!(cont);
    assert_eq!(
        eff[0],
        Effect::ToHost(Command::PrepareReply { key: "BBBB".to_string() })
    );
    assert_eq!(reg.room_name(&"BBBB".to_string()), Some("Second".to_string()));
}

#[test]
fn prepare_with_no_free_code_errors_and_ends() {
    let mut reg = Registry::new();
    let mut other = RoomSession::new(1);
    other.apply_prepare(&mut reg, 2, "First".to_string(), &vec!["AAAA".to_string()]);
    let mut s = RoomSession::new(2);
    let cands = vec!["AAAA".to_string(), "AAAA".to_string()];
    let (eff, cont) = s.apply_prepare(&mut reg, 2, "Second".to_string(), &cands);
    assert!(!cont);
    assert_eq!(eff.len(), 2);
    assert_eq!(
        eff[0],
        Effect::ToHost(Command::Error {
            reason: "Failed to find a unique room key".to_string()
        })
    );
    assert_eq!(eff[1], Effect::CloseHost);
    assert_eq!(reg.room_name(&"AAAA".to_string()), Some("First".to_string()));
}

#[test]
fn malformed_host_frame_draws_invalid_message_error() {
    let (mut s, mut reg) = prepared_room(2);
    let (eff, cont) = step(&mut s, &mut reg, RoomEvent::HostInvalid);
    assert!(cont);
    assert_eq!(
        eff,
        vec![Effect::ToHost(Command::Error { reason: "Invalid message.".to_string() })]
    );
}

#[test]
fn server_direction_command_from_host_is_unhandled() {
    let (mut s, mut reg) = prepared_room(2);
    for cmd in [
        Command::From { from: 1, data: vec![1] },
        Command::FromStr { from: 1, data: "x".to_string() },
        Command::State { name: "n".to_string(), players: vec![], max_players: 0, accept_conns: false },
        Command::PrepareReply { key: "ABCD".to_string() },
        Command::Error { reason: "r".to_string() },
    ] {
        let (eff, cont) = step(&mut s, &mut reg, RoomEvent::Host(cmd));
        assert!(cont);
        assert_eq!(
            eff,
            vec![Effect::ToHost(Command::Error { reason: "Unhandled message".to_string() })]
        );
    }
}

#[test]
fn host_disconnect_acts_like_stop() {
    let (mut s, mut reg) = prepared_room(2);
    s.apply_join(1);
    let (eff, cont) = step(&mut s, &mut reg, RoomEvent::HostGone);
    assert!(!cont);
    assert_eq!(eff, vec![Effect::CloseHost, Effect::ClosePlayer { id: 1 }]);
    assert_eq!(reg.room_name(&"ABCD".to_string()), None);
}

#[test]
fn teardown_closes_every_member_and_frees_code() {
    let (mut s, mut reg) = prepared_room(4);
    s.apply_join(1);
    s.apply_join(2);
    s.apply_join(3);
    let eff = s.apply_stop(&mut reg);
    assert_eq!(eff[0], Effect::CloseHost);
    for id in [1, 2, 3] {
        assert!(eff.contains(&Effect::ClosePlayer { id }));
    }
    assert!(s.members.is_empty());
    assert_eq!(reg.lookup_handle(&"ABCD".to_string()), None);
}

#[test]
fn broadcast_to_empty_room_delivers_nothing() {
    let (s, _reg) = prepared_room(3);
    let eff = s.apply_to(&vec![], &Payload::Binary(vec![1]));
    assert!(eff.is_empty());
}

#[test]
fn kick_through_step_closes_the_member() {
    let (mut s, mut reg) = prepared_room(3);
    s.apply_join(1);
    s.apply_join(2);
    let (eff, cont) = step(&mut s, &mut reg, RoomEvent::Host(Command::Kick { player: 2 }));
    assert!(cont);
    assert_eq!(s.members, vec![1]);
    assert_eq!(eff[0], Effect::ClosePlayer { id: 2 });
    assert!(matches!(eff[1], Effect::ToHost(Command::State { .. })));
}

#[test]
fn leave_of_unknown_player_is_noop_with_snapshot() {
    let (mut s, _reg) = prepared_room(3);
    s.apply_join(1);
    let eff = s.apply_leave(9);
    assert_eq!(s.members, vec![1]);
    assert_eq!(eff, vec![Effect::ToHost(state_of(&s))]);
}

#[test]
fn snapshot_reports_effective_admission() {
    let (mut s, _reg) = prepared_room(1);
    assert_eq!(
        state_of(&s),
        Command::State {
            name: "Trivia".to_string(),
            players: vec![],
            max_players: 1,
            accept_conns: true,
        }
    );
    s.apply_join(1);
    assert_eq!(
        state_of(&s),
        Command::State {
            name: "Trivia".to_string(),
            players: vec![1],
            max_players: 1,
            accept_conns: false,
        }
    );
}
