use roboime_ai::number::Numeral;
use roboime_ai::outcome::{control_result, session_outcome, Failure, IoFault};
use roboime_ai::protocol::{
    handshake_line, BallState, Geometry, ProtocolError, RobotAction, RobotState, Snapshot,
};
use roboime_ai::session::{Phase, Session};
use roboime_ai::team::{Color, Side, TeamSide};

fn text(v: &[u8]) -> String {
    String::from_utf8(v.to_vec()).unwrap()
}

fn snapshot(counter: u64) -> Snapshot {
    let robots = |_| (0u8..6).map(|id| RobotState { id, x: 0, y: 0, w: 0, vx: 0, vy: 0, vw: 0 }).collect();
    Snapshot {
        counter,
        timestamp: 0,
        geometry: Geometry {
            field_length: 9010,
            field_width: 6010,
            goal_width: 1000,
            center_circle_radius: 500,
            defense_radius: 1000,
            defense_stretch: 2000,
            free_kick_from_defense_dist: 200,
            penalty_spot_from_field_line_dist: 300,
            penalty_line_from_spot_dist: 400,
        },
        ball: BallState { x: 0, y: 0, vx: 0, vy: 0 },
        robots_yellow: robots(0),
        robots_blue: robots(1),
    }
}

/// A session past the handshake and the geometry, with tick `counter` sent.
fn running(counter: u64) -> Session {
    let mut s = Session::new(true);
    s.on_line(Some(b"COMPATIBLE 1"));
    s.on_snapshot(&snapshot(0));
    s.on_snapshot(&snapshot(counter));
    assert_eq!(s.phase, Phase::AwaitCounter);
    s
}

#[test]
fn end_to_end_tick() {
    let mut s = Session::new(true);
    assert_eq!(text(&handshake_line()), "ROBOIME_AI_PROTOCOL 1");
    assert_eq!(s.phase, Phase::Handshake);
    s.on_line(Some(b"COMPATIBLE 1"));
    assert_eq!(s.phase, Phase::AwaitGeometry);
    let geom = s.on_snapshot(&snapshot(0));
    assert_eq!(geom.len(), 1);
    assert_eq!(text(&geom[0]), "9.010 6.010 1.000 0.500 1.000 2.000 0.200 0.300 0.400");
    assert_eq!(s.phase, Phase::AwaitSnapshot);
    let frame = s.on_snapshot(&snapshot(0));
    assert_eq!(frame.len(), 14);
    assert_eq!(text(&frame[0]), "0 0.000 N -1 0 0 0 0 6 6");
    assert_eq!(text(&frame[1]), "0.0000 0.0000 0.0000 0.0000");
    for (i, line) in frame[2..].iter().enumerate() {
        let id = i % 6;
        assert_eq!(text(line), format!("{} 0.0000 0.0000 0.0000 0.0000 0.0000 0.0000", id));
    }
    assert_eq!(s.phase, Phase::AwaitCounter);
    s.on_line(Some(b"0"));
    for _ in 0..6 {
        assert_eq!(s.phase, Phase::AwaitRobot);
        s.on_line(Some(b"1.0 0.0 0.0 0.0 0.0 0"));
    }
    assert_eq!(s.phase, Phase::AwaitPublish);
    let c = s.command();
    assert!(c.is_yellow);
    assert_eq!(c.robots.len(), 6);
    for (i, r) in c.robots.iter().enumerate() {
        assert_eq!(r.id as usize, i);
        assert_eq!(r.v_tangent, Numeral { mantissa: 10, scale: 1 });
        assert_eq!(r.action, RobotAction::Normal);
    }
    s.on_published(true);
    assert_eq!(s.phase, Phase::AwaitSnapshot);
}

#[test]
fn wrong_counter_fails() {
    let mut s = running(7);
    s.on_line(Some(b"6"));
    assert_eq!(s.phase, Phase::Finished(Err(ProtocolError::WrongCounter)));
}

#[test]
fn unreadable_counter_fails() {
    let mut s = running(7);
    s.on_line(Some(b"seven"));
    assert_eq!(s.phase, Phase::Finished(Err(ProtocolError::BadCounter)));
    let mut s = running(7);
    s.on_line(Some(b"-7"));
    assert_eq!(s.phase, Phase::Finished(Err(ProtocolError::BadCounter)));
}

#[test]
fn short_robot_line_fails_without_command() {
    let mut s = running(3);
    s.on_line(Some(b"3"));
    s.on_line(Some(b"1.0 0.0 0.0 0.0 0.0 0"));
    s.on_line(Some(b"1.0 0.0 0.0 0.0 0.0"));
    assert_eq!(s.phase, Phase::Finished(Err(ProtocolError::WrongFieldCount)));
}

#[test]
fn closed_output_fails() {
    let mut s = running(3);
    s.on_line(Some(b"3"));
    s.on_line(None);
    assert_eq!(s.phase, Phase::Finished(Err(ProtocolError::MissingLine)));
    let mut s = Session::new(false);
    s.on_line(None);
    assert_eq!(s.phase, Phase::Finished(Err(ProtocolError::MissingLine)));
}

#[test]
fn explicit_refusal_fails_at_once() {
    let mut s = Session::new(true);
    s.on_line(Some(b"NOT_COMPATIBLE xyz"));
    assert_eq!(s.phase, Phase::Finished(Err(ProtocolError::IncompatibleExplicit)));
    let mut s = Session::new(true);
    s.on_line(Some(b"COMPATIBLE 2"));
    assert_eq!(s.phase, Phase::Finished(Err(ProtocolError::IncompatibleImplicit)));
}

#[test]
fn consumer_gone_ends_cleanly() {
    let mut s = running(0);
    s.on_line(Some(b"0"));
    for _ in 0..6 {
        s.on_line(Some(b"0 0 0 0 0 0"));
    }
    s.on_published(false);
    assert_eq!(s.phase, Phase::Finished(Ok(())));
    let control = control_result(s.phase);
    assert_eq!(control, Ok(()));
    assert_eq!(session_outcome(control, Ok(()), true), Ok(()));
    assert_eq!(session_outcome(control, Ok(()), false), Err(Failure::Io(IoFault::ChildFailed)));
}

#[test]
fn no_own_robots_publishes_empty_command() {
    let mut s = Session::new(false);
    s.on_line(Some(b"COMPATIBLE 1"));
    s.on_snapshot(&snapshot(0));
    let mut snap = snapshot(9);
    snap.robots_blue.clear();
    let frame = s.on_snapshot(&snap);
    assert_eq!(text(&frame[0]), "9 0.000 N -1 0 0 0 0 0 6");
    s.on_line(Some(b"+9"));
    assert_eq!(s.phase, Phase::AwaitPublish);
    let c = s.command();
    assert!(!c.is_yellow);
    assert!(c.robots.is_empty());
}

#[test]
fn outcome_precedence() {
    let p = Err(Failure::Protocol(ProtocolError::WrongCounter));
    let d = Err(Failure::Io(IoFault::Read));
    assert_eq!(session_outcome(p, d, false), p);
    assert_eq!(session_outcome(Ok(()), d, false), d);
    assert_eq!(session_outcome(Ok(()), Ok(()), false), Err(Failure::Io(IoFault::ChildFailed)));
    assert_eq!(session_outcome(Ok(()), Ok(()), true), Ok(()));
    assert_eq!(
        control_result(Phase::Finished(Err(ProtocolError::BadNumber))),
        Err(Failure::Protocol(ProtocolError::BadNumber))
    );
}

#[test]
fn colors_and_sides() {
    assert!(Color::Yellow.is_yellow() && !Color::Yellow.is_blue());
    assert_eq!(Color::yellow(false), Color::Blue);
    assert_eq!(Color::blue(false), Color::Yellow);
    assert!(Side::Right.is_right() && !Side::Right.is_left());
    assert_eq!(Side::right(false), Side::Left);
    assert_eq!(Side::left(false), Side::Right);
    assert!(TeamSide(Color::Yellow, Side::Left).yellow_is_left());
    assert!(TeamSide(Color::Blue, Side::Right).yellow_is_left());
    assert!(!TeamSide(Color::Blue, Side::Left).yellow_is_left());
    assert!(!TeamSide(Color::Yellow, Side::Right).yellow_is_left());
}
