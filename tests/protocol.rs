use roboime_ai::number::{parse_decimal, Numeral};
use roboime_ai::protocol::{
    ball_line, check_handshake, frame_lines, geometry_line, handshake_line, parse_robot_command,
    resolve_action, robot_line, split_line, summary_line, BallState, Geometry, ProtocolError,
    RobotAction, RobotState, Snapshot,
};

fn text(v: Vec<u8>) -> String {
    String::from_utf8(v).unwrap()
}

fn n(mantissa: i64, scale: usize) -> Numeral {
    Numeral { mantissa, scale }
}

fn geometry() -> Geometry {
    Geometry {
        field_length: 9010,
        field_width: 6010,
        goal_width: 1000,
        center_circle_radius: 500,
        defense_radius: 1000,
        defense_stretch: 2000,
        free_kick_from_defense_dist: 200,
        penalty_spot_from_field_line_dist: 300,
        penalty_line_from_spot_dist: 400,
    }
}

#[test]
fn handshake_text() {
    assert_eq!(text(handshake_line()), "ROBOIME_AI_PROTOCOL 1");
}

#[test]
fn handshake_answers() {
    assert_eq!(check_handshake(b"COMPATIBLE 1"), Ok(()));
    assert_eq!(check_handshake(b"COMPATIBLE 2"), Err(ProtocolError::IncompatibleImplicit));
    assert_eq!(check_handshake(b"COMPATIBLE 1 "), Err(ProtocolError::IncompatibleImplicit));
    assert_eq!(check_handshake(b"NOT_COMPATIBLE xyz"), Err(ProtocolError::IncompatibleExplicit));
    assert_eq!(check_handshake(b"hello"), Err(ProtocolError::UnexpectedHandshake));
    assert_eq!(check_handshake(b""), Err(ProtocolError::UnexpectedHandshake));
}

#[test]
fn geometry_text_has_three_places() {
    assert_eq!(
        text(geometry_line(&geometry())),
        "9.010 6.010 1.000 0.500 1.000 2.000 0.200 0.300 0.400"
    );
}

#[test]
fn geometry_reads_back() {
    let line = geometry_line(&geometry());
    let fields = split_line(&line);
    let expected = [9010, 6010, 1000, 500, 1000, 2000, 200, 300, 400];
    assert_eq!(fields.len(), 9);
    for (f, v) in fields.iter().zip(expected.iter()) {
        assert_eq!(parse_decimal(f), Some(n(*v, 3)));
    }
}

#[test]
fn summary_ball_and_robot_lines() {
    assert_eq!(text(summary_line(0, 0, 6, 6)), "0 0.000 N -1 0 0 0 0 6 6");
    assert_eq!(text(summary_line(17, 1500, 2, 0)), "17 1.500 N -1 0 0 0 0 2 0");
    assert_eq!(
        text(ball_line(&BallState { x: 0, y: 0, vx: 0, vy: 0 })),
        "0.0000 0.0000 0.0000 0.0000"
    );
    let r = RobotState { id: 3, x: 12345, y: -10000, w: 31416, vx: 0, vy: 5, vw: -1 };
    assert_eq!(text(robot_line(&r)), "3 1.2345 -1.0000 3.1416 0.0000 0.0005 -0.0001");
}

fn robot(id: u8, x: i64) -> RobotState {
    RobotState { id, x, y: 0, w: 0, vx: 0, vy: 0, vw: 0 }
}

#[test]
fn frame_puts_own_team_first() {
    let snap = Snapshot {
        counter: 5,
        timestamp: 250,
        geometry: geometry(),
        ball: BallState { x: 10000, y: -20000, vx: 0, vy: 0 },
        robots_yellow: vec![robot(0, 10000), robot(1, 20000)],
        robots_blue: vec![robot(4, -10000)],
    };
    let blue: Vec<String> = frame_lines(&snap, false).into_iter().map(text).collect();
    assert_eq!(
        blue,
        vec![
            "5 0.250 N -1 0 0 0 0 1 2",
            "1.0000 -2.0000 0.0000 0.0000",
            "4 -1.0000 0.0000 0.0000 0.0000 0.0000 0.0000",
            "0 1.0000 0.0000 0.0000 0.0000 0.0000 0.0000",
            "1 2.0000 0.0000 0.0000 0.0000 0.0000 0.0000",
        ]
    );
    let yellow: Vec<String> = frame_lines(&snap, true).into_iter().map(text).collect();
    assert_eq!(yellow[0], "5 0.250 N -1 0 0 0 0 2 1");
    assert_eq!(yellow[2], "0 1.0000 0.0000 0.0000 0.0000 0.0000 0.0000");
    assert_eq!(yellow[4], "4 -1.0000 0.0000 0.0000 0.0000 0.0000 0.0000");
}

#[test]
fn split_keeps_empty_fields() {
    let f: Vec<Vec<u8>> = split_line(b"a  b ");
    assert_eq!(f, vec![b"a".to_vec(), vec![], b"b".to_vec(), vec![]]);
    assert_eq!(split_line(b""), vec![Vec::<u8>::new()]);
}

#[test]
fn kick_wins_over_chip_and_dribble() {
    let c = parse_robot_command(2, b"0.0 0.0 0.0 2.0 3.5 1").unwrap();
    assert_eq!(c.id, 2);
    assert_eq!(c.action, RobotAction::Kick(n(20, 1)));
    assert_eq!(c.v_tangent, n(0, 1));
}

#[test]
fn action_priority() {
    let zero = n(0, 1);
    assert_eq!(resolve_action(n(5, 1), n(7, 1), true), RobotAction::Kick(n(5, 1)));
    assert_eq!(resolve_action(zero, n(35, 1), true), RobotAction::ChipKick(n(35, 1)));
    assert_eq!(resolve_action(n(-1, 0), zero, true), RobotAction::Dribble);
    assert_eq!(resolve_action(zero, n(-3, 0), false), RobotAction::Normal);
    let c = parse_robot_command(1, b"1.0 -0.5 0.25 0 3.5 1").unwrap();
    assert_eq!(c.action, RobotAction::ChipKick(n(35, 1)));
    assert_eq!(c.v_normal, n(-5, 1));
    assert_eq!(c.v_angular, n(25, 2));
    let c = parse_robot_command(1, b"0 0 0 0 0 1").unwrap();
    assert_eq!(c.action, RobotAction::Dribble);
    let c = parse_robot_command(1, b"0 0 0 0 0 2").unwrap();
    assert_eq!(c.action, RobotAction::Normal);
}

#[test]
fn robot_line_errors() {
    assert_eq!(parse_robot_command(0, b"1.0 0.0 0.0 0.0 0"), Err(ProtocolError::WrongFieldCount));
    assert_eq!(
        parse_robot_command(0, b"1.0 0.0 0.0 0.0 0.0 0 0"),
        Err(ProtocolError::WrongFieldCount)
    );
    assert_eq!(parse_robot_command(0, b"1.0  0.0 0.0 0.0 0"), Err(ProtocolError::BadNumber));
    assert_eq!(parse_robot_command(0, b"1.0 x 0.0 0.0 0.0 0"), Err(ProtocolError::BadNumber));
    assert_eq!(parse_robot_command(0, b"1.0 0.0 0.0 0.0 0.0 1.0"), Err(ProtocolError::BadNumber));
}
