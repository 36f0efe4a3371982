//! Messages of the protocol: the handshake, the geometry line, the per-tick
//! frame sent to the AI, and the command lines read back from it.
//!
//! Every line is ASCII text without its terminating newline. Fields are
//! separated by one space.

use vstd::prelude::*;
use crate::number::{
    decimal_of, drop_digits, fixed_mag_text, fixed_text, i32_of, is_digit, is_positive,
    lemma_fixed_round_trip, lemma_nat_text_digits, low_digits, nat_text, parse_decimal, parse_i32,
    push_fixed, push_nat, Numeral, MINUS, ZERO,
};

verus! {

pub const SPACE: u8 = 32;

/// Field geometry, each length in thousandths (three decimal places).
#[derive(Clone, Copy, Debug, PartialEq, Eq, Structural)]
pub struct Geometry {
    pub field_length: i64,
    pub field_width: i64,
    pub goal_width: i64,
    pub center_circle_radius: i64,
    pub defense_radius: i64,
    pub defense_stretch: i64,
    pub free_kick_from_defense_dist: i64,
    pub penalty_spot_from_field_line_dist: i64,
    pub penalty_line_from_spot_dist: i64,
}

/// Ball kinematics, in ten-thousandths (four decimal places).
#[derive(Clone, Copy, Debug, PartialEq, Eq, Structural)]
pub struct BallState {
    pub x: i64,
    pub y: i64,
    pub vx: i64,
    pub vy: i64,
}

/// One robot's kinematics, in ten-thousandths (four decimal places).
#[derive(Clone, Copy, Debug, PartialEq, Eq, Structural)]
pub struct RobotState {
    pub id: u8,
    pub x: i64,
    pub y: i64,
    pub w: i64,
    pub vx: i64,
    pub vy: i64,
    pub vw: i64,
}

/// One reading of the field. Robots of each team are listed by ascending id.
/// The timestamp is in thousandths of a second.
#[derive(Clone, Debug)]
pub struct Snapshot {
    pub counter: u64,
    pub timestamp: i64,
    pub geometry: Geometry,
    pub ball: BallState,
    pub robots_yellow: Vec<RobotState>,
    pub robots_blue: Vec<RobotState>,
}

/// What a robot does besides moving.
#[derive(Clone, Copy, Debug, PartialEq, Eq, Structural)]
pub enum RobotAction {
    Normal,
    Kick(Numeral),
    ChipKick(Numeral),
    Dribble,
}

/// The directive for one robot.
#[derive(Clone, Copy, Debug, PartialEq, Eq, Structural)]
pub struct RobotCommand {
    pub id: u8,
    pub v_tangent: Numeral,
    pub v_normal: Numeral,
    pub v_angular: Numeral,
    pub action: RobotAction,
}

/// The directives for one team in one tick.
#[derive(Clone, Debug)]
pub struct Command {
    pub is_yellow: bool,
    pub robots: Vec<RobotCommand>,
}

/// Why a conversation with the AI failed.
#[derive(Clone, Copy, Debug, PartialEq, Eq, Structural)]
pub enum ProtocolError {
    /// The AI closed its output where a line was expected.
    MissingLine,
    /// The AI answered the handshake with another protocol version.
    IncompatibleImplicit,
    /// The AI answered the handshake by refusing the protocol.
    IncompatibleExplicit,
    /// The handshake answer was neither acceptance nor refusal.
    UnexpectedHandshake,
    /// The counter line was not an unsigned integer.
    BadCounter,
    /// The counter line named another tick than the one sent.
    WrongCounter,
    /// A robot command line did not have six fields.
    WrongFieldCount,
    /// A field of a robot command line was not a number.
    BadNumber,
}

pub open spec fn sp() -> Seq<u8> {
    seq![SPACE]
}

pub open spec fn compatible_tag() -> Seq<u8> {
    seq![67u8, 79, 77, 80, 65, 84, 73, 66, 76, 69]
}

/// "COMPATIBLE 1"
pub open spec fn accept_text() -> Seq<u8> {
    compatible_tag() + seq![SPACE, 49u8]
}

/// "NOT_COMPATIBLE"
pub open spec fn refuse_tag() -> Seq<u8> {
    seq![78u8, 79, 84, 95] + compatible_tag()
}

/// "ROBOIME_AI_PROTOCOL 1"
pub open spec fn hello_text() -> Seq<u8> {
    seq![
        82u8, 79, 66, 79, 73, 77, 69, 95, 65, 73, 95, 80, 82, 79, 84, 79, 67, 79, 76, SPACE, 49,
    ]
}

pub open spec fn starts_with(s: Seq<u8>, p: Seq<u8>) -> bool {
    p.len() <= s.len() && s.take(p.len() as int) == p
}

/// The meaning of the AI's answer to the handshake.
pub open spec fn handshake_reply_of(line: Seq<u8>) -> Result<(), ProtocolError> {
    if line == accept_text() {
        Ok(())
    } else if starts_with(line, compatible_tag()) {
        Err(ProtocolError::IncompatibleImplicit)
    } else if starts_with(line, refuse_tag()) {
        Err(ProtocolError::IncompatibleExplicit)
    } else {
        Err(ProtocolError::UnexpectedHandshake)
    }
}

pub open spec fn geometry_text(g: Geometry) -> Seq<u8> {
    fixed_text(g.field_length as int, 3) + sp() + fixed_text(g.field_width as int, 3) + sp()
        + fixed_text(g.goal_width as int, 3) + sp() + fixed_text(g.center_circle_radius as int, 3)
        + sp() + fixed_text(g.defense_radius as int, 3) + sp() + fixed_text(
        g.defense_stretch as int,
        3,
    ) + sp() + fixed_text(g.free_kick_from_defense_dist as int, 3) + sp() + fixed_text(
        g.penalty_spot_from_field_line_dist as int,
        3,
    ) + sp() + fixed_text(g.penalty_line_from_spot_dist as int, 3)
}

/// The fields between the timestamp and the robot counts: referee state,
/// referee time left, two scores and two goalie ids, all placeholders.
pub open spec fn placeholder_text() -> Seq<u8> {
    seq![SPACE, 78u8, SPACE, MINUS, 49u8, SPACE, ZERO, SPACE, ZERO, SPACE, ZERO, SPACE, ZERO]
}

pub open spec fn summary_text(counter: u64, timestamp: i64, own: nat, opposing: nat) -> Seq<
    u8,
> {
    nat_text(counter as nat) + sp() + fixed_text(timestamp as int, 3) + placeholder_text() + sp()
        + nat_text(own) + sp() + nat_text(opposing)
}

pub open spec fn ball_text(b: BallState) -> Seq<u8> {
    fixed_text(b.x as int, 4) + sp() + fixed_text(b.y as int, 4) + sp() + fixed_text(
        b.vx as int,
        4,
    ) + sp() + fixed_text(b.vy as int, 4)
}

pub open spec fn robot_text(r: RobotState) -> Seq<u8> {
    nat_text(r.id as nat) + sp() + fixed_text(r.x as int, 4) + sp() + fixed_text(r.y as int, 4)
        + sp() + fixed_text(r.w as int, 4) + sp() + fixed_text(r.vx as int, 4) + sp() + fixed_text(
        r.vy as int,
        4,
    ) + sp() + fixed_text(r.vw as int, 4)
}

/// The robots of the team that plays as the given color.
pub open spec fn team_robots(s: &Snapshot, yellow: bool) -> Seq<RobotState> {
    if yellow {
        s.robots_yellow@
    } else {
        s.robots_blue@
    }
}

pub open spec fn robots_text(rs: Seq<RobotState>) -> Seq<Seq<u8>> {
    rs.map_values(|r: RobotState| robot_text(r))
}

/// The lines of one tick for the side that plays as `yellow`: summary,
/// ball, own robots, then opposing robots.
pub open spec fn frame_text(s: &Snapshot, yellow: bool) -> Seq<Seq<u8>> {
    let own = team_robots(s, yellow);
    let opp = team_robots(s, !yellow);
    seq![summary_text(s.counter, s.timestamp, own.len(), opp.len()), ball_text(s.ball)]
        + robots_text(own) + robots_text(opp)
}

pub open spec fn lines_view(v: Seq<Vec<u8>>) -> Seq<Seq<u8>> {
    v.map_values(|l: Vec<u8>| l@)
}

/// A line cut at every space, as many fields as spaces plus one; empty
/// fields are kept.
pub open spec fn split_fields(s: Seq<u8>) -> Seq<Seq<u8>>
    decreases s.len(),
{
    if s.len() == 0 {
        seq![seq![]]
    } else {
        let p = split_fields(s.drop_last());
        if s.last() == SPACE {
            p.push(seq![])
        } else {
            p.update(p.len() - 1, p.last().push(s.last()))
        }
    }
}

/// The action chosen from a command line's kick force, chip force and
/// dribble flag: kick first, then chip, then dribble.
pub open spec fn action_of(kick: Numeral, chip: Numeral, dribble: bool) -> RobotAction {
    if is_positive(kick) {
        RobotAction::Kick(kick)
    } else if is_positive(chip) {
        RobotAction::ChipKick(chip)
    } else if dribble {
        RobotAction::Dribble
    } else {
        RobotAction::Normal
    }
}

/// The meaning of a robot command line for robot `id`: six fields, five
/// decimals (tangential, normal and angular velocity, kick force, chip
/// force) and an integer dribble flag that is set when it equals 1.
pub open spec fn robot_command_of(id: u8, line: Seq<u8>) -> Result<RobotCommand, ProtocolError> {
    let f = split_fields(line);
    if f.len() != 6 {
        Err(ProtocolError::WrongFieldCount)
    } else {
        match (
            decimal_of(f[0]),
            decimal_of(f[1]),
            decimal_of(f[2]),
            decimal_of(f[3]),
            decimal_of(f[4]),
            i32_of(f[5]),
        ) {
            (Some(vt), Some(vn), Some(va), Some(kick), Some(chip), Some(dribble)) => Ok(
                RobotCommand {
                    id,
                    v_tangent: vt,
                    v_normal: vn,
                    v_angular: va,
                    action: action_of(kick, chip, dribble == 1),
                },
            ),
            _ => Err(ProtocolError::BadNumber),
        }
    }
}

fn push_bytes(out: &mut Vec<u8>, bytes: &[u8])
    ensures
        final(out)@ == old(out)@ + bytes@,
{
    let mut i: usize = 0;
    while i < bytes.len()
        invariant
            i <= bytes@.len(),
            out@ == old(out)@ + bytes@.take(i as int),
        decreases bytes@.len() - i,
    {
        out.push(bytes[i]);
        i = i + 1;
        assert(out@ =~= old(out)@ + bytes@.take(i as int));
    }
    assert(bytes@.take(i as int) =~= bytes@);
}

fn push_spaced_fixed(out: &mut Vec<u8>, v: i64, places: usize)
    ensures
        final(out)@ == old(out)@ + sp() + fixed_text(v as int, places as nat),
{
    out.push(SPACE);
    assert(out@ =~= old(out)@ + sp());
    push_fixed(out, v, places);
}

fn push_spaced_nat(out: &mut Vec<u8>, n: u64)
    ensures
        final(out)@ == old(out)@ + sp() + nat_text(n as nat),
{
    out.push(SPACE);
    assert(out@ =~= old(out)@ + sp());
    push_nat(out, n);
}

/// The line that opens the conversation: the protocol tag and version 1.
pub fn handshake_line() -> (r: Vec<u8>)
    ensures
        r@ == hello_text(),
{
    let r: Vec<u8> = vec![
        82u8, 79, 66, 79, 73, 77, 69, 95, 65, 73, 95, 80, 82, 79, 84, 79, 67, 79, 76, SPACE, 49,
    ];
    assert(r@ =~= hello_text());
    r
}

fn has_prefix(s: &[u8], p: &[u8]) -> (r: bool)
    ensures
        r == starts_with(s@, p@),
{
    if p.len() > s.len() {
        return false;
    }
    let mut i: usize = 0;
    while i < p.len()
        invariant
            p@.len() <= s@.len(),
            i <= p@.len(),
            forall|j: int| 0 <= j < i ==> s@[j] == p@[j],
        decreases p@.len() - i,
    {
        if s[i] != p[i] {
            assert(s@.take(p@.len() as int)[i as int] != p@[i as int]);
            return false;
        }
        i = i + 1;
    }
    assert(s@.take(p@.len() as int) =~= p@);
    true
}

/// Judges the AI's answer to the handshake: exactly "COMPATIBLE 1" is
/// accepted; another "COMPATIBLE" answer, a "NOT_COMPATIBLE" answer and any
/// other text are each refused with their own error.
pub fn check_handshake(line: &[u8]) -> (r: Result<(), ProtocolError>)
    ensures
        r == handshake_reply_of(line@),
{
    let tag: Vec<u8> = vec![67u8, 79, 77, 80, 65, 84, 73, 66, 76, 69];
    let accept: Vec<u8> = vec![67u8, 79, 77, 80, 65, 84, 73, 66, 76, 69, SPACE, 49];
    let refuse: Vec<u8> = vec![78u8, 79, 84, 95, 67, 79, 77, 80, 65, 84, 73, 66, 76, 69];
    assert(tag@ =~= compatible_tag());
    assert(accept@ =~= accept_text());
    assert(refuse@ =~= refuse_tag());
    let exact = line.len() == accept.len() && has_prefix(line, accept.as_slice());
    proof {
        if line@ == accept_text() {
            assert(line@.take(accept@.len() as int) =~= line@);
        }
        if exact {
            assert(line@.take(accept@.len() as int) =~= line@);
        }
    }
    if exact {
        Ok(())
    } else if has_prefix(line, tag.as_slice()) {
        Err(ProtocolError::IncompatibleImplicit)
    } else if has_prefix(line, refuse.as_slice()) {
        Err(ProtocolError::IncompatibleExplicit)
    } else {
        Err(ProtocolError::UnexpectedHandshake)
    }
}

/// The geometry line: nine lengths with three decimal places.
pub fn geometry_line(g: &Geometry) -> (r: Vec<u8>)
    ensures
        r@ == geometry_text(*g),
{
    let mut out: Vec<u8> = Vec::new();
    push_fixed(&mut out, g.field_length, 3);
    assert(out@ =~= fixed_text(g.field_length as int, 3));
    push_spaced_fixed(&mut out, g.field_width, 3);
    push_spaced_fixed(&mut out, g.goal_width, 3);
    push_spaced_fixed(&mut out, g.center_circle_radius, 3);
    push_spaced_fixed(&mut out, g.defense_radius, 3);
    push_spaced_fixed(&mut out, g.defense_stretch, 3);
    push_spaced_fixed(&mut out, g.free_kick_from_defense_dist, 3);
    push_spaced_fixed(&mut out, g.penalty_spot_from_field_line_dist, 3);
    push_spaced_fixed(&mut out, g.penalty_line_from_spot_dist, 3);
    out
}

/// The summary line of a tick: counter, timestamp with three decimal
/// places, the placeholders, and the two robot counts.
pub fn summary_line(counter: u64, timestamp: i64, own: usize, opposing: usize) -> (r: Vec<u8>)
    ensures
        r@ == summary_text(counter, timestamp, own as nat, opposing as nat),
{
    let mut out: Vec<u8> = Vec::new();
    push_nat(&mut out, counter);
    assert(out@ =~= nat_text(counter as nat));
    push_spaced_fixed(&mut out, timestamp, 3);
    let placeholders: Vec<u8> = vec![SPACE, 78u8, SPACE, MINUS, 49u8, SPACE, ZERO, SPACE, ZERO, SPACE, ZERO, SPACE, ZERO];
    assert(placeholders@ =~= placeholder_text());
    push_bytes(&mut out, placeholders.as_slice());
    push_spaced_nat(&mut out, own as u64);
    push_spaced_nat(&mut out, opposing as u64);
    out
}

/// The ball line: position and velocity with four decimal places.
pub fn ball_line(b: &BallState) -> (r: Vec<u8>)
    ensures
        r@ == ball_text(*b),
{
    let mut out: Vec<u8> = Vec::new();
    push_fixed(&mut out, b.x, 4);
    assert(out@ =~= fixed_text(b.x as int, 4));
    push_spaced_fixed(&mut out, b.y, 4);
    push_spaced_fixed(&mut out, b.vx, 4);
    push_spaced_fixed(&mut out, b.vy, 4);
    out
}

/// A robot line: id, then pose and velocities with four decimal places.
pub fn robot_line(r: &RobotState) -> (l: Vec<u8>)
    ensures
        l@ == robot_text(*r),
{
    let mut out: Vec<u8> = Vec::new();
    push_nat(&mut out, r.id as u64);
    assert(out@ =~= nat_text(r.id as nat));
    push_spaced_fixed(&mut out, r.x, 4);
    push_spaced_fixed(&mut out, r.y, 4);
    push_spaced_fixed(&mut out, r.w, 4);
    push_spaced_fixed(&mut out, r.vx, 4);
    push_spaced_fixed(&mut out, r.vy, 4);
    push_spaced_fixed(&mut out, r.vw, 4);
    out
}

fn push_robot_lines(lines: &mut Vec<Vec<u8>>, robots: &Vec<RobotState>)
    ensures
        lines_view(final(lines)@) == lines_view(old(lines)@) + robots_text(robots@),
{
    let mut i: usize = 0;
    while i < robots.len()
        invariant
            i <= robots@.len(),
            lines_view(lines@) == lines_view(old(lines)@) + robots_text(robots@.take(i as int)),
        decreases robots@.len() - i,
    {
        let l = robot_line(&robots[i]);
        let ghost prev = lines@;
        let ghost lv = l@;
        lines.push(l);
        proof {
            let t = robots@.take(i as int);
            assert(robots@.take(i + 1) =~= t.push(robots@[i as int]));
            assert(robots_text(t.push(robots@[i as int])) =~= robots_text(t).push(lv));
            assert(lines_view(prev.push(l)) =~= lines_view(prev).push(lv));
        }
        i = i + 1;
        assert(lines_view(lines@) =~= lines_view(old(lines)@) + robots_text(robots@.take(i as int)));
    }
    assert(robots@.take(i as int) =~= robots@);
}

/// All lines of one tick for the side that plays as `yellow`.
pub fn frame_lines(s: &Snapshot, yellow: bool) -> (r: Vec<Vec<u8>>)
    ensures
        lines_view(r@) == frame_text(s, yellow),
{
    let (own, opp) = if yellow {
        (&s.robots_yellow, &s.robots_blue)
    } else {
        (&s.robots_blue, &s.robots_yellow)
    };
    let mut lines: Vec<Vec<u8>> = Vec::new();
    lines.push(summary_line(s.counter, s.timestamp, own.len(), opp.len()));
    lines.push(ball_line(&s.ball));
    assert(lines_view(lines@) =~= seq![
        summary_text(s.counter, s.timestamp, own@.len(), opp@.len()),
        ball_text(s.ball),
    ]);
    push_robot_lines(&mut lines, own);
    push_robot_lines(&mut lines, opp);
    lines
}

/// Cuts a line at every space, keeping empty fields.
pub fn split_line(line: &[u8]) -> (r: Vec<Vec<u8>>)
    ensures
        lines_view(r@) == split_fields(line@),
{
    let mut done: Vec<Vec<u8>> = Vec::new();
    let mut cur: Vec<u8> = Vec::new();
    let mut i: usize = 0;
    proof {
        assert(line@.take(0) =~= Seq::<u8>::empty());
        assert(lines_view(done@).push(cur@) =~= seq![seq![]]);
    }
    while i < line.len()
        invariant
            i <= line@.len(),
            split_fields(line@.take(i as int)) == lines_view(done@).push(cur@),
        decreases line@.len() - i,
    {
        let c = line[i];
        let ghost t = line@.take(i as int + 1);
        proof {
            assert(t.drop_last() =~= line@.take(i as int));
            assert(t.last() == c);
        }
        if c == SPACE {
            let ghost prev = done@;
            let ghost cv = cur@;
            let mut finished: Vec<u8> = Vec::new();
            std::mem::swap(&mut finished, &mut cur);
            done.push(finished);
            proof {
                assert(lines_view(prev.push(finished)) =~= lines_view(prev).push(cv));
                assert(lines_view(done@).push(cur@) =~= split_fields(t));
            }
        } else {
            let ghost cv = cur@;
            cur.push(c);
            proof {
                assert(lines_view(done@).push(cur@) =~= lines_view(done@).push(cv).update(
                    lines_view(done@).len() as int,
                    cv.push(c),
                ));
            }
        }
        i = i + 1;
    }
    proof {
        assert(line@.take(i as int) =~= line@);
    }
    let ghost prev = done@;
    let ghost cv = cur@;
    done.push(cur);
    proof {
        assert(lines_view(prev.push(cur)) =~= lines_view(prev).push(cv));
    }
    done
}

/// Chooses the action from kick force, chip force and dribble flag: a
/// positive kick force wins, then a positive chip force, then the flag.
pub fn resolve_action(kick: Numeral, chip: Numeral, dribble: bool) -> (r: RobotAction)
    ensures
        r == action_of(kick, chip, dribble),
{
    if kick.mantissa > 0 {
        RobotAction::Kick(kick)
    } else if chip.mantissa > 0 {
        RobotAction::ChipKick(chip)
    } else if dribble {
        RobotAction::Dribble
    } else {
        RobotAction::Normal
    }
}

/// Reads the command line for robot `id`.
pub fn parse_robot_command(id: u8, line: &[u8]) -> (r: Result<RobotCommand, ProtocolError>)
    ensures
        r == robot_command_of(id, line@),
{
    let f = split_line(line);
    proof {
        assert(lines_view(f@).len() == f@.len());
    }
    if f.len() != 6 {
        return Err(ProtocolError::WrongFieldCount);
    }
    proof {
        let v = lines_view(f@);
        assert(v[0] == f@[0]@ && v[1] == f@[1]@ && v[2] == f@[2]@);
        assert(v[3] == f@[3]@ && v[4] == f@[4]@ && v[5] == f@[5]@);
    }
    let vt = parse_decimal(f[0].as_slice());
    let vn = parse_decimal(f[1].as_slice());
    let va = parse_decimal(f[2].as_slice());
    let kick = parse_decimal(f[3].as_slice());
    let chip = parse_decimal(f[4].as_slice());
    let dribble = parse_i32(f[5].as_slice());
    match (vt, vn, va, kick, chip, dribble) {
        (Some(vt), Some(vn), Some(va), Some(kick), Some(chip), Some(dribble)) => Ok(
            RobotCommand {
                id,
                v_tangent: vt,
                v_normal: vn,
                v_angular: va,
                action: resolve_action(kick, chip, dribble == 1),
            },
        ),
        _ => Err(ProtocolError::BadNumber),
    }
}

pub open spec fn no_space(s: Seq<u8>) -> bool {
    forall|i: int| 0 <= i < s.len() ==> s[i] != SPACE
}

/// The nine geometry values in the order they are sent.
pub open spec fn geometry_values(g: Geometry) -> Seq<i64> {
    seq![
        g.field_length,
        g.field_width,
        g.goal_width,
        g.center_circle_radius,
        g.defense_radius,
        g.defense_stretch,
        g.free_kick_from_defense_dist,
        g.penalty_spot_from_field_line_dist,
        g.penalty_line_from_spot_dist,
    ]
}

proof fn lemma_split_nonempty(s: Seq<u8>)
    ensures
        split_fields(s).len() >= 1,
    decreases s.len(),
{
    if s.len() > 0 {
        lemma_split_nonempty(s.drop_last());
    }
}

proof fn lemma_split_single(s: Seq<u8>)
    requires
        no_space(s),
    ensures
        split_fields(s) == seq![s],
    decreases s.len(),
{
    if s.len() > 0 {
        assert(no_space(s.drop_last()));
        lemma_split_single(s.drop_last());
        assert(s.drop_last().push(s.last()) =~= s);
        assert(seq![s.drop_last()].update(0, s.drop_last().push(s.last())) =~= seq![s]);
    } else {
        assert(s =~= Seq::<u8>::empty());
    }
}

proof fn lemma_split_concat(x: Seq<u8>, y: Seq<u8>)
    ensures
        split_fields(x + sp() + y) == split_fields(x) + split_fields(y),
    decreases y.len(),
{
    let t = x + sp() + y;
    if y.len() == 0 {
        assert(t.drop_last() =~= x);
        assert(split_fields(x).push(seq![]) =~= split_fields(x) + seq![seq![]]);
    } else {
        lemma_split_concat(x, y.drop_last());
        lemma_split_nonempty(y.drop_last());
        assert(t.drop_last() =~= x + sp() + y.drop_last());
        let a = split_fields(x);
        let b = split_fields(y.drop_last());
        if y.last() == SPACE {
            assert((a + b).push(seq![]) =~= a + b.push(seq![]));
        } else {
            assert((a + b).update((a + b).len() - 1, (a + b).last().push(y.last())) =~= a
                + b.update(b.len() - 1, b.last().push(y.last())));
        }
    }
}

proof fn lemma_low_digits_digits(n: nat, w: nat)
    ensures
        low_digits(n, w).len() == w,
        forall|i: int| 0 <= i < w ==> is_digit(#[trigger] low_digits(n, w)[i]),
    decreases w,
{
    if w > 0 {
        lemma_low_digits_digits(n / 10, (w - 1) as nat);
    }
}

proof fn lemma_fixed_no_space(v: int, places: nat)
    ensures
        no_space(fixed_text(v, places)),
{
    let m: nat = if v < 0 { (-v) as nat } else { v as nat };
    let body = fixed_mag_text(m, places);
    if places == 0 {
        lemma_nat_text_digits(m);
    } else {
        lemma_nat_text_digits(drop_digits(m, places));
        lemma_low_digits_digits(m, places);
        let a = nat_text(drop_digits(m, places));
        assert forall|i: int| 0 <= i < body.len() implies body[i] != SPACE by {
            if i < a.len() {
                assert(body[i] == a[i]);
            } else if i > a.len() {
                assert(body[i] == low_digits(m, places)[i - a.len() - 1]);
            }
        }
    }
    if v < 0 {
        let t = fixed_text(v, places);
        assert forall|i: int| 0 <= i < t.len() implies t[i] != SPACE by {
            if i > 0 {
                assert(t[i] == body[i - 1]);
            }
        }
    }
}

proof fn lemma_field(v: i64)
    ensures
        split_fields(fixed_text(v as int, 3)) == seq![fixed_text(v as int, 3)],
        decimal_of(fixed_text(v as int, 3)) == Some(Numeral { mantissa: v, scale: 3 }),
{
    lemma_fixed_no_space(v as int, 3);
    lemma_split_single(fixed_text(v as int, 3));
    lemma_fixed_round_trip(v, 3);
}

/// Reading the geometry line back, field by field at each space, gives
/// nine fields, each the decimal text of its value with three places.
pub proof fn lemma_geometry_round_trip(g: Geometry)
    ensures
        split_fields(geometry_text(g)).len() == 9,
        forall|i: int|
            0 <= i < 9 ==> decimal_of(#[trigger] split_fields(geometry_text(g))[i]) == Some(
                Numeral { mantissa: geometry_values(g)[i], scale: 3 },
            ),
{
    let v = geometry_values(g);
    let t0 = fixed_text(v[0] as int, 3);
    let t1 = fixed_text(v[1] as int, 3);
    let t2 = fixed_text(v[2] as int, 3);
    let t3 = fixed_text(v[3] as int, 3);
    let t4 = fixed_text(v[4] as int, 3);
    let t5 = fixed_text(v[5] as int, 3);
    let t6 = fixed_text(v[6] as int, 3);
    let t7 = fixed_text(v[7] as int, 3);
    let t8 = fixed_text(v[8] as int, 3);
    lemma_field(v[0]);
    lemma_field(v[1]);
    lemma_field(v[2]);
    lemma_field(v[3]);
    lemma_field(v[4]);
    lemma_field(v[5]);
    lemma_field(v[6]);
    lemma_field(v[7]);
    lemma_field(v[8]);
    let g2 = t0 + sp() + t1;
    let g3 = g2 + sp() + t2;
    let g4 = g3 + sp() + t3;
    let g5 = g4 + sp() + t4;
    let g6 = g5 + sp() + t5;
    let g7 = g6 + sp() + t6;
    let g8 = g7 + sp() + t7;
    let g9 = g8 + sp() + t8;
    lemma_split_concat(t0, t1);
    lemma_split_concat(g2, t2);
    lemma_split_concat(g3, t3);
    lemma_split_concat(g4, t4);
    lemma_split_concat(g5, t5);
    lemma_split_concat(g6, t6);
    lemma_split_concat(g7, t7);
    lemma_split_concat(g8, t8);
    let fields = seq![t0, t1, t2, t3, t4, t5, t6, t7, t8];
    assert(split_fields(g9) =~= fields);
    assert(g9 == geometry_text(g));
    assert forall|i: int| 0 <= i < 9 implies decimal_of(#[trigger] fields[i]) == Some(
        Numeral { mantissa: v[i], scale: 3 },
    ) by {
        if i == 0 {
        } else if i == 1 {
        } else if i == 2 {
        } else if i == 3 {
        } else if i == 4 {
        } else if i == 5 {
        } else if i == 6 {
        } else if i == 7 {
        } else {
        }
    }
}

} // verus!
