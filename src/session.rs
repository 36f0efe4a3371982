//! The decisions of one conversation with the AI, as a state machine.
//!
//! The caller does the waiting: it opens with `handshake_line`, then looks at
//! `phase` and hands in what it asks for (a line read from the AI, a field
//! snapshot, or whether a command reached its consumer), writing out every
//! line that a step returns. The machine never blocks and never fails in
//! any other way than by reaching `Phase::Finished` with an error.

use vstd::prelude::*;
use crate::number::{parse_u64, u64_of};
use crate::protocol::{
    accept_text, check_handshake, compatible_tag, frame_lines, frame_text, geometry_line,
    geometry_text, handshake_reply_of, lines_view, parse_robot_command, refuse_tag,
    robot_command_of, split_fields, starts_with, team_robots, Command, ProtocolError, RobotCommand,
    RobotState, Snapshot,
};

verus! {

/// What the session waits for.
#[derive(Clone, Copy, Debug, PartialEq, Eq)]
pub enum Phase {
    /// The AI's answer to the handshake line.
    Handshake,
    /// A snapshot, whose geometry is sent once.
    AwaitGeometry,
    /// A snapshot, sent as the next tick.
    AwaitSnapshot,
    /// The counter line that opens the AI's answer to a tick.
    AwaitCounter,
    /// The command line for the next own robot.
    AwaitRobot,
    /// Word of whether the finished command was delivered.
    AwaitPublish,
    /// The conversation is over, with this outcome.
    Finished(Result<(), ProtocolError>),
}

/// One conversation for the team that plays as yellow or blue.
#[derive(Debug)]
pub struct Session {
    pub phase: Phase,
    pub is_yellow: bool,
    /// Counter of the tick last sent.
    pub counter: u64,
    /// Ids of the own robots in the tick last sent, in the order sent.
    pub own: Vec<u8>,
    /// Commands read so far in this tick, one per robot of `own` in order.
    pub commands: Vec<RobotCommand>,
}

pub open spec fn ids_of(rs: Seq<RobotState>) -> Seq<u8> {
    rs.map_values(|r: RobotState| r.id)
}

pub open spec fn line_view(line: Option<&[u8]>) -> Option<Seq<u8>> {
    match line {
        Some(l) => Some(l@),
        None => None,
    }
}

/// Where a session goes on a line from the AI (`None`: the AI closed its
/// output), and the commands it then holds.
pub open spec fn after_line(s: Session, line: Option<Seq<u8>>) -> (Phase, Seq<RobotCommand>) {
    match line {
        None => (Phase::Finished(Err(ProtocolError::MissingLine)), s.commands@),
        Some(l) => match s.phase {
            Phase::Handshake => match handshake_reply_of(l) {
                Ok(_) => (Phase::AwaitGeometry, s.commands@),
                Err(e) => (Phase::Finished(Err(e)), s.commands@),
            },
            Phase::AwaitCounter => match u64_of(l) {
                None => (Phase::Finished(Err(ProtocolError::BadCounter)), s.commands@),
                Some(c) => if c != s.counter {
                    (Phase::Finished(Err(ProtocolError::WrongCounter)), s.commands@)
                } else if s.own@.len() == 0 {
                    (Phase::AwaitPublish, seq![])
                } else {
                    (Phase::AwaitRobot, seq![])
                },
            },
            Phase::AwaitRobot => match robot_command_of(s.own@[s.commands@.len() as int], l) {
                Err(e) => (Phase::Finished(Err(e)), s.commands@),
                Ok(c) => (
                    if s.commands@.len() + 1 == s.own@.len() {
                        Phase::AwaitPublish
                    } else {
                        Phase::AwaitRobot
                    },
                    s.commands@.push(c),
                ),
            },
            _ => (s.phase, s.commands@),
        },
    }
}

/// Where a session goes once the command was offered to its consumer.
pub open spec fn after_published(delivered: bool) -> Phase {
    if delivered {
        Phase::AwaitSnapshot
    } else {
        Phase::Finished(Ok(()))
    }
}

impl Session {
    /// The commands held match the own robots, and a tick's answer is
    /// complete exactly when the session waits to publish it.
    pub open spec fn wf(&self) -> bool {
        &&& self.commands@.len() <= self.own@.len()
        &&& forall|i: int|
            0 <= i < self.commands@.len() ==> (#[trigger] self.commands@[i]).id == self.own@[i]
        &&& self.phase == Phase::AwaitCounter ==> self.commands@.len() == 0
        &&& self.phase == Phase::AwaitRobot ==> self.commands@.len() < self.own@.len()
        &&& self.phase == Phase::AwaitPublish ==> self.commands@.len() == self.own@.len()
    }

    pub open spec fn expects_line(&self) -> bool {
        self.phase == Phase::Handshake || self.phase == Phase::AwaitCounter || self.phase
            == Phase::AwaitRobot
    }

    pub open spec fn expects_snapshot(&self) -> bool {
        self.phase == Phase::AwaitGeometry || self.phase == Phase::AwaitSnapshot
    }

    /// A session that has sent its handshake line and waits for the answer.
    pub fn new(is_yellow: bool) -> (r: Session)
        ensures
            r.wf(),
            r.phase == Phase::Handshake,
            r.is_yellow == is_yellow,
            r.own@.len() == 0,
            r.commands@.len() == 0,
    {
        Session { phase: Phase::Handshake, is_yellow, counter: 0, own: Vec::new(), commands: Vec::new() }
    }

    /// Takes a line from the AI, or `None` where its output has ended.
    pub fn on_line(&mut self, line: Option<&[u8]>)
        requires
            old(self).wf(),
            old(self).expects_line(),
        ensures
            final(self).wf(),
            (final(self).phase, final(self).commands@) == after_line(*old(self), line_view(line)),
            final(self).is_yellow == old(self).is_yellow,
            final(self).counter == old(self).counter,
            final(self).own@ == old(self).own@,
    {
        let l = match line {
            None => {
                self.phase = Phase::Finished(Err(ProtocolError::MissingLine));
                return;
            },
            Some(l) => l,
        };
        match self.phase {
            Phase::Handshake => {
                self.phase = match check_handshake(l) {
                    Ok(_) => Phase::AwaitGeometry,
                    Err(e) => Phase::Finished(Err(e)),
                };
            },
            Phase::AwaitCounter => {
                match parse_u64(l) {
                    None => {
                        self.phase = Phase::Finished(Err(ProtocolError::BadCounter));
                    },
                    Some(c) => {
                        if c != self.counter {
                            self.phase = Phase::Finished(Err(ProtocolError::WrongCounter));
                        } else if self.own.len() == 0 {
                            self.phase = Phase::AwaitPublish;
                        } else {
                            self.phase = Phase::AwaitRobot;
                        }
                    },
                }
            },
            _ => {
                let id = self.own[self.commands.len()];
                match parse_robot_command(id, l) {
                    Err(e) => {
                        self.phase = Phase::Finished(Err(e));
                    },
                    Ok(c) => {
                        self.commands.push(c);
                        if self.commands.len() == self.own.len() {
                            self.phase = Phase::AwaitPublish;
                        }
                    },
                }
            },
        }
    }

    /// Takes a snapshot and returns the lines to send for it: the geometry
    /// line the first time, a tick frame after that.
    pub fn on_snapshot(&mut self, snap: &Snapshot) -> (r: Vec<Vec<u8>>)
        requires
            old(self).wf(),
            old(self).expects_snapshot(),
        ensures
            final(self).wf(),
            final(self).is_yellow == old(self).is_yellow,
            old(self).phase == Phase::AwaitGeometry ==> {
                &&& lines_view(r@) == seq![geometry_text(snap.geometry)]
                &&& final(self).phase == Phase::AwaitSnapshot
                &&& final(self).counter == old(self).counter
                &&& final(self).own@ == old(self).own@
                &&& final(self).commands@ == old(self).commands@
            },
            old(self).phase == Phase::AwaitSnapshot ==> {
                &&& lines_view(r@) == frame_text(snap, old(self).is_yellow)
                &&& final(self).phase == Phase::AwaitCounter
                &&& final(self).counter == snap.counter
                &&& final(self).own@ == ids_of(team_robots(snap, old(self).is_yellow))
                &&& final(self).commands@.len() == 0
            },
    {
        if let Phase::AwaitGeometry = self.phase {
            let mut r: Vec<Vec<u8>> = Vec::new();
            r.push(geometry_line(&snap.geometry));
            assert(lines_view(r@) =~= seq![geometry_text(snap.geometry)]);
            self.phase = Phase::AwaitSnapshot;
            return r;
        }
        let own = if self.is_yellow {
            &snap.robots_yellow
        } else {
            &snap.robots_blue
        };
        let mut ids: Vec<u8> = Vec::new();
        let mut i: usize = 0;
        while i < own.len()
            invariant
                i <= own@.len(),
                ids@ == ids_of(own@.take(i as int)),
            decreases own@.len() - i,
        {
            ids.push(own[i].id);
            proof {
                assert(own@.take(i + 1) =~= own@.take(i as int).push(own@[i as int]));
            }
            i = i + 1;
            assert(ids@ =~= ids_of(own@.take(i as int)));
        }
        assert(own@.take(i as int) =~= own@);
        self.own = ids;
        self.commands = Vec::new();
        self.counter = snap.counter;
        self.phase = Phase::AwaitCounter;
        frame_lines(snap, self.is_yellow)
    }

    /// The command that the AI gave for the tick last sent.
    pub fn command(&self) -> (r: Command)
        requires
            self.phase == Phase::AwaitPublish,
        ensures
            r.is_yellow == self.is_yellow,
            r.robots@ == self.commands@,
    {
        let mut robots: Vec<RobotCommand> = Vec::new();
        let mut i: usize = 0;
        while i < self.commands.len()
            invariant
                i <= self.commands@.len(),
                robots@ == self.commands@.take(i as int),
            decreases self.commands@.len() - i,
        {
            robots.push(self.commands[i]);
            i = i + 1;
            assert(robots@ =~= self.commands@.take(i as int));
        }
        assert(self.commands@.take(i as int) =~= self.commands@);
        Command { is_yellow: self.is_yellow, robots }
    }

    /// Takes whether the command reached its consumer. A consumer that has
    /// gone away ends the conversation without error.
    pub fn on_published(&mut self, delivered: bool)
        requires
            old(self).wf(),
            old(self).phase == Phase::AwaitPublish,
        ensures
            final(self).wf(),
            final(self).is_yellow == old(self).is_yellow,
            final(self).counter == old(self).counter,
            final(self).own@ == old(self).own@,
            final(self).phase == after_published(delivered),
            delivered ==> final(self).commands@.len() == 0,
    {
        if delivered {
            self.commands = Vec::new();
            self.phase = Phase::AwaitSnapshot;
        } else {
            self.phase = Phase::Finished(Ok(()));
        }
    }
}

/// A finished session asks for nothing more: no line is read, no snapshot
/// is sent and no command is published after it.
pub open spec fn is_terminal(p: Phase) -> bool {
    p is Finished
}

pub open spec fn accepts_event(s: Session) -> bool {
    s.expects_line() || s.expects_snapshot() || s.phase == Phase::AwaitPublish
}

/// A finished session accepts no event.
pub proof fn lemma_finished_is_final(s: Session)
    requires
        is_terminal(s.phase),
    ensures
        !accepts_event(s),
{
}

/// In every tick, a counter line that is not an unsigned integer, or that
/// names another counter than the one sent, ends the session with a protocol
/// failure, before the tick's command could be published.
pub proof fn lemma_counter_mismatch_fails(s: Session, line: Seq<u8>)
    requires
        s.phase == Phase::AwaitCounter,
        u64_of(line) != Some(s.counter),
    ensures
        after_line(s, Some(line)).0 == Phase::Finished(
            Err(
                if u64_of(line) is None {
                    ProtocolError::BadCounter
                } else {
                    ProtocolError::WrongCounter
                },
            ),
        ),
        !accepts_event(Session { phase: after_line(s, Some(line)).0, ..s }),
{
}

/// A robot command line with another field count than six ends the session
/// with a protocol failure; the tick's command is not published.
pub proof fn lemma_field_count_fails(s: Session, line: Seq<u8>)
    requires
        s.wf(),
        s.phase == Phase::AwaitRobot,
        split_fields(line).len() != 6,
    ensures
        after_line(s, Some(line)).0 == Phase::Finished(Err(ProtocolError::WrongFieldCount)),
        !accepts_event(Session { phase: after_line(s, Some(line)).0, ..s }),
{
}

/// A handshake answer that starts with "NOT_COMPATIBLE" ends the session at
/// once with an explicit refusal, so no geometry or tick is ever sent.
pub proof fn lemma_refusal_fails(s: Session, line: Seq<u8>)
    requires
        s.phase == Phase::Handshake,
        starts_with(line, refuse_tag()),
    ensures
        after_line(s, Some(line)).0 == Phase::Finished(Err(ProtocolError::IncompatibleExplicit)),
        !accepts_event(Session { phase: after_line(s, Some(line)).0, ..s }),
{
    assert(line.take(refuse_tag().len() as int)[0] == 78u8);
    assert(line[0] == 78u8);
    assert(accept_text()[0] == 67u8);
    assert(compatible_tag()[0] == 67u8);
    assert(line != accept_text());
    if starts_with(line, compatible_tag()) {
        assert(line.take(compatible_tag().len() as int)[0] == 67u8);
    }
}

} // verus!
