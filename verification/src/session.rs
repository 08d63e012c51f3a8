//! The session over one acquired device.
//!
//! A session waits for a command or a teardown signal. A command is encoded
//! and written; then bytes are read and gathered until they make one frame,
//! which is the reply. The session here decides; the caller acts. Each call
//! of `device_loop` takes what happened and says what to do next.

use crate::codec::encode;
use crate::codec::lemma_need_more_data_is_short;
use crate::codec::parse_frame;
use crate::codec::try_parse;
use crate::codec::Message;
use crate::codec::Msg;
use crate::codec::MAX_MSG_SZ;
use crate::parser::Error;
use vstd::prelude::*;

verus! {

/// Why a session ended before its time.
#[derive(Clone, Copy, Debug, PartialEq, Eq, Structural)]
pub enum SessionFault {
    /// A transfer failed or timed out.
    Hardware,
    /// The bytes read are no frame.
    Protocol(Error),
    /// More bytes were handed in than were asked for.
    Overflow,
    /// Something happened that the session had not asked for.
    OutOfTurn,
}

/// What the session is doing.
#[derive(Clone, Copy, Debug, PartialEq, Eq, Structural)]
pub enum Phase {
    /// Waiting for a command or a teardown signal.
    Idle,
    /// A request is being written.
    Writing,
    /// The reply is being read.
    Reading,
    /// The session has ended.
    Done,
}

/// What happened.
#[derive(Clone, Debug, PartialEq, Eq)]
pub enum SessionEvent {
    /// A command came in.
    Command(Msg),
    /// The bytes of the request were written.
    Written,
    /// Writing failed.
    WriteFailed,
    /// These bytes were read.
    Read(Vec<u8>),
    /// Reading failed.
    ReadFailed,
    /// The registry asks the session to let go of the device.
    Teardown,
    /// The command channel was closed.
    CommandsClosed,
    /// The teardown channel was closed: the registry has dropped the
    /// device's entry.
    Unplugged,
}

/// What to do next.
#[derive(Clone, Debug, PartialEq, Eq)]
pub enum SessionAction {
    /// Write these bytes through the bridge, then report `Written` or
    /// `WriteFailed`.
    Write(Vec<u8>),
    /// Read at most this many bytes through the bridge, then report them
    /// with `Read`, or report `ReadFailed`.
    Read(usize),
    /// Publish this reply, then wait as `Wait` says.
    Reply(Msg),
    /// Tell whoever awaits the reply that the command could not be encoded,
    /// then wait as `Wait` says. Nothing was sent.
    Reject(Error),
    /// Wait for a command, and for a teardown signal unless the session is
    /// unplugged: then the teardown channel is closed and only commands are
    /// waited for.
    Wait,
    /// Tell whoever awaits the reply of this fault, drop the bridge and
    /// end.
    Fail(SessionFault),
    /// Drop the bridge, then acknowledge the teardown if `acknowledge` says
    /// so, and end.
    Exit { acknowledge: bool },
}

/// An event, as contracts speak of it.
pub enum Occurrence {
    Command(Message),
    Written,
    WriteFailed,
    Read(Seq<u8>),
    ReadFailed,
    Teardown,
    CommandsClosed,
    Unplugged,
}

/// An action, as contracts speak of it.
pub enum Step {
    Write(Seq<u8>),
    Read(nat),
    Reply(Message),
    Reject(Error),
    Wait,
    Fail(SessionFault),
    Exit { acknowledge: bool },
}

impl View for SessionEvent {
    type V = Occurrence;

    open spec fn view(&self) -> Occurrence {
        match *self {
            SessionEvent::Command(m) => Occurrence::Command(m@),
            SessionEvent::Written => Occurrence::Written,
            SessionEvent::WriteFailed => Occurrence::WriteFailed,
            SessionEvent::Read(b) => Occurrence::Read(b@),
            SessionEvent::ReadFailed => Occurrence::ReadFailed,
            SessionEvent::Teardown => Occurrence::Teardown,
            SessionEvent::CommandsClosed => Occurrence::CommandsClosed,
            SessionEvent::Unplugged => Occurrence::Unplugged,
        }
    }
}

impl View for SessionAction {
    type V = Step;

    open spec fn view(&self) -> Step {
        match *self {
            SessionAction::Write(b) => Step::Write(b@),
            SessionAction::Read(n) => Step::Read(n as nat),
            SessionAction::Reply(m) => Step::Reply(m@),
            SessionAction::Reject(e) => Step::Reject(e),
            SessionAction::Wait => Step::Wait,
            SessionAction::Fail(f) => Step::Fail(f),
            SessionAction::Exit { acknowledge } => Step::Exit { acknowledge },
        }
    }
}

/// A session, as contracts speak of it.
pub struct SessionState {
    pub phase: Phase,
    /// The bytes of the reply read so far.
    pub received: Seq<u8>,
    /// Whether the registry has dropped the device's entry.
    pub unplugged: bool,
}

impl SessionState {
    /// A session that waits for its first command.
    pub open spec fn fresh() -> SessionState {
        SessionState { phase: Phase::Idle, received: Seq::<u8>::empty(), unplugged: false }
    }

    /// This session in `phase`, holding no bytes.
    pub open spec fn at(self, phase: Phase) -> SessionState {
        SessionState { phase, received: Seq::<u8>::empty(), unplugged: self.unplugged }
    }
}

/// What a waiting session does with a command.
pub open spec fn command_step(s: SessionState, m: Message) -> (SessionState, Step) {
    match m.encoded() {
        Ok(frame) => (s.at(Phase::Writing), Step::Write(frame)),
        Err(e) => (s.at(Phase::Idle), Step::Reject(e)),
    }
}

/// What a reading session does with the bytes gathered so far.
pub open spec fn read_step(s: SessionState, all: Seq<u8>) -> (SessionState, Step) {
    if all.len() > MAX_MSG_SZ {
        (s.at(Phase::Done), Step::Fail(SessionFault::Overflow))
    } else {
        match parse_frame(all) {
            Ok((m, _)) => (s.at(Phase::Idle), Step::Reply(m)),
            Err(Error::NeedMoreData) => (
                SessionState { phase: Phase::Reading, received: all, unplugged: s.unplugged },
                Step::Read((MAX_MSG_SZ - all.len()) as nat),
            ),
            Err(e) => (s.at(Phase::Done), Step::Fail(SessionFault::Protocol(e))),
        }
    }
}

/// The session's rule: the state and the action that follow from a state
/// and an event.
///
/// A teardown signal and the closing of the command channel end the session
/// in any state; only the first is acknowledged. A command is taken while
/// waiting, the outcome of a write while writing, the outcome of a read
/// while reading; at any other time they are a fault, and so is anything
/// after the session's end. A failed transfer is a fault. Bytes read are
/// gathered until they make a frame or turn out to be none.
///
/// When the registry drops the device's entry, a waiting session goes on
/// waiting for commands: that the device is gone shows at the next
/// transfer, which fails and ends the session with a fault.
pub open spec fn session_step(s: SessionState, e: Occurrence) -> (SessionState, Step) {
    let out_of_turn = (s.at(Phase::Done), Step::Fail(SessionFault::OutOfTurn));
    let hardware = (s.at(Phase::Done), Step::Fail(SessionFault::Hardware));
    match e {
        Occurrence::Teardown => (s.at(Phase::Done), Step::Exit { acknowledge: true }),
        Occurrence::CommandsClosed => (s.at(Phase::Done), Step::Exit { acknowledge: false }),
        Occurrence::Unplugged => if s.phase == Phase::Idle {
            (SessionState { unplugged: true, ..s }, Step::Wait)
        } else {
            out_of_turn
        },
        Occurrence::Command(m) => if s.phase == Phase::Idle {
            command_step(s, m)
        } else {
            out_of_turn
        },
        Occurrence::Written => if s.phase == Phase::Writing {
            (s.at(Phase::Reading), Step::Read(MAX_MSG_SZ as nat))
        } else {
            out_of_turn
        },
        Occurrence::WriteFailed => if s.phase == Phase::Writing {
            hardware
        } else {
            out_of_turn
        },
        Occurrence::Read(bytes) => if s.phase == Phase::Reading {
            read_step(s, s.received + bytes)
        } else {
            out_of_turn
        },
        Occurrence::ReadFailed => if s.phase == Phase::Reading {
            hardware
        } else {
            out_of_turn
        },
    }
}

/// The session over one acquired device.
pub struct Session {
    phase: Phase,
    buf: Vec<u8>,
    unplugged: bool,
}

impl View for Session {
    type V = SessionState;

    closed spec fn view(&self) -> SessionState {
        SessionState { phase: self.phase, received: self.buf@, unplugged: self.unplugged }
    }
}

impl Session {
    /// A session that waits for its first command.
    pub fn new() -> (r: Session)
        ensures
            r@ == SessionState::fresh(),
    {
        Session { phase: Phase::Idle, buf: Vec::new(), unplugged: false }
    }

    pub fn phase(&self) -> (p: Phase)
        ensures
            p == self@.phase,
    {
        self.phase
    }

    /// Whether the registry has dropped the device's entry, so that no
    /// teardown signal can come any more.
    pub fn unplugged(&self) -> (b: bool)
        ensures
            b == self@.unplugged,
    {
        self.unplugged
    }

    fn end(&mut self, action: SessionAction) -> (r: SessionAction)
        ensures
            final(self)@ == old(self)@.at(Phase::Done),
            r == action,
    {
        self.phase = Phase::Done;
        self.buf = Vec::new();
        action
    }

    /// Takes a command: encodes it and asks for the request to be written.
    /// A command that cannot be encoded is rejected, and the session goes on
    /// waiting.
    pub fn handle_msg(&mut self, msg: &Msg) -> (action: SessionAction)
        ensures
            (final(self)@, action@) == session_step(old(self)@, Occurrence::Command(msg@)),
    {
        match self.phase {
            Phase::Idle => {},
            _ => {
                return self.end(SessionAction::Fail(SessionFault::OutOfTurn));
            },
        }
        self.buf = Vec::new();
        match encode(msg) {
            Ok(bytes) => {
                self.phase = Phase::Writing;
                SessionAction::Write(bytes)
            },
            Err(e) => SessionAction::Reject(e),
        }
    }

    /// Takes the bytes of one read: gathers them behind those read before
    /// and looks for the reply's frame.
    pub fn handle_read(&mut self, bytes: &[u8]) -> (action: SessionAction)
        ensures
            (final(self)@, action@) == session_step(old(self)@, Occurrence::Read(bytes@)),
    {
        match self.phase {
            Phase::Reading => {},
            _ => {
                return self.end(SessionAction::Fail(SessionFault::OutOfTurn));
            },
        }
        if bytes.len() > MAX_MSG_SZ || self.buf.len() > MAX_MSG_SZ - bytes.len() {
            return self.end(SessionAction::Fail(SessionFault::Overflow));
        }
        crate::codec::append_bytes(&mut self.buf, bytes);
        proof {
            if parse_frame(self.buf@) == Err::<(Message, nat), Error>(Error::NeedMoreData) {
                lemma_need_more_data_is_short(self.buf@);
            }
        }
        match try_parse(self.buf.as_slice()) {
            Ok((msg, _)) => {
                self.phase = Phase::Idle;
                self.buf = Vec::new();
                SessionAction::Reply(msg)
            },
            Err(Error::NeedMoreData) => SessionAction::Read(MAX_MSG_SZ - self.buf.len()),
            Err(e) => self.end(SessionAction::Fail(SessionFault::Protocol(e))),
        }
    }

    /// Takes what happened and says what to do next, as `session_step`
    /// rules.
    pub fn device_loop(&mut self, event: SessionEvent) -> (action: SessionAction)
        ensures
            (final(self)@, action@) == session_step(old(self)@, event@),
    {
        match event {
            SessionEvent::Teardown => self.end(SessionAction::Exit { acknowledge: true }),
            SessionEvent::CommandsClosed => self.end(SessionAction::Exit { acknowledge: false }),
            SessionEvent::Unplugged => match self.phase {
                Phase::Idle => {
                    self.unplugged = true;
                    SessionAction::Wait
                },
                _ => self.end(SessionAction::Fail(SessionFault::OutOfTurn)),
            },
            SessionEvent::Command(msg) => self.handle_msg(&msg),
            SessionEvent::Read(bytes) => self.handle_read(bytes.as_slice()),
            SessionEvent::Written => match self.phase {
                Phase::Writing => {
                    self.phase = Phase::Reading;
                    self.buf = Vec::new();
                    SessionAction::Read(MAX_MSG_SZ)
                },
                _ => self.end(SessionAction::Fail(SessionFault::OutOfTurn)),
            },
            SessionEvent::WriteFailed => match self.phase {
                Phase::Writing => self.end(SessionAction::Fail(SessionFault::Hardware)),
                _ => self.end(SessionAction::Fail(SessionFault::OutOfTurn)),
            },
            SessionEvent::ReadFailed => match self.phase {
                Phase::Reading => self.end(SessionAction::Fail(SessionFault::Hardware)),
                _ => self.end(SessionAction::Fail(SessionFault::OutOfTurn)),
            },
        }
    }
}

/// The session's discipline. A reply comes only out of a read, and with it
/// the session waits again. Every fault ends the session, and so does every
/// exit. A read is asked for only while reading, for at least one byte and
/// for no more than the buffer still has room for, so that the bytes
/// gathered never pass the length of the longest frame. A write is asked for
/// only out of a command taken while waiting, and what is written is the
/// command's frame. A session that was unplugged stays so, and being
/// unplugged ends no session: it goes on waiting, and a transfer that fails
/// ends it with a fault.
pub proof fn lemma_session_discipline(s: SessionState, e: Occurrence)
    requires
        s.received.len() <= MAX_MSG_SZ,
    ensures
        ({
            let (t, a) = session_step(s, e);
            &&& t.received.len() <= MAX_MSG_SZ
            &&& s.unplugged ==> t.unplugged
            &&& a is Reply ==> s.phase == Phase::Reading && e is Read && t == s.at(Phase::Idle)
            &&& a is Fail || a is Exit ==> t == s.at(Phase::Done)
            &&& a matches Step::Read(n) ==> t.phase == Phase::Reading && n >= 1
                && t.received.len() + n == MAX_MSG_SZ
            &&& a matches Step::Write(bytes) ==> s.phase == Phase::Idle && t == s.at(
                Phase::Writing,
            ) && e is Command && e->Command_0.encoded() == Ok::<Seq<u8>, Error>(bytes)
            &&& a matches Step::Reject(x) ==> s.phase == Phase::Idle && t == s.at(Phase::Idle)
                && e is Command && e->Command_0.encoded() == Err::<Seq<u8>, Error>(x)
            &&& a is Wait <==> e is Unplugged && s.phase == Phase::Idle
            &&& a is Wait ==> t == (SessionState { unplugged: true, ..s })
            &&& (e is WriteFailed && s.phase == Phase::Writing) || (e is ReadFailed && s.phase
                == Phase::Reading) ==> a == Step::Fail(SessionFault::Hardware)
        }),
{
    if s.phase == Phase::Reading {
        if let Occurrence::Read(bytes) = e {
            let all = s.received + bytes;
            if parse_frame(all) == Err::<(Message, nat), Error>(Error::NeedMoreData) {
                lemma_need_more_data_is_short(all);
            }
        }
    }
}

} // verus!
