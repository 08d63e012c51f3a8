//! The transport bridge: what stands between a device's two bulk endpoints
//! and the session that reads and writes a byte stream.
//!
//! The hardware offers blocking transfers only. One worker owns the blocking
//! read: it waits for a wake request, performs one read, and publishes what
//! came of it. The `Device` here keeps the books on the other side. It says
//! when a wake request is due, takes what the worker published, hands out as
//! many bytes as the reader has room for and keeps the rest for the next
//! poll. It also leads a write packet by packet through the buffer, by the
//! counts that the transfers report. The transfers themselves, the worker
//! and its channels belong to the caller.

use vstd::prelude::*;

verus! {

/// Largest number of bytes in one bulk transfer.
pub const MAX_PACKET: usize = 64;

/// Time allowed for one bulk transfer, in milliseconds.
pub const TRANSFER_TIMEOUT_MS: u64 = 200;

/// Whether a read is under way.
#[derive(Clone, Copy, Debug, PartialEq, Eq, Structural)]
pub enum ReadState {
    /// No wake request is out and nothing is left to hand out.
    Idle,
    /// A wake request is out, or bytes of the last read are still held.
    Busy,
}

/// What the worker publishes after one read.
#[derive(Clone, Debug, PartialEq, Eq)]
pub enum WorkerOutput {
    /// The bytes that were read.
    Data(Vec<u8>),
    /// The read ended in time with no bytes.
    ZeroLength,
    /// The read failed. The worker stops after publishing this.
    Failed,
}

/// What the first half of a poll asks of the caller.
#[derive(Clone, Debug, PartialEq, Eq)]
pub enum ReadStep {
    /// The device is closed: the poll fails.
    Closed,
    /// Send the worker one wake request, then look at the result channel and
    /// hand what is there to `deliver`.
    Request,
    /// A wake request is already out: look at the result channel and hand
    /// what is there to `deliver`.
    Receive,
    /// The poll is done: these bytes go to the reader.
    Ready(Vec<u8>),
}

/// How a poll ends once the result channel was looked at.
#[derive(Clone, Debug, PartialEq, Eq)]
pub enum ReadOutcome {
    /// The device is closed: the poll fails.
    Closed,
    /// Nothing was published yet: the reader waits to be woken.
    Pending,
    /// The read brought no bytes: poll again, which sends a new wake request.
    Retry,
    /// These bytes go to the reader.
    Ready(Vec<u8>),
    /// The worker failed. The device is closed from now on.
    Failed,
}

/// What a write has to do next.
#[derive(Clone, Copy, Debug, PartialEq, Eq, Structural)]
pub enum WriteStep {
    /// The device is closed: the write fails.
    Closed,
    /// Send the bytes from `start` up to `end` in one transfer, then hand
    /// the count it reports to `write_progress`.
    Packet { start: usize, end: usize },
    /// All bytes were sent; the write reports this many.
    Done(usize),
}

/// The read side's books: the state, and the bytes of the last read that
/// the reader had no room for.
pub struct DeviceInner {
    rstate: ReadState,
    buffer: Vec<u8>,
    buffer_pos: usize,
}

/// The bridge over one open device.
pub struct Device {
    inner: Option<DeviceInner>,
}

/// A bridge, as contracts speak of it.
pub struct Bridge {
    pub closed: bool,
    pub busy: bool,
    /// Bytes that were read and not yet handed out.
    pub leftover: Seq<u8>,
}

/// The smaller of two lengths.
pub open spec fn min_len(a: int, b: int) -> int {
    if a <= b {
        a
    } else {
        b
    }
}

/// What the result channel held, as contracts speak of it.
pub enum Delivery {
    Nothing,
    Data(Seq<u8>),
    ZeroLength,
    Failed,
}

/// What the first half of a poll asks, as contracts speak of it.
pub enum Asked {
    Closed,
    Request,
    Receive,
    Ready(Seq<u8>),
}

/// How a poll ends, as contracts speak of it.
pub enum Ended {
    Closed,
    Pending,
    Retry,
    Ready(Seq<u8>),
    Failed,
}

/// What the result channel held.
pub open spec fn delivery(received: Option<WorkerOutput>) -> Delivery {
    match received {
        None => Delivery::Nothing,
        Some(WorkerOutput::Data(bytes)) => Delivery::Data(bytes@),
        Some(WorkerOutput::ZeroLength) => Delivery::ZeroLength,
        Some(WorkerOutput::Failed) => Delivery::Failed,
    }
}

impl View for ReadStep {
    type V = Asked;

    open spec fn view(&self) -> Asked {
        match *self {
            ReadStep::Closed => Asked::Closed,
            ReadStep::Request => Asked::Request,
            ReadStep::Receive => Asked::Receive,
            ReadStep::Ready(bytes) => Asked::Ready(bytes@),
        }
    }
}

impl View for ReadOutcome {
    type V = Ended;

    open spec fn view(&self) -> Ended {
        match *self {
            ReadOutcome::Closed => Ended::Closed,
            ReadOutcome::Pending => Ended::Pending,
            ReadOutcome::Retry => Ended::Retry,
            ReadOutcome::Ready(bytes) => Ended::Ready(bytes@),
            ReadOutcome::Failed => Ended::Failed,
        }
    }
}

impl Bridge {
    /// An open bridge in its first state.
    pub open spec fn fresh() -> Bridge {
        Bridge { closed: false, busy: false, leftover: Seq::<u8>::empty() }
    }

    /// A closed bridge.
    pub open spec fn shut() -> Bridge {
        Bridge { closed: true, busy: false, leftover: Seq::<u8>::empty() }
    }

    /// The bridge holding `bytes`: busy while any are left, idle once none
    /// is.
    pub open spec fn holding(bytes: Seq<u8>) -> Bridge {
        Bridge { closed: false, busy: bytes.len() > 0, leftover: bytes }
    }

    /// An idle bridge holds nothing, and so does a closed one.
    pub open spec fn consistent(self) -> bool {
        !self.busy || self.closed ==> self.leftover.len() == 0
    }

    /// How many of `bytes` a reader with room for `max` takes.
    pub open spec fn share(bytes: Seq<u8>, max: int) -> int {
        min_len(max, bytes.len() as int)
    }

    /// What the first half of a poll asks of the caller, for a reader with
    /// room for `max` bytes.
    pub open spec fn asked(self, max: int) -> Asked {
        if self.closed {
            Asked::Closed
        } else if !self.busy {
            Asked::Request
        } else if self.leftover.len() == 0 {
            Asked::Receive
        } else {
            Asked::Ready(self.leftover.take(Bridge::share(self.leftover, max)))
        }
    }

    /// The bridge after the first half of a poll.
    pub open spec fn polled(self, max: int) -> Bridge {
        if self.closed {
            self
        } else if !self.busy {
            Bridge { busy: true, ..self }
        } else if self.leftover.len() == 0 {
            self
        } else {
            Bridge::holding(self.leftover.skip(Bridge::share(self.leftover, max)))
        }
    }

    /// How a poll ends once the result channel was looked at.
    pub open spec fn ended(self, d: Delivery, max: int) -> Ended {
        if self.closed {
            Ended::Closed
        } else {
            match d {
                Delivery::Nothing => Ended::Pending,
                Delivery::Failed => Ended::Failed,
                Delivery::ZeroLength => Ended::Retry,
                Delivery::Data(chunk) => Ended::Ready(
                    (self.leftover + chunk).take(Bridge::share(self.leftover + chunk, max)),
                ),
            }
        }
    }

    /// The bridge after the second half of a poll.
    pub open spec fn delivered(self, d: Delivery, max: int) -> Bridge {
        if self.closed {
            self
        } else {
            match d {
                Delivery::Nothing => self,
                Delivery::Failed => Bridge::shut(),
                Delivery::ZeroLength => Bridge::holding(self.leftover),
                Delivery::Data(chunk) => Bridge::holding(
                    (self.leftover + chunk).skip(Bridge::share(self.leftover + chunk, max)),
                ),
            }
        }
    }
}

impl DeviceInner {
    pub closed spec fn wf(self) -> bool {
        &&& self.buffer_pos <= self.buffer@.len()
        &&& self.rstate == ReadState::Idle ==> self.buffer_pos == self.buffer@.len()
    }

    pub closed spec fn leftover(self) -> Seq<u8> {
        self.buffer@.skip(self.buffer_pos as int)
    }

    pub closed spec fn busy(self) -> bool {
        self.rstate == ReadState::Busy
    }

    fn new() -> (r: DeviceInner)
        ensures
            r.wf(),
            !r.busy(),
            r.leftover() == Seq::<u8>::empty(),
    {
        let r = DeviceInner { rstate: ReadState::Idle, buffer: Vec::new(), buffer_pos: 0 };
        assert(r.leftover() =~= Seq::<u8>::empty());
        r
    }

    /// Hands out up to `max` of the bytes held, oldest first.
    fn drain(&mut self, max: usize) -> (out: Vec<u8>)
        requires
            old(self).wf(),
        ensures
            final(self).wf(),
            out@ == old(self).leftover().take(min_len(max as int, old(self).leftover().len() as int)),
            final(self).leftover() == old(self).leftover().skip(
                min_len(max as int, old(self).leftover().len() as int),
            ),
            final(self).busy() == (final(self).leftover().len() > 0),
    {
        let held: usize = self.buffer.len() - self.buffer_pos;
        let n: usize = if max <= held {
            max
        } else {
            held
        };
        let start: usize = self.buffer_pos;
        let mut out: Vec<u8> = Vec::new();
        let mut k: usize = 0;
        while k < n
            invariant
                k <= n,
                start + n <= self.buffer@.len(),
                start + n <= usize::MAX,
                out@ == self.buffer@.subrange(start as int, start + k),
            decreases n - k,
        {
            out.push(self.buffer[start + k]);
            k += 1;
            assert(self.buffer@.subrange(start as int, start + k) == self.buffer@.subrange(
                start as int,
                start + k - 1,
            ).push(self.buffer@[start + k - 1]));
        }
        assert(out@ =~= old(self).leftover().take(n as int));
        self.buffer_pos = start + n;
        assert(self.leftover() =~= old(self).leftover().skip(n as int));
        if self.buffer_pos == self.buffer.len() {
            self.buffer = Vec::new();
            self.buffer_pos = 0;
            self.rstate = ReadState::Idle;
            assert(self.leftover() =~= old(self).leftover().skip(n as int));
        } else {
            self.rstate = ReadState::Busy;
        }
        out
    }

    /// Takes in the bytes of one read, behind those still held.
    fn store(&mut self, chunk: Vec<u8>)
        requires
            old(self).wf(),
        ensures
            final(self).wf(),
            final(self).busy(),
            final(self).leftover() == old(self).leftover() + chunk@,
    {
        if self.buffer_pos == self.buffer.len() {
            self.buffer = chunk;
            self.buffer_pos = 0;
        } else {
            let mut k: usize = 0;
            while k < chunk.len()
                invariant
                    k <= chunk@.len(),
                    self.buffer_pos == old(self).buffer_pos,
                    self.buffer@ == old(self).buffer@ + chunk@.take(k as int),
                decreases chunk@.len() - k,
            {
                self.buffer.push(chunk[k]);
                k += 1;
                assert(chunk@.take(k as int) == chunk@.take(k - 1).push(chunk@[k - 1]));
            }
            assert(chunk@.take(k as int) == chunk@);
        }
        self.rstate = ReadState::Busy;
        assert(self.leftover() =~= old(self).leftover() + chunk@);
    }
}

impl View for Device {
    type V = Bridge;

    closed spec fn view(&self) -> Bridge {
        match self.inner {
            None => Bridge::shut(),
            Some(inner) => Bridge {
                closed: false,
                busy: inner.busy(),
                leftover: inner.leftover(),
            },
        }
    }
}

impl Device {
    /// The invariant of the books: every `Device` that this module hands out
    /// meets it, and every method keeps it.
    pub closed spec fn wf(self) -> bool {
        match self.inner {
            None => true,
            Some(inner) => inner.wf(),
        }
    }

    /// A well-formed device is consistent: idle or closed, it holds nothing.
    pub proof fn lemma_consistent(self)
        requires
            self.wf(),
        ensures
            self@.consistent(),
    {
    }

    /// The books of a bridge that was just opened: idle, nothing held.
    pub fn new() -> (r: Device)
        ensures
            r.wf(),
            r@ == Bridge::fresh(),
    {
        Device { inner: Some(DeviceInner::new()) }
    }

    pub fn is_closed(&self) -> (b: bool)
        ensures
            b == self@.closed,
    {
        self.inner.is_none()
    }

    /// First half of a read poll, for a reader with room for `max` bytes.
    ///
    /// Idle, the bridge asks for one wake request and becomes busy. Busy and
    /// holding bytes of an earlier read, it hands out as many as fit and
    /// keeps the rest; it is idle again once none is left. Busy and holding
    /// nothing, it asks for the result channel to be looked at. At most one
    /// wake request is out at a time: one is asked for only when idle, and
    /// the bridge stays busy until the worker's answer came in and was handed
    /// out in full.
    pub fn poll_read(&mut self, max: usize) -> (step: ReadStep)
        requires
            old(self).wf(),
        ensures
            final(self).wf(),
            step@ == old(self)@.asked(max as int),
            final(self)@ == old(self)@.polled(max as int),
    {
        match &mut self.inner {
            None => ReadStep::Closed,
            Some(inner) => {
                match inner.rstate {
                    ReadState::Idle => {
                        inner.rstate = ReadState::Busy;
                        ReadStep::Request
                    },
                    ReadState::Busy => {
                        if inner.buffer_pos < inner.buffer.len() {
                            ReadStep::Ready(inner.drain(max))
                        } else {
                            ReadStep::Receive
                        }
                    },
                }
            },
        }
    }
}

/// What a write of `len` bytes has to do next once `written` of them were
/// sent: the next packet starts where the last transfer stopped and holds
/// what is left, but no more than `MAX_PACKET` bytes.
pub open spec fn next_packet(closed: bool, len: usize, written: usize) -> WriteStep {
    if closed {
        WriteStep::Closed
    } else if written >= len {
        WriteStep::Done(len)
    } else if len - written <= MAX_PACKET {
        WriteStep::Packet { start: written, end: len }
    } else {
        WriteStep::Packet { start: written, end: (written + MAX_PACKET) as usize }
    }
}

/// The number of bytes sent once the transfer of the packet from `start` up
/// to `end` reported `reported` bytes written. A transfer that reports
/// nothing, or more than it was given, fails the write.
pub open spec fn progress(start: usize, end: usize, reported: usize) -> Option<usize> {
    if 0 < reported && start + reported <= end {
        Some((start + reported) as usize)
    } else {
        None
    }
}

/// Takes the count that the transfer of the packet from `start` up to `end`
/// reported, and gives the number of bytes sent so far, with which to ask
/// for the next packet; or nothing, where the write fails.
pub fn write_progress(start: usize, end: usize, reported: usize) -> (written: Option<usize>)
    ensures
        written == progress(start, end, reported),
{
    if start <= end && 0 < reported && reported <= end - start {
        Some(start + reported)
    } else {
        None
    }
}

/// A write sends the whole buffer and ends. Every packet starts where the
/// last transfer stopped, is not empty, holds at most `MAX_PACKET` bytes and
/// ends within the buffer. Whatever a transfer reports, the write fails or
/// moves on by what was reported, short or not, so that the bytes it did not
/// take are sent by the packets that follow. The write is done exactly when
/// the counts reported add up to the buffer's length.
pub proof fn lemma_write_sends_all(len: usize, written: usize, reported: usize)
    requires
        written <= len,
    ensures
        next_packet(false, len, written) is Done <==> written == len,
        next_packet(false, len, written) is Done ==> next_packet(false, len, written)
            == WriteStep::Done(len),
        next_packet(false, len, written) matches WriteStep::Packet { start, end } ==> {
            &&& start == written
            &&& start < end <= len
            &&& end - start <= MAX_PACKET
            &&& end - start == MAX_PACKET || end == len
            &&& match progress(start, end, reported) {
                Some(next) => written < next <= end && next == written + reported,
                None => reported == 0 || reported > end - start,
            }
        },
{
}

impl Device {
    /// Second half of a read poll: takes what the result channel held
    /// (`None` where it held nothing) for a reader with room for `max`
    /// bytes.
    ///
    /// Bytes go behind those still held; as many as fit are handed out and
    /// the rest is kept. A read without bytes sets the bridge idle, so that
    /// the next poll sends a new wake request. A failure is reported here,
    /// once, and closes the bridge.
    pub fn deliver(&mut self, received: Option<WorkerOutput>, max: usize) -> (outcome: ReadOutcome)
        requires
            old(self).wf(),
        ensures
            final(self).wf(),
            outcome@ == old(self)@.ended(delivery(received), max as int),
            final(self)@ == old(self)@.delivered(delivery(received), max as int),
    {
        match &mut self.inner {
            None => ReadOutcome::Closed,
            Some(inner) => {
                match received {
                    None => ReadOutcome::Pending,
                    Some(WorkerOutput::Failed) => {
                        self.inner = None;
                        ReadOutcome::Failed
                    },
                    Some(WorkerOutput::ZeroLength) => {
                        if inner.buffer_pos == inner.buffer.len() {
                            inner.rstate = ReadState::Idle;
                        } else {
                            inner.rstate = ReadState::Busy;
                        }
                        ReadOutcome::Retry
                    },
                    Some(WorkerOutput::Data(chunk)) => {
                        inner.store(chunk);
                        ReadOutcome::Ready(inner.drain(max))
                    },
                }
            },
        }
    }

    /// Says what a write of `len` bytes has to do next, once `written` of
    /// them were sent: the next packet, or that the write is done. A write
    /// starts with `written` at 0 and goes on with what `write_progress`
    /// gives after each transfer.
    pub fn poll_write(&self, len: usize, written: usize) -> (step: WriteStep)
        ensures
            step == next_packet(self@.closed, len, written),
    {
        if self.inner.is_none() {
            WriteStep::Closed
        } else if written >= len {
            WriteStep::Done(len)
        } else if len - written <= MAX_PACKET {
            WriteStep::Packet { start: written, end: len }
        } else {
            WriteStep::Packet { start: written, end: written + MAX_PACKET }
        }
    }

    /// Closes the bridge, and says whether it was open. What was held is
    /// dropped. The caller then drops the wake-request channel, joins the
    /// worker, and only then lets go of the hardware handle.
    pub fn close(&mut self) -> (was_open: bool)
        ensures
            final(self).wf(),
            final(self)@ == Bridge::shut(),
            was_open == !old(self)@.closed,
    {
        let was_open = self.inner.is_some();
        self.inner = None;
        was_open
    }
}

/// What the worker publishes after one read into `buf`: `read` is the
/// number of bytes the transfer reported, or `None` where it failed.
pub fn worker_output(buf: &[u8], read: Option<usize>) -> (out: WorkerOutput)
    ensures
        read is None ==> out == WorkerOutput::Failed,
        read == Some(0usize) ==> out == WorkerOutput::ZeroLength,
        read matches Some(n) ==> n > 0 ==> (out matches WorkerOutput::Data(bytes) && bytes@
            == buf@.take(min_len(n as int, buf@.len() as int))),
{
    match read {
        None => WorkerOutput::Failed,
        Some(n) => {
            if n == 0 {
                WorkerOutput::ZeroLength
            } else {
                let end: usize = if n <= buf.len() {
                    n
                } else {
                    buf.len()
                };
                let part = vstd::slice::slice_subrange(buf, 0, end);
                assert(part@ == buf@.take(end as int));
                WorkerOutput::Data(vstd::slice::slice_to_vec(part))
            }
        },
    }
}

impl WorkerOutput {
    /// Whether the worker stops after publishing this.
    pub fn stops_worker(&self) -> (b: bool)
        ensures
            b == (*self == WorkerOutput::Failed),
    {
        match self {
            WorkerOutput::Failed => true,
            _ => false,
        }
    }
}

/// A bridge together with its worker, as far as wake requests go: `waiting`
/// counts the wake requests that were sent and not yet answered.
pub struct Link {
    pub bridge: Bridge,
    pub waiting: nat,
}

impl Link {
    /// What holds of a bridge and its worker at all times: at most one wake
    /// request is out, and while one is out the bridge is busy and holds
    /// nothing.
    pub open spec fn one_at_a_time(self) -> bool {
        &&& self.bridge.consistent()
        &&& self.waiting <= 1
        &&& self.waiting == 1 ==> !self.bridge.closed && self.bridge.busy
            && self.bridge.leftover.len() == 0
        &&& !self.bridge.busy ==> self.waiting == 0
    }

    /// The link after the first half of a poll: a wake request is sent where
    /// the bridge asks for one.
    pub open spec fn polled(self, max: int) -> Link {
        Link {
            bridge: self.bridge.polled(max),
            waiting: if self.bridge.asked(max) is Request {
                self.waiting + 1
            } else {
                self.waiting
            },
        }
    }

    /// The link after the second half of a poll: what the channel held
    /// answers one wake request.
    pub open spec fn delivered(self, d: Delivery, max: int) -> Link {
        Link {
            bridge: self.bridge.delivered(d, max),
            waiting: if d is Nothing {
                self.waiting
            } else {
                (self.waiting - 1) as nat
            },
        }
    }
}

/// At most one read is in flight: a bridge that was just opened has no wake
/// request out, and no poll brings a second one out while the first is
/// unanswered. The worker answers only what it was asked, so the channel
/// holds something only while a request is out.
pub proof fn lemma_one_request_in_flight(link: Link, d: Delivery, max: int)
    requires
        link.one_at_a_time(),
        !(d is Nothing) ==> link.waiting == 1,
    ensures
        (Link { bridge: Bridge::fresh(), waiting: 0 }).one_at_a_time(),
        link.polled(max).one_at_a_time(),
        link.delivered(d, max).one_at_a_time(),
        link.waiting == 1 ==> !(link.bridge.asked(max) is Request),
{
}

} // verus!
