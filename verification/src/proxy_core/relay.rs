//! Bidirectional relay with idle timeout and traffic statistics.
//!
//! When one direction reaches the end of its reader, the end is forwarded to the peer's writer
//! (unless that is suppressed) and the relay waits for the other direction to finish. There is
//! no half-close timer: only the idle timeout, which needs both directions to be silent, ends a
//! relay early.

use vstd::prelude::*;

verus! {

/// How a relay ended.
#[derive(Debug, Clone, Copy, PartialEq, Eq, Structural)]
pub enum RelayTermination {
    Completed,
    IdleTimeout,
    Error,
}

impl RelayTermination {
    /// The name used in logs.
    pub fn as_str(&self) -> (r: &'static str)
        ensures
            r@ == (match self {
                RelayTermination::Completed => "completed"@,
                RelayTermination::IdleTimeout => "idle_timeout"@,
                RelayTermination::Error => "error"@,
            }),
    {
        match self {
            RelayTermination::Completed => "completed",
            RelayTermination::IdleTimeout => "idle_timeout",
            RelayTermination::Error => "error",
        }
    }
}

/// What a relay moved and how it ended.
#[derive(Debug, Clone, Copy, PartialEq, Eq, Structural)]
pub struct CopyResult {
    pub a_to_b: u64,
    pub b_to_a: u64,
    pub completed: bool,
    pub termination: RelayTermination,
    pub client_eof: bool,
    pub remote_eof: bool,
}

/// How a write, a flush or a shutdown went.
pub enum IoEvent {
    /// It would block.
    Pending,
    /// It failed.
    Failed,
    /// It succeeded; a write took this many bytes.
    Done(usize),
}

/// How a read went.
pub enum ReadEvent<'a> {
    /// It would block.
    Pending,
    /// It failed.
    Failed,
    /// It gave these bytes; none at all is the end of the stream.
    Bytes(&'a [u8]),
}

/// How a read went.
pub enum ReadEventView {
    Pending,
    Failed,
    Bytes(Seq<u8>),
}

impl<'a> View for ReadEvent<'a> {
    type V = ReadEventView;

    open spec fn view(&self) -> ReadEventView {
        match self {
            ReadEvent::Pending => ReadEventView::Pending,
            ReadEvent::Failed => ReadEventView::Failed,
            ReadEvent::Bytes(b) => ReadEventView::Bytes(b@),
        }
    }
}

/// What one direction does next.
#[derive(PartialEq, Eq, Structural)]
pub enum CopyAction {
    /// Write the pending bytes.
    Write,
    /// The writer is blocked: read at most `room` bytes behind the pending ones meanwhile.
    ReadAhead { room: usize },
    /// Flush the writer.
    Flush,
    /// Shut the writer down.
    Shutdown,
    /// Read at most `room` bytes into the empty buffer.
    Read { room: usize },
    /// Return to the caller.
    Return(CopyReturn),
}

/// What polling one direction comes to.
#[derive(PartialEq, Eq, Structural, Clone, Copy)]
pub enum CopyReturn {
    /// The direction has finished.
    Ready,
    /// It waits for its reader or its writer.
    Pending,
    /// The reader or the writer failed.
    Error,
    /// The writer took nothing.
    WriteZero,
}

/// Where one direction stands.
#[verifier::ext_equal]
pub struct CopyState {
    /// Size of the buffer.
    pub size: nat,
    /// How much of the buffer is in use.
    pub used: nat,
    /// Everything read so far.
    pub received: Seq<u8>,
    /// Everything written so far.
    pub delivered: Seq<u8>,
    /// What was read and is still to be written.
    pub pending: Seq<u8>,
    /// Whether the reader has ended.
    pub eof: bool,
    /// Whether the direction has finished.
    pub done: bool,
    /// Whether the reader's end is kept from the writer.
    pub suppress_shutdown: bool,
}

/// One direction of a relay: a buffer between a reader and a writer.
pub struct DirectionalBuffer {
    buf: Vec<u8>,
    size: usize,
    pos: usize,
    amt: u64,
    read_done: bool,
    shutdown_done: bool,
    suppress_shutdown: bool,
    received: Ghost<Seq<u8>>,
    delivered: Ghost<Seq<u8>>,
}

impl View for DirectionalBuffer {
    type V = CopyState;

    closed spec fn view(&self) -> CopyState {
        CopyState {
            size: self.size as nat,
            used: self.buf@.len(),
            received: self.received@,
            delivered: self.delivered@,
            pending: self.buf@.skip(self.pos as int),
            eof: self.read_done,
            done: self.shutdown_done,
            suppress_shutdown: self.suppress_shutdown,
        }
    }
}

/// What the next action is once the last one is dealt with: pending bytes are written before
/// anything else.
pub open spec fn loop_top(st: CopyState) -> CopyAction {
    if st.pending.len() > 0 {
        CopyAction::Write
    } else {
        CopyAction::Flush
    }
}

/// The state once the writer has taken `n` of the pending bytes.
pub open spec fn written(st: CopyState, n: nat) -> CopyState {
    CopyState {
        delivered: st.delivered + st.pending.take(n as int),
        pending: st.pending.skip(n as int),
        ..st
    }
}

/// The state once `bytes` were read behind the pending ones; none at all is the reader's end.
pub open spec fn read_ahead(st: CopyState, bytes: Seq<u8>) -> CopyState {
    if bytes.len() == 0 {
        CopyState { eof: true, ..st }
    } else {
        CopyState {
            used: st.used + bytes.len(),
            received: st.received + bytes,
            pending: st.pending + bytes,
            ..st
        }
    }
}

/// The state once `bytes` were read into the empty buffer; none at all is the reader's end.
pub open spec fn refilled(st: CopyState, bytes: Seq<u8>) -> CopyState {
    if bytes.len() == 0 {
        CopyState { eof: true, ..st }
    } else {
        CopyState {
            used: bytes.len(),
            received: st.received + bytes,
            pending: bytes,
            ..st
        }
    }
}

/// The first action of a poll.
pub open spec fn after_start(st: CopyState) -> CopyAction {
    if st.done {
        CopyAction::Return(CopyReturn::Ready)
    } else {
        loop_top(st)
    }
}

/// What writing the pending bytes comes to.
pub open spec fn after_write(st: CopyState, event: IoEvent) -> (CopyState, CopyAction) {
    match event {
        IoEvent::Done(n) => if n == 0 {
            (st, CopyAction::Return(CopyReturn::WriteZero))
        } else {
            (written(st, n as nat), loop_top(written(st, n as nat)))
        },
        IoEvent::Failed => (st, CopyAction::Return(CopyReturn::Error)),
        IoEvent::Pending => (
            st,
            if !st.eof && st.used < st.size {
                CopyAction::ReadAhead { room: (st.size - st.used) as usize }
            } else {
                CopyAction::Return(CopyReturn::Pending)
            },
        ),
    }
}

/// What reading ahead comes to: an error counts as the reader's end.
pub open spec fn after_read_ahead(st: CopyState, event: ReadEventView) -> (CopyState, CopyAction) {
    (
        match event {
            ReadEventView::Bytes(b) => read_ahead(st, b),
            ReadEventView::Failed => CopyState { eof: true, ..st },
            ReadEventView::Pending => st,
        },
        CopyAction::Return(CopyReturn::Pending),
    )
}

/// What flushing the writer comes to: a flush that would block is not waited for.
pub open spec fn after_flush(st: CopyState, event: IoEvent) -> (CopyState, CopyAction) {
    if event is Failed {
        (st, CopyAction::Return(CopyReturn::Error))
    } else if !st.eof {
        (st, CopyAction::Read { room: st.size as usize })
    } else if st.suppress_shutdown {
        (CopyState { done: true, ..st }, CopyAction::Return(CopyReturn::Ready))
    } else {
        (st, CopyAction::Shutdown)
    }
}

/// What shutting the writer down comes to: a failed shutdown finishes the direction too.
pub open spec fn after_shutdown(st: CopyState, event: IoEvent) -> (CopyState, CopyAction) {
    if event is Pending {
        (st, CopyAction::Return(CopyReturn::Pending))
    } else {
        (CopyState { done: true, ..st }, CopyAction::Return(CopyReturn::Ready))
    }
}

/// What reading into the empty buffer comes to.
pub open spec fn after_read(st: CopyState, event: ReadEventView) -> (CopyState, CopyAction) {
    match event {
        ReadEventView::Pending => (st, CopyAction::Return(CopyReturn::Pending)),
        ReadEventView::Failed => (st, CopyAction::Return(CopyReturn::Error)),
        ReadEventView::Bytes(b) => (refilled(st, b), loop_top(refilled(st, b))),
    }
}

impl DirectionalBuffer {
    /// Every byte read has been written or is pending, in order; a direction finishes only with
    /// its reader at the end and nothing pending.
    pub closed spec fn wf(&self) -> bool {
        &&& self.pos <= self.buf@.len() <= self.size
        &&& self.amt == self@.delivered.len()
        &&& self@.received == self@.delivered + self@.pending
        &&& self@.done ==> self@.eof && self@.pending.len() == 0
    }

    /// A direction that has moved nothing yet.
    pub fn new(buf_size: usize, suppress_shutdown: bool) -> (r: Self)
        ensures
            r.wf(),
            r@ == fresh_direction(buf_size as nat, suppress_shutdown),
    {
        let r = DirectionalBuffer {
            buf: Vec::new(),
            size: buf_size,
            pos: 0,
            amt: 0,
            read_done: false,
            shutdown_done: false,
            suppress_shutdown,
            received: Ghost(Seq::empty()),
            delivered: Ghost(Seq::empty()),
        };
        assert(r@.pending =~= Seq::<u8>::empty());
        assert(r@.received =~= r@.delivered + r@.pending);
        r
    }

    /// Whether the direction has finished.
    pub fn is_done(&self) -> (r: bool)
        ensures
            r == self@.done,
    {
        self.shutdown_done
    }

    /// Whether the reader has ended.
    pub fn has_read_eof(&self) -> (r: bool)
        ensures
            r == self@.eof,
    {
        self.read_done
    }

    /// How many bytes were written.
    pub fn bytes_transferred(&self) -> (r: u64)
        requires
            self.wf(),
        ensures
            r == self@.delivered.len(),
    {
        self.amt
    }

    /// The bytes that are still to be written.
    pub fn pending(&self) -> (r: &[u8])
        requires
            self.wf(),
        ensures
            r@ == self@.pending,
    {
        vstd::slice::slice_subrange(self.buf.as_slice(), self.pos, self.buf.len())
    }

    fn top(&self) -> (r: CopyAction)
        requires
            self.wf(),
        ensures
            r == loop_top(self@),
    {
        if self.pos < self.buf.len() {
            CopyAction::Write
        } else {
            CopyAction::Flush
        }
    }

    /// The first action of a poll.
    pub fn start(&self) -> (r: CopyAction)
        requires
            self.wf(),
        ensures
            r == after_start(self@),
    {
        if self.shutdown_done {
            CopyAction::Return(CopyReturn::Ready)
        } else {
            self.top()
        }
    }

    /// Takes the outcome of writing the pending bytes.
    pub fn on_write(&mut self, event: IoEvent) -> (r: CopyAction)
        requires
            old(self).wf(),
            old(self)@.pending.len() > 0,
            event matches IoEvent::Done(n) ==> n <= old(self)@.pending.len()
                && old(self)@.delivered.len() + n <= u64::MAX,
        ensures
            final(self).wf(),
            (final(self)@, r) == after_write(old(self)@, event),
    {
        match event {
            IoEvent::Done(n) => {
                if n == 0 {
                    return CopyAction::Return(CopyReturn::WriteZero);
                }
                let ghost before = self@;
                self.pos += n;
                self.amt += n as u64;
                proof {
                    self.delivered@ = self.delivered@ + before.pending.take(n as int);
                }
                assert(self@ =~= written(before, n as nat));
                assert(self@.received =~= self@.delivered + self@.pending);
                self.top()
            },
            IoEvent::Failed => CopyAction::Return(CopyReturn::Error),
            IoEvent::Pending => {
                if !self.read_done && self.buf.len() < self.size {
                    CopyAction::ReadAhead { room: self.size - self.buf.len() }
                } else {
                    CopyAction::Return(CopyReturn::Pending)
                }
            },
        }
    }

    /// Takes the outcome of reading ahead while the writer is blocked. An error counts as the
    /// reader's end: what was read before it is still delivered.
    pub fn on_read_ahead(&mut self, event: ReadEvent<'_>) -> (r: CopyAction)
        requires
            old(self).wf(),
            old(self)@.pending.len() > 0,
            event matches ReadEvent::Bytes(b) ==> b@.len() <= old(self)@.size - old(self)@.used,
        ensures
            final(self).wf(),
            (final(self)@, r) == after_read_ahead(old(self)@, event@),
    {
        match event {
            ReadEvent::Bytes(b) => {
                if b.len() == 0 {
                    self.read_done = true;
                } else {
                    let ghost before = self@;
                    self.append(b);
                    proof {
                        self.received@ = self.received@ + b@;
                    }
                    assert(self@ =~= read_ahead(before, b@));
                    assert(self@.received =~= self@.delivered + self@.pending);
                }
            },
            ReadEvent::Failed => {
                self.read_done = true;
            },
            ReadEvent::Pending => {},
        }
        CopyAction::Return(CopyReturn::Pending)
    }

    fn append(&mut self, b: &[u8])
        ensures
            final(self).buf@ == old(self).buf@ + b@,
            final(self).size == old(self).size,
            final(self).pos == old(self).pos,
            final(self).amt == old(self).amt,
            final(self).read_done == old(self).read_done,
            final(self).shutdown_done == old(self).shutdown_done,
            final(self).suppress_shutdown == old(self).suppress_shutdown,
            final(self).received == old(self).received,
            final(self).delivered == old(self).delivered,
    {
        let mut i: usize = 0;
        while i < b.len()
            invariant
                i <= b@.len(),
                self.buf@ == old(self).buf@ + b@.take(i as int),
                self.size == old(self).size,
                self.pos == old(self).pos,
                self.amt == old(self).amt,
                self.read_done == old(self).read_done,
                self.shutdown_done == old(self).shutdown_done,
                self.suppress_shutdown == old(self).suppress_shutdown,
                self.received == old(self).received,
                self.delivered == old(self).delivered,
            decreases b@.len() - i,
        {
            self.buf.push(b[i]);
            i += 1;
            assert(self.buf@ =~= old(self).buf@ + b@.take(i as int));
        }
        assert(b@.take(b@.len() as int) =~= b@);
    }

    /// Takes the outcome of flushing the writer. A flush that would block is not waited for.
    pub fn on_flush(&mut self, event: IoEvent) -> (r: CopyAction)
        requires
            old(self).wf(),
            old(self)@.pending.len() == 0,
            !old(self)@.done,
        ensures
            final(self).wf(),
            (final(self)@, r) == after_flush(old(self)@, event),
    {
        match event {
            IoEvent::Failed => {
                return CopyAction::Return(CopyReturn::Error);
            },
            _ => {},
        }
        if self.read_done {
            if !self.suppress_shutdown {
                return CopyAction::Shutdown;
            }
            self.shutdown_done = true;
            return CopyAction::Return(CopyReturn::Ready);
        }
        CopyAction::Read { room: self.size }
    }

    /// Takes the outcome of shutting the writer down. A failed shutdown finishes the direction
    /// too.
    pub fn on_shutdown(&mut self, event: IoEvent) -> (r: CopyAction)
        requires
            old(self).wf(),
            old(self)@.pending.len() == 0,
            old(self)@.eof,
            !old(self)@.suppress_shutdown,
        ensures
            final(self).wf(),
            (final(self)@, r) == after_shutdown(old(self)@, event),
    {
        match event {
            IoEvent::Pending => CopyAction::Return(CopyReturn::Pending),
            _ => {
                self.shutdown_done = true;
                CopyAction::Return(CopyReturn::Ready)
            },
        }
    }

    /// Takes the outcome of reading into the empty buffer.
    pub fn on_read(&mut self, event: ReadEvent<'_>) -> (r: CopyAction)
        requires
            old(self).wf(),
            old(self)@.pending.len() == 0,
            !old(self)@.done,
            event matches ReadEvent::Bytes(b) ==> b@.len() <= old(self)@.size,
        ensures
            final(self).wf(),
            (final(self)@, r) == after_read(old(self)@, event@),
    {
        match event {
            ReadEvent::Pending => CopyAction::Return(CopyReturn::Pending),
            ReadEvent::Failed => CopyAction::Return(CopyReturn::Error),
            ReadEvent::Bytes(b) => {
                if b.len() == 0 {
                    self.read_done = true;
                } else {
                    let ghost before = self@;
                    self.buf = Vec::new();
                    self.pos = 0;
                    self.append(b);
                    proof {
                        self.received@ = self.received@ + b@;
                        assert(before.pending =~= Seq::<u8>::empty());
                        assert(before.received =~= before.delivered);
                        assert(self.buf@ =~= b@);
                        assert(self@.pending =~= b@);
                        assert(self@ =~= refilled(before, b@));
                        assert(self@.received =~= self@.delivered + self@.pending);
                    }
                }
                self.top()
            },
        }
    }

    proof fn lemma_done_is_eof(&self)
        requires
            self.wf(),
            self@.done,
        ensures
            self@.eof,
    {
    }

    /// Nothing is lost, invented or reordered: what was written is a prefix of what was read,
    /// and a direction that has finished delivered everything. What was read and is still to be
    /// written always fits the buffer, however slow the writer is.
    pub proof fn law_delivers_in_order(&self)
        requires
            self.wf(),
        ensures
            copy_state_ok(self@),
            self@.delivered.is_prefix_of(self@.received),
            self@.done ==> self@.delivered == self@.received,
            self@.received.len() - self@.delivered.len() <= self@.size,
    {
        if self@.done {
            assert(self@.pending =~= Seq::<u8>::empty());
            assert(self@.delivered + self@.pending =~= self@.delivered);
        }
    }
}

/// One thing that is done for a direction, and how it went.
pub enum CopyTurn {
    /// It is polled.
    Poll,
    /// The writer is asked to take the pending bytes.
    Write(IoEvent),
    /// The reader is asked for bytes behind the pending ones.
    ReadAhead(ReadEventView),
    /// The writer is asked to flush.
    Flush(IoEvent),
    /// The writer is asked to shut down.
    Shutdown(IoEvent),
    /// The reader is asked for bytes into the empty buffer.
    Read(ReadEventView),
}

/// Whether what was read fits the room.
pub open spec fn read_fits(event: ReadEventView, room: int) -> bool {
    event matches ReadEventView::Bytes(b) ==> b.len() <= room
}

/// Whether a turn is what the last action asks for, and reader and writer keep to what they were
/// handed.
pub open spec fn turn_due(st: CopyState, action: CopyAction, turn: CopyTurn) -> bool {
    match (action, turn) {
        (CopyAction::Return(_), CopyTurn::Poll) => true,
        (CopyAction::Write, CopyTurn::Write(e)) => e matches IoEvent::Done(n) ==> n
            <= st.pending.len(),
        (CopyAction::ReadAhead { .. }, CopyTurn::ReadAhead(e)) => read_fits(e, st.size - st.used),
        (CopyAction::Flush, CopyTurn::Flush(_)) => true,
        (CopyAction::Shutdown, CopyTurn::Shutdown(_)) => true,
        (CopyAction::Read { .. }, CopyTurn::Read(e)) => read_fits(e, st.size as int),
        _ => false,
    }
}

/// What a turn comes to.
pub open spec fn copy_turn(st: CopyState, turn: CopyTurn) -> (CopyState, CopyAction) {
    match turn {
        CopyTurn::Poll => (st, after_start(st)),
        CopyTurn::Write(e) => after_write(st, e),
        CopyTurn::ReadAhead(e) => after_read_ahead(st, e),
        CopyTurn::Flush(e) => after_flush(st, e),
        CopyTurn::Shutdown(e) => after_shutdown(st, e),
        CopyTurn::Read(e) => after_read(st, e),
    }
}

/// Where a direction stands after all of `turns`, and what its last action is. Before the first
/// turn it waits to be polled.
pub open spec fn copied(start: CopyState, turns: Seq<CopyTurn>) -> (CopyState, CopyAction)
    decreases turns.len(),
{
    if turns.len() == 0 {
        (start, CopyAction::Return(CopyReturn::Pending))
    } else {
        copy_turn(copied(start, turns.drop_last()).0, turns.last())
    }
}

/// Whether every turn is what the action before it asks for.
pub open spec fn turns_follow(start: CopyState, turns: Seq<CopyTurn>) -> bool
    decreases turns.len(),
{
    if turns.len() == 0 {
        true
    } else {
        let (st, action) = copied(start, turns.drop_last());
        turns_follow(start, turns.drop_last()) && turn_due(st, action, turns.last())
    }
}

/// The bytes that the reader gave, in order.
pub open spec fn obtained(turns: Seq<CopyTurn>) -> Seq<u8>
    decreases turns.len(),
{
    if turns.len() == 0 {
        Seq::empty()
    } else {
        match turns.last() {
            CopyTurn::ReadAhead(ReadEventView::Bytes(b)) => obtained(turns.drop_last()) + b,
            CopyTurn::Read(ReadEventView::Bytes(b)) => obtained(turns.drop_last()) + b,
            _ => obtained(turns.drop_last()),
        }
    }
}

/// The bytes that the writer took of those that it was handed, in order.
pub open spec fn accepted(start: CopyState, turns: Seq<CopyTurn>) -> Seq<u8>
    decreases turns.len(),
{
    if turns.len() == 0 {
        Seq::empty()
    } else {
        match turns.last() {
            CopyTurn::Write(IoEvent::Done(n)) => accepted(start, turns.drop_last()) + copied(
                start,
                turns.drop_last(),
            ).0.pending.take(n as int),
            _ => accepted(start, turns.drop_last()),
        }
    }
}

/// Whether the writer was asked to shut down.
pub open spec fn shutdown_asked(turns: Seq<CopyTurn>) -> bool
    decreases turns.len(),
{
    turns.len() > 0 && (turns.last() is Shutdown || shutdown_asked(turns.drop_last()))
}

/// A state that a direction can be in: every byte read has been written or is pending, in order,
/// and it finishes only with its reader at the end and nothing pending.
pub open spec fn copy_state_ok(st: CopyState) -> bool {
    &&& st.pending.len() <= st.used <= st.size
    &&& st.received == st.delivered + st.pending
    &&& st.done ==> st.eof && st.pending.len() == 0
}

spec fn action_fits(st: CopyState, action: CopyAction) -> bool {
    match action {
        CopyAction::Write => !st.done && st.pending.len() > 0,
        CopyAction::ReadAhead { .. } => !st.done && st.pending.len() > 0 && !st.eof,
        CopyAction::Flush => !st.done && st.pending.len() == 0,
        CopyAction::Shutdown => !st.done && st.pending.len() == 0 && st.eof
            && !st.suppress_shutdown,
        CopyAction::Read { .. } => !st.done && st.pending.len() == 0 && !st.eof,
        CopyAction::Return(r) => r == CopyReturn::Ready ==> st.done,
    }
}

proof fn lemma_copied(start: CopyState, turns: Seq<CopyTurn>)
    requires
        copy_state_ok(start),
        turns_follow(start, turns),
    ensures
        ({
            let (st, action) = copied(start, turns);
            &&& copy_state_ok(st)
            &&& action_fits(st, action)
            &&& st.size == start.size && st.suppress_shutdown == start.suppress_shutdown
            &&& st.received == start.received + obtained(turns)
            &&& st.delivered == start.delivered + accepted(start, turns)
            &&& shutdown_asked(turns) ==> !start.suppress_shutdown
            &&& st.done ==> start.done || action == CopyAction::Return(CopyReturn::Ready)
            &&& st.done && !start.done && !start.suppress_shutdown ==> shutdown_asked(turns)
        }),
    decreases turns.len(),
{
    if turns.len() == 0 {
        assert(start.received + Seq::<u8>::empty() =~= start.received);
        assert(start.delivered + Seq::<u8>::empty() =~= start.delivered);
    } else {
        let init = turns.drop_last();
        lemma_copied(start, init);
        let (before, _) = copied(start, init);
        let (st, _) = copied(start, turns);
        match turns.last() {
            CopyTurn::Write(IoEvent::Done(n)) => {
                if n == 0 {
                    assert(before.pending.take(0) =~= Seq::<u8>::empty());
                    assert(accepted(start, turns) =~= accepted(start, init));
                } else {
                    assert(st.delivered =~= start.delivered + accepted(start, turns));
                    assert(st.delivered + st.pending =~= before.delivered + before.pending);
                }
            },
            CopyTurn::ReadAhead(ReadEventView::Bytes(b)) => {
                assert(start.received + obtained(turns) =~= start.received + obtained(init) + b);
                if b.len() == 0 {
                    assert(b =~= Seq::<u8>::empty());
                    assert(start.received + obtained(turns) =~= start.received + obtained(init));
                } else {
                    assert(st.delivered + st.pending =~= before.delivered + before.pending + b);
                }
            },
            CopyTurn::Read(ReadEventView::Bytes(b)) => {
                assert(start.received + obtained(turns) =~= start.received + obtained(init) + b);
                assert(before.pending =~= Seq::<u8>::empty());
                assert(before.delivered + before.pending =~= before.delivered);
                if b.len() == 0 {
                    assert(b =~= Seq::<u8>::empty());
                    assert(start.received + obtained(turns) =~= start.received + obtained(init));
                }
            },
            _ => {},
        }
    }
}

/// Over a whole run, however reader and writer behave: what the writer took is in order what the
/// reader gave, as far as it took anything. The writer is never asked to shut down where that is
/// suppressed. A direction that has finished has come to its reader's end, has handed over
/// everything, and has asked the writer to shut down exactly if that is not suppressed.
pub proof fn law_direction_run(size: nat, suppress_shutdown: bool, turns: Seq<CopyTurn>)
    requires
        turns_follow(fresh_direction(size, suppress_shutdown), turns),
    ensures
        ({
            let start = fresh_direction(size, suppress_shutdown);
            let (st, action) = copied(start, turns);
            &&& st.received == obtained(turns)
            &&& st.delivered == accepted(start, turns)
            &&& accepted(start, turns).is_prefix_of(obtained(turns))
            &&& shutdown_asked(turns) ==> !suppress_shutdown
            &&& st.done <==> action == CopyAction::Return(CopyReturn::Ready)
            &&& st.done ==> st.eof && accepted(start, turns) == obtained(turns) && (shutdown_asked(
                turns,
            ) <==> !suppress_shutdown)
        }),
{
    let start = fresh_direction(size, suppress_shutdown);
    assert(start.delivered + start.pending =~= start.received);
    lemma_copied(start, turns);
    let (st, _) = copied(start, turns);
    assert(start.received + obtained(turns) =~= obtained(turns));
    assert(start.delivered + accepted(start, turns) =~= accepted(start, turns));
    if st.done {
        assert(st.pending =~= Seq::<u8>::empty());
        assert(st.delivered + st.pending =~= st.delivered);
    }
}

/// A direction that has finished touches neither its reader nor its writer again: it can only be
/// polled, and says each time that it has finished.
pub proof fn law_finished_direction_rests(start: CopyState, turns: Seq<CopyTurn>, k: int)
    requires
        copy_state_ok(start),
        turns_follow(start, turns),
        0 <= k <= turns.len(),
        copied(start, turns.take(k)).0.done,
    ensures
        copied(start, turns).0 == copied(start, turns.take(k)).0,
        forall|i: int| k <= i < turns.len() ==> #[trigger] turns[i] is Poll,
        k < turns.len() ==> copied(start, turns).1 == CopyAction::Return(CopyReturn::Ready),
    decreases turns.len(),
{
    if k == turns.len() {
        assert(turns.take(k) =~= turns);
    } else {
        let init = turns.drop_last();
        assert(init.take(k) =~= turns.take(k));
        law_finished_direction_rests(start, init, k);
        lemma_copied(start, init);
        assert forall|i: int| k <= i < turns.len() implies #[trigger] turns[i] is Poll by {
            if i < init.len() {
                assert(init[i] is Poll);
            }
        }
    }
}

/// What follows one round over both directions.
#[derive(PartialEq, Eq, Structural)]
pub enum RoundNext {
    /// A direction failed.
    Fail,
    /// Both directions have finished.
    Finish,
    /// Wait for more; the idle timer starts anew exactly if bytes moved in this round.
    Wait { reset_idle: bool },
}

/// The traffic to be recorded for a user.
#[derive(PartialEq, Eq, Structural)]
pub struct Traffic {
    pub upload: Option<u64>,
    pub download: Option<u64>,
}

/// The traffic of a direction, if there was any.
pub open spec fn some_if_positive(n: int) -> Option<u64> {
    if n > 0 {
        Some(n as u64)
    } else {
        None
    }
}

/// Where a relay stands.
pub struct RelayState {
    /// The direction from the client to the remote.
    pub a_to_b: CopyState,
    /// The direction from the remote to the client.
    pub b_to_a: CopyState,
    /// Seconds of silence in both directions that end it.
    pub idle_secs: nat,
}

/// A relay that has moved nothing yet. The end of `a` is kept from `b` if asked; the end of `b`
/// always reaches `a`. The times after the end of one side are not looked at.
pub open spec fn fresh_relay(
    idle_timeout_secs: nat,
    uplink_only_secs: nat,
    downlink_only_secs: nat,
    buffer_size: nat,
    suppress_a_to_b_shutdown: bool,
) -> RelayState {
    RelayState {
        a_to_b: fresh_direction(buffer_size, suppress_a_to_b_shutdown),
        b_to_a: fresh_direction(buffer_size, false),
        idle_secs: idle_timeout_secs,
    }
}

/// Whether the outcome of polling one direction ends the relay with an error.
pub open spec fn failing(outcome: CopyReturn) -> bool {
    outcome == CopyReturn::Error || outcome == CopyReturn::WriteZero
}

/// What follows a round that left the relay in `st`, given the byte counts before it and what
/// polling each direction came to.
pub open spec fn round_next(
    st: RelayState,
    a_before: nat,
    b_before: nat,
    a: CopyReturn,
    b: Option<CopyReturn>,
) -> RoundNext {
    if failing(a) || (b matches Some(outcome) && failing(outcome)) {
        RoundNext::Fail
    } else if st.a_to_b.done && st.b_to_a.done {
        RoundNext::Finish
    } else {
        RoundNext::Wait {
            reset_idle: st.a_to_b.delivered.len() > a_before || st.b_to_a.delivered.len()
                > b_before,
        }
    }
}

/// How a relay ends after a round; none where it goes on. The idle timer counts only where the
/// relay waits.
pub open spec fn round_end(next: RoundNext, timer_fired: bool) -> Option<RelayTermination> {
    match next {
        RoundNext::Fail => Some(RelayTermination::Error),
        RoundNext::Finish => Some(RelayTermination::Completed),
        RoundNext::Wait { .. } => if timer_fired {
            Some(RelayTermination::IdleTimeout)
        } else {
            None
        },
    }
}

/// The traffic of a relay.
pub open spec fn relay_traffic(st: RelayState) -> Traffic {
    Traffic {
        upload: some_if_positive(st.a_to_b.delivered.len() as int),
        download: some_if_positive(st.b_to_a.delivered.len() as int),
    }
}

/// The result of a relay that ended so.
pub open spec fn relay_result(st: RelayState, termination: RelayTermination) -> Option<CopyResult> {
    if termination == RelayTermination::Error {
        None
    } else {
        Some(
            CopyResult {
                a_to_b: st.a_to_b.delivered.len() as u64,
                b_to_a: st.b_to_a.delivered.len() as u64,
                completed: termination == RelayTermination::Completed,
                termination,
                client_eof: st.a_to_b.eof,
                remote_eof: st.b_to_a.eof,
            },
        )
    }
}

/// A relay between a client `a` and a remote `b`.
pub struct Relay {
    pub a_to_b: DirectionalBuffer,
    pub b_to_a: DirectionalBuffer,
    pub idle_secs: u64,
}

impl View for Relay {
    type V = RelayState;

    open spec fn view(&self) -> RelayState {
        RelayState {
            a_to_b: self.a_to_b@,
            b_to_a: self.b_to_a@,
            idle_secs: self.idle_secs as nat,
        }
    }
}

impl Relay {
    /// Both directions are well-formed.
    pub open spec fn wf(&self) -> bool {
        self.a_to_b.wf() && self.b_to_a.wf()
    }

    /// A relay that has moved nothing yet. It waits for the other side however long once one side
    /// has ended: the two times for that are taken, and not looked at.
    pub fn new(
        idle_timeout_secs: u64,
        uplink_only_secs: u64,
        downlink_only_secs: u64,
        buffer_size: usize,
        suppress_a_to_b_shutdown: bool,
    ) -> (r: Self)
        ensures
            r.wf(),
            r@ == fresh_relay(
                idle_timeout_secs as nat,
                uplink_only_secs as nat,
                downlink_only_secs as nat,
                buffer_size as nat,
                suppress_a_to_b_shutdown,
            ),
    {
        let _ = (uplink_only_secs, downlink_only_secs);
        Relay {
            a_to_b: DirectionalBuffer::new(buffer_size, suppress_a_to_b_shutdown),
            b_to_a: DirectionalBuffer::new(buffer_size, false),
            idle_secs: idle_timeout_secs,
        }
    }

    /// Whether the outcome of polling one direction ends the relay with an error.
    pub fn fails(outcome: CopyReturn) -> (r: bool)
        ensures
            r == failing(outcome),
    {
        match outcome {
            CopyReturn::Error => true,
            CopyReturn::WriteZero => true,
            CopyReturn::Ready => false,
            CopyReturn::Pending => false,
        }
    }

    /// What follows a round, given the byte counts before it and what polling each direction came
    /// to. The second direction is not polled where the first failed.
    pub fn end_round(
        &self,
        a_before: u64,
        b_before: u64,
        a: CopyReturn,
        b: Option<CopyReturn>,
    ) -> (r: RoundNext)
        requires
            self.wf(),
        ensures
            r == round_next(self@, a_before as nat, b_before as nat, a, b),
    {
        if Self::fails(a) {
            return RoundNext::Fail;
        }
        if let Some(outcome) = b {
            if Self::fails(outcome) {
                return RoundNext::Fail;
            }
        }
        if self.a_to_b.is_done() && self.b_to_a.is_done() {
            return RoundNext::Finish;
        }
        RoundNext::Wait {
            reset_idle: self.a_to_b.bytes_transferred() > a_before
                || self.b_to_a.bytes_transferred() > b_before,
        }
    }

    /// How the relay ends after a round, given whether the idle timer has fired; none where it
    /// goes on.
    pub fn ending(next: &RoundNext, timer_fired: bool) -> (r: Option<RelayTermination>)
        ensures
            r == round_end(*next, timer_fired),
    {
        match next {
            RoundNext::Fail => Some(RelayTermination::Error),
            RoundNext::Finish => Some(RelayTermination::Completed),
            RoundNext::Wait { .. } => if timer_fired {
                Some(RelayTermination::IdleTimeout)
            } else {
                None
            },
        }
    }

    /// What is recorded for the user: what the client sent and what it was sent, however the
    /// relay ended; a direction that moved nothing is not recorded.
    pub fn traffic(&self) -> (r: Traffic)
        requires
            self.wf(),
        ensures
            r == relay_traffic(self@),
            r.upload == some_if_positive(self.a_to_b@.delivered.len() as int),
            r.download == some_if_positive(self.b_to_a@.delivered.len() as int),
    {
        let up: u64 = self.a_to_b.bytes_transferred();
        let down: u64 = self.b_to_a.bytes_transferred();
        Traffic {
            upload: if up > 0 {
                Some(up)
            } else {
                None
            },
            download: if down > 0 {
                Some(down)
            } else {
                None
            },
        }
    }

    /// The result of a relay that ended so; none if it ended with an error.
    pub fn result(&self, termination: RelayTermination) -> (r: Option<CopyResult>)
        requires
            self.wf(),
        ensures
            r == relay_result(self@, termination),
            match r {
                None => termination == RelayTermination::Error,
                Some(c) => {
                    &&& termination != RelayTermination::Error
                    &&& c.termination == termination
                    &&& c.completed == (termination == RelayTermination::Completed)
                    &&& c.a_to_b == self.a_to_b@.delivered.len()
                    &&& c.b_to_a == self.b_to_a@.delivered.len()
                    &&& c.client_eof == self.a_to_b@.eof
                    &&& c.remote_eof == self.b_to_a@.eof
                },
            },
    {
        if termination == RelayTermination::Error {
            return None;
        }
        Some(
            CopyResult {
                a_to_b: self.a_to_b.bytes_transferred(),
                b_to_a: self.b_to_a.bytes_transferred(),
                completed: termination == RelayTermination::Completed,
                termination,
                client_eof: self.a_to_b.has_read_eof(),
                remote_eof: self.b_to_a.has_read_eof(),
            },
        )
    }

    /// A relay that completed carried everything both ways: each side was sent exactly what the
    /// other side sent, and both sides had ended.
    pub proof fn law_completed_carries_everything(&self)
        requires
            self.wf(),
            self.a_to_b@.done,
            self.b_to_a@.done,
        ensures
            self.a_to_b@.delivered == self.a_to_b@.received,
            self.b_to_a@.delivered == self.b_to_a@.received,
            self.a_to_b@.eof && self.b_to_a@.eof,
    {
        self.a_to_b.law_delivers_in_order();
        self.b_to_a.law_delivers_in_order();
        self.a_to_b.lemma_done_is_eof();
        self.b_to_a.lemma_done_is_eof();
    }
}

/// One round of a relay: what was done for each direction, when the idle timer was looked at, in
/// nanoseconds since the start, and whether it had fired.
pub struct RelayRound {
    pub a: Seq<CopyTurn>,
    pub b: Seq<CopyTurn>,
    pub at: nat,
    pub timer_fired: bool,
}

/// A relay on its way: where it stands, when its idle timer was set, and how it ended if it has.
pub struct RelayRun {
    pub state: RelayState,
    pub set_at: nat,
    pub end: Option<RelayTermination>,
}

/// What a poll came to whose last action this is.
pub open spec fn returned(action: CopyAction) -> CopyReturn {
    match action {
        CopyAction::Return(r) => r,
        _ => CopyReturn::Pending,
    }
}

/// Whether the first direction fails in a round.
pub open spec fn first_fails(run: RelayRun, round: RelayRound) -> bool {
    failing(returned(copied(run.state.a_to_b, round.a).1))
}

/// A relay after one more round; one that has ended takes no more rounds.
pub open spec fn relay_round(run: RelayRun, round: RelayRound) -> RelayRun {
    let before = run.state;
    let (a, a_action) = copied(before.a_to_b, round.a);
    let (b, b_action) = copied(before.b_to_a, round.b);
    if run.end is Some {
        run
    } else if first_fails(run, round) {
        RelayRun {
            state: RelayState { a_to_b: a, ..before },
            end: Some(RelayTermination::Error),
            ..run
        }
    } else {
        let state = RelayState { a_to_b: a, b_to_a: b, ..before };
        let next = round_next(
            state,
            before.a_to_b.delivered.len(),
            before.b_to_a.delivered.len(),
            returned(a_action),
            Some(returned(b_action)),
        );
        RelayRun {
            state,
            set_at: if next == (RoundNext::Wait { reset_idle: true }) {
                round.at
            } else {
                run.set_at
            },
            end: round_end(next, round.timer_fired),
        }
    }
}

/// A relay after all of `rounds`. Its idle timer is set at the start.
pub open spec fn relayed(start: RelayState, rounds: Seq<RelayRound>) -> RelayRun
    decreases rounds.len(),
{
    if rounds.len() == 0 {
        RelayRun { state: start, set_at: 0, end: None }
    } else {
        relay_round(relayed(start, rounds.drop_last()), rounds.last())
    }
}

/// Nanoseconds of a number of seconds.
pub open spec fn nanos(secs: nat) -> nat {
    secs * 1_000_000_000
}

/// Whether a round takes its course: each direction is polled until it returns, the second only
/// where the first does not fail, and the idle timer fires no sooner than the idle time after it
/// was set.
pub open spec fn round_due(run: RelayRun, round: RelayRound) -> bool {
    &&& turns_follow(run.state.a_to_b, round.a)
    &&& copied(run.state.a_to_b, round.a).1 is Return
    &&& !first_fails(run, round) ==> turns_follow(run.state.b_to_a, round.b) && copied(
        run.state.b_to_a,
        round.b,
    ).1 is Return
    &&& round.timer_fired ==> round.at >= relay_round(run, round).set_at + nanos(
        run.state.idle_secs,
    )
}

/// Whether every round takes its course, up to the end of the relay.
pub open spec fn rounds_follow(start: RelayState, rounds: Seq<RelayRound>) -> bool
    decreases rounds.len(),
{
    if rounds.len() == 0 {
        true
    } else {
        let run = relayed(start, rounds.drop_last());
        rounds_follow(start, rounds.drop_last()) && run.end is None && round_due(run, rounds.last())
    }
}

/// Whether a byte was written in either direction in round `i`.
pub open spec fn moved_in(start: RelayState, rounds: Seq<RelayRound>, i: int) -> bool {
    let before = relayed(start, rounds.take(i)).state;
    let after = relayed(start, rounds.take(i + 1)).state;
    after.a_to_b.delivered.len() > before.a_to_b.delivered.len() || after.b_to_a.delivered.len()
        > before.b_to_a.delivered.len()
}

/// When round `i` took place; the start where there is none.
pub open spec fn time_of(rounds: Seq<RelayRound>, i: int) -> nat {
    if i < 0 {
        0
    } else {
        rounds[i].at
    }
}

/// Whether no byte was written in either direction in the rounds behind round `j`.
pub open spec fn silent_behind(start: RelayState, rounds: Seq<RelayRound>, j: int) -> bool {
    -1 <= j < rounds.len() && forall|i: int|
        j < i < rounds.len() ==> !#[trigger] moved_in(start, rounds, i)
}

/// The idle timer was set in the last round in which a byte was written, or else at the start.
proof fn lemma_timer_set(start: RelayState, rounds: Seq<RelayRound>) -> (j: int)
    requires
        rounds_follow(start, rounds),
        relayed(start, rounds).end is None || relayed(start, rounds).end == Some(
            RelayTermination::IdleTimeout,
        ),
    ensures
        silent_behind(start, rounds, j),
        j >= 0 ==> moved_in(start, rounds, j),
        relayed(start, rounds).set_at == time_of(rounds, j),
        relayed(start, rounds).state.idle_secs == start.idle_secs,
    decreases rounds.len(),
{
    if rounds.len() == 0 {
        -1
    } else {
        let init = rounds.drop_last();
        let n = init.len() as int;
        let k = lemma_timer_set(start, init);
        assert(rounds.take(n) =~= init);
        assert(rounds.take(n + 1) =~= rounds);
        if moved_in(start, rounds, n) {
            n
        } else {
            if k >= 0 {
                assert(rounds.take(k) =~= init.take(k));
                assert(rounds.take(k + 1) =~= init.take(k + 1));
                assert(moved_in(start, init, k));
            }
            assert forall|i: int| k < i < rounds.len() implies !#[trigger] moved_in(
                start,
                rounds,
                i,
            ) by {
                if i < n {
                    assert(rounds.take(i) =~= init.take(i));
                    assert(rounds.take(i + 1) =~= init.take(i + 1));
                    assert(!moved_in(start, init, i));
                }
            }
            k
        }
    }
}

/// Only silence ends a relay early: where the idle timer ended it, no byte was written in either
/// direction for at least the idle time.
pub proof fn law_only_silence_ends_early(start: RelayState, rounds: Seq<RelayRound>)
    requires
        rounds_follow(start, rounds),
        relayed(start, rounds).end == Some(RelayTermination::IdleTimeout),
    ensures
        exists|j: int|
            #[trigger] silent_behind(start, rounds, j) && rounds.last().at >= time_of(rounds, j)
                + nanos(start.idle_secs),
{
    let j = lemma_timer_set(start, rounds);
    let _ = lemma_timer_set(start, rounds.drop_last());
}

/// A round in which no byte is written in either direction leaves the idle timer as it was set,
/// and one in which a byte is written sets it anew, as long as the relay waits.
pub proof fn law_timer_restarts_iff_bytes_move(before: RelayRun, round: RelayRound)
    requires
        before.end is None,
    ensures
        ({
            let after = relay_round(before, round);
            let moved = after.state.a_to_b.delivered.len() > before.state.a_to_b.delivered.len()
                || after.state.b_to_a.delivered.len() > before.state.b_to_a.delivered.len();
            after.end is None || after.end == Some(RelayTermination::IdleTimeout) ==> after.set_at
                == (if moved {
                round.at
            } else {
                before.set_at
            })
        }),
{
}

/// After a round that the relay waits after, the idle timer starts anew if and only if one of the
/// two byte counts has grown in that round.
pub proof fn law_wait_resets_iff_counts_grow(
    st: RelayState,
    a_before: nat,
    b_before: nat,
    a: CopyReturn,
    b: Option<CopyReturn>,
)
    ensures
        round_next(st, a_before, b_before, a, b) matches RoundNext::Wait { reset_idle } ==> (
        reset_idle <==> st.a_to_b.delivered.len() > a_before || st.b_to_a.delivered.len()
            > b_before),
        round_next(st, a_before, b_before, a, b) is Fail <==> a == CopyReturn::Error || a
            == CopyReturn::WriteZero || b == Some(CopyReturn::Error) || b == Some(
            CopyReturn::WriteZero,
        ),
        round_next(st, a_before, b_before, a, b) is Finish ==> st.a_to_b.done && st.b_to_a.done,
        round_next(st, a_before, b_before, a, b) is Wait ==> !st.a_to_b.done || !st.b_to_a.done,
{
}

/// The time at which the idle timer is set is exactly that of the last round in which a byte was
/// written in either direction, or the start where there is no such round.
pub proof fn law_timer_counts_from_last_byte(start: RelayState, rounds: Seq<RelayRound>)
    requires
        rounds_follow(start, rounds),
        relayed(start, rounds).end is None || relayed(start, rounds).end == Some(
            RelayTermination::IdleTimeout,
        ),
    ensures
        exists|j: int|
            #[trigger] silent_behind(start, rounds, j) && (j >= 0 ==> moved_in(start, rounds, j))
                && relayed(start, rounds).set_at == time_of(rounds, j),
{
    let j = lemma_timer_set(start, rounds);
}

/// Whether rounds take place one after another in time.
pub open spec fn in_time(rounds: Seq<RelayRound>) -> bool {
    forall|i: int, j: int|
        0 <= i <= j < rounds.len() ==> (#[trigger] rounds[i]).at <= (#[trigger] rounds[j]).at
}

/// Silence does end a relay: where no byte was written in either direction behind round `j`, and
/// the idle timer, which fires once its time is up, is looked at no sooner than the idle time
/// after that round, the relay has ended, by the idle timeout if nothing else ended it.
pub proof fn law_silence_ends_relay(start: RelayState, rounds: Seq<RelayRound>, j: int)
    requires
        rounds.len() > 0,
        rounds_follow(start, rounds),
        in_time(rounds),
        silent_behind(start, rounds, j),
        rounds.last().at >= time_of(rounds, j) + nanos(start.idle_secs),
        rounds.last().at >= relayed(start, rounds).set_at + nanos(start.idle_secs)
            ==> rounds.last().timer_fired,
    ensures
        relayed(start, rounds).end is Some,
        relayed(start, rounds).end == Some(RelayTermination::IdleTimeout) || relayed(
            start,
            rounds,
        ).end == Some(RelayTermination::Error) || (relayed(start, rounds).state.a_to_b.done
            && relayed(start, rounds).state.b_to_a.done),
{
    if relayed(start, rounds).end is None {
        let k = lemma_timer_set(start, rounds);
        if k > j {
            assert(!moved_in(start, rounds, k));
        }
        if k >= 0 {
            assert(rounds[k].at <= rounds[j].at);
        }
    }
}

/// There are three ways for a relay to end, and each has its own cause: a direction failed, both
/// directions have finished, or the idle timer has fired. Without one of these it goes on, however
/// long ago one side has ended.
pub proof fn law_relay_waits_for_both_sides(start: RelayState, rounds: Seq<RelayRound>)
    requires
        rounds.len() > 0,
        relayed(start, rounds.drop_last()).end is None,
    ensures
        ({
            let before = relayed(start, rounds.drop_last());
            let last = rounds.last();
            let after = relayed(start, rounds);
            let second_fails = failing(returned(copied(before.state.b_to_a, last.b).1));
            after.end == (if first_fails(before, last) || second_fails {
                Some(RelayTermination::Error)
            } else if after.state.a_to_b.done && after.state.b_to_a.done {
                Some(RelayTermination::Completed)
            } else if last.timer_fired {
                Some(RelayTermination::IdleTimeout)
            } else {
                None
            })
        }),
{
}

/// The times for what follows the end of one side make no difference: whatever they are, the same
/// rounds lead to the same bytes, the same state and the same end.
pub proof fn law_half_close_times_are_ignored(
    idle_timeout_secs: nat,
    uplink_only: (nat, nat),
    downlink_only: (nat, nat),
    buffer_size: nat,
    suppress_a_to_b_shutdown: bool,
    rounds: Seq<RelayRound>,
)
    ensures
        relayed(
            fresh_relay(
                idle_timeout_secs,
                uplink_only.0,
                downlink_only.0,
                buffer_size,
                suppress_a_to_b_shutdown,
            ),
            rounds,
        ) == relayed(
            fresh_relay(
                idle_timeout_secs,
                uplink_only.1,
                downlink_only.1,
                buffer_size,
                suppress_a_to_b_shutdown,
            ),
            rounds,
        ),
{
}

proof fn lemma_relayed_ok(start: RelayState, rounds: Seq<RelayRound>)
    requires
        copy_state_ok(start.a_to_b),
        copy_state_ok(start.b_to_a),
        rounds_follow(start, rounds),
    ensures
        copy_state_ok(relayed(start, rounds).state.a_to_b),
        copy_state_ok(relayed(start, rounds).state.b_to_a),
    decreases rounds.len(),
{
    if rounds.len() > 0 {
        let before = relayed(start, rounds.drop_last());
        lemma_relayed_ok(start, rounds.drop_last());
        lemma_copied(before.state.a_to_b, rounds.last().a);
        if !first_fails(before, rounds.last()) {
            lemma_copied(before.state.b_to_a, rounds.last().b);
        }
    }
}

/// At every point of a relay's way, what each side was sent is in order what the other side sent,
/// as far as it has come; a relay that completed carried everything both ways, and both sides had
/// ended.
pub proof fn law_relay_carries_in_order(start: RelayState, rounds: Seq<RelayRound>)
    requires
        copy_state_ok(start.a_to_b),
        copy_state_ok(start.b_to_a),
        rounds_follow(start, rounds),
    ensures
        ({
            let run = relayed(start, rounds);
            let (a, b) = (run.state.a_to_b, run.state.b_to_a);
            &&& a.delivered.is_prefix_of(a.received) && b.delivered.is_prefix_of(b.received)
            &&& run.end == Some(RelayTermination::Completed) ==> a.eof && b.eof && a.delivered
                == a.received && b.delivered == b.received
        }),
{
    lemma_relayed_ok(start, rounds);
    let run = relayed(start, rounds);
    let (a, b) = (run.state.a_to_b, run.state.b_to_a);
    if a.pending.len() == 0 {
        assert(a.delivered + a.pending =~= a.delivered);
    }
    if b.pending.len() == 0 {
        assert(b.delivered + b.pending =~= b.delivered);
    }
}

/// A direction that has moved nothing yet.
pub open spec fn fresh_direction(size: nat, suppress_shutdown: bool) -> CopyState {
    CopyState {
        size,
        used: 0,
        received: Seq::empty(),
        delivered: Seq::empty(),
        pending: Seq::empty(),
        eof: false,
        done: false,
        suppress_shutdown,
    }
}

/// Whether the outcome of a read holds bytes.
pub open spec fn brings_bytes(event: ReadEventView) -> bool {
    event matches ReadEventView::Bytes(b) && b.len() > 0
}

/// Each turn leads to what the direction owes next, whatever the bytes and the sizes are: a poll
/// writes what is pending before it reads; a writer that blocks is no reason to stop reading while
/// there is room; what was read is written; only an end of the reader with nothing pending leads
/// to a shutdown; and waiting, failing and finishing each have their own cause.
pub proof fn law_turns_lead_on(st: CopyState, turn: CopyTurn)
    ensures
        ({
            let (next, action) = copy_turn(st, turn);
            match turn {
                CopyTurn::Poll => next == st && (if st.done {
                    action == CopyAction::Return(CopyReturn::Ready)
                } else if st.pending.len() > 0 {
                    action is Write
                } else {
                    action is Flush
                }),
                CopyTurn::Write(IoEvent::Pending) => next == st && (action is ReadAhead <==> !st.eof
                    && st.used < st.size) && (!(action is ReadAhead) ==> action
                    == CopyAction::Return(CopyReturn::Pending)) && (action
                    matches CopyAction::ReadAhead { room } ==> room == (st.size - st.used) as usize),
                CopyTurn::Write(IoEvent::Failed) => next == st && action == CopyAction::Return(
                    CopyReturn::Error,
                ),
                CopyTurn::Write(IoEvent::Done(n)) => if n == 0 {
                    next == st && action == CopyAction::Return(CopyReturn::WriteZero)
                } else {
                    n <= st.pending.len() ==> st.delivered + st.pending == next.delivered
                        + next.pending && next.delivered.len() == st.delivered.len() + n
                        && next.received == st.received && next.used == st.used && next.eof
                        == st.eof && next.done == st.done && (action is Write <==> n
                        < st.pending.len()) && (action is Flush <==> n == st.pending.len())
                },
                CopyTurn::ReadAhead(e) => action == CopyAction::Return(CopyReturn::Pending)
                    && next.delivered == st.delivered && next.done == st.done && next.eof == (st.eof
                    || !(e is Pending) && !brings_bytes(e)) && next.received == (if brings_bytes(
                    e,
                ) {
                    st.received + e->Bytes_0
                } else {
                    st.received
                }) && next.pending == (if brings_bytes(e) {
                    st.pending + e->Bytes_0
                } else {
                    st.pending
                }),
                CopyTurn::Flush(e) => next.delivered == st.delivered && next.pending == st.pending
                    && next.received == st.received && next.eof == st.eof && (if e is Failed {
                    next == st && action == CopyAction::Return(CopyReturn::Error)
                } else if !st.eof {
                    next == st && (action matches CopyAction::Read { room } && room
                        == st.size as usize)
                } else if st.suppress_shutdown {
                    next.done && action == CopyAction::Return(CopyReturn::Ready)
                } else {
                    next == st && action is Shutdown
                }),
                CopyTurn::Shutdown(e) => next.delivered == st.delivered && next.pending
                    == st.pending && next.received == st.received && next.eof == st.eof && (if e
                    is Pending {
                    next == st && action == CopyAction::Return(CopyReturn::Pending)
                } else {
                    next.done && action == CopyAction::Return(CopyReturn::Ready)
                }),
                CopyTurn::Read(e) => next.delivered == st.delivered && next.done == st.done && (if e
                    is Pending {
                    next == st && action == CopyAction::Return(CopyReturn::Pending)
                } else if e is Failed {
                    next == st && action == CopyAction::Return(CopyReturn::Error)
                } else if brings_bytes(e) {
                    next.eof == st.eof && next.received == st.received + e->Bytes_0 && next.pending
                        == e->Bytes_0 && action is Write
                } else {
                    next.eof && next.received == st.received && next.pending == st.pending
                        && !(action is Return)
                }),
            }
        }),
{
    match turn {
        CopyTurn::Write(IoEvent::Done(n)) => {
            if 0 < n <= st.pending.len() {
                let next = copy_turn(st, turn).0;
                assert(st.delivered + st.pending =~= next.delivered + next.pending);
            }
        },
        _ => {},
    }
}

/// A new relay has the buffer and the idle time that it was asked for, keeps the end of the client
/// from the remote exactly if asked to, and never keeps that of the remote from the client.
pub proof fn law_new_relay_is_as_asked(
    idle: nat,
    uplink: nat,
    downlink: nat,
    size: nat,
    suppress: bool,
)
    ensures
        ({
            let st = fresh_relay(idle, uplink, downlink, size, suppress);
            &&& st.idle_secs == idle
            &&& st.a_to_b.size == size && st.b_to_a.size == size
            &&& st.a_to_b.suppress_shutdown == suppress && !st.b_to_a.suppress_shutdown
            &&& st.a_to_b.received.len() == 0 && st.b_to_a.received.len() == 0
            &&& copy_state_ok(st.a_to_b) && copy_state_ok(st.b_to_a)
            &&& !st.a_to_b.eof && !st.a_to_b.done && !st.b_to_a.eof && !st.b_to_a.done
        }),
{
    let st = fresh_direction(size, suppress);
    assert(st.delivered + st.pending =~= st.received);
}

/// A count of bytes is recorded as it is, and none is recorded only where nothing moved.
pub proof fn law_traffic_is_recorded(n: u64)
    ensures
        n > 0 ==> some_if_positive(n as int) == Some(n),
        some_if_positive(n as int) is None <==> n == 0,
{
}

/// What a relay reports is what it did: the bytes that the remote took are the upload, those that
/// the client took the download, in the result as in the traffic; whose end was seen is told
/// apart; and only an error has no result.
pub proof fn law_reports_tell_the_directions_apart(
    st: RelayState,
    termination: RelayTermination,
    up: u64,
    down: u64,
)
    requires
        st.a_to_b.delivered.len() == up,
        st.b_to_a.delivered.len() == down,
    ensures
        relay_traffic(st).upload == (if up > 0 {
            Some(up)
        } else {
            None
        }),
        relay_traffic(st).download == (if down > 0 {
            Some(down)
        } else {
            None
        }),
        relay_result(st, termination) is None <==> termination == RelayTermination::Error,
        relay_result(st, termination) matches Some(c) ==> c.a_to_b == up && c.b_to_a == down
            && c.client_eof == st.a_to_b.eof && c.remote_eof == st.b_to_a.eof && c.termination
            == termination && (c.completed <==> termination == RelayTermination::Completed),
{
}

/// No turn changes the size of the buffer nor whether the reader's end is kept back, and the buffer
/// fills by exactly what is read: behind what is in it while bytes are pending, from the start
/// when none are.
pub proof fn law_buffers_fill_by_what_is_read(st: CopyState, turn: CopyTurn)
    ensures
        ({
            let next = copy_turn(st, turn).0;
            &&& next.size == st.size && next.suppress_shutdown == st.suppress_shutdown
            &&& turn matches CopyTurn::ReadAhead(e) ==> next.used == (if brings_bytes(e) {
                st.used + e->Bytes_0.len()
            } else {
                st.used
            })
            &&& turn matches CopyTurn::Read(e) ==> next.used == (if brings_bytes(e) {
                e->Bytes_0.len()
            } else {
                st.used
            })
            &&& !(turn is ReadAhead) && !(turn is Read) ==> next.used == st.used && next.received
                == st.received && next.eof == st.eof
        }),
{
}

} // verus!
