//! A CONNECT stream of HTTP/2 as a byte stream: raw bytes, without framing of its own.
//!
//! Received bytes count against the peer's flow-control window until they are released; they
//! are released as they are handed to the reader, no sooner and no later.

use crate::buffer;
use crate::text;
use vstd::prelude::*;

verus! {

/// Largest frame that is sent.
pub const MAX_FRAME_SIZE: usize = 65536;

/// HTTP/2's reason for an orderly end.
pub const REASON_NO_ERROR: u32 = 0;

/// HTTP/2's reason for a cancelled stream.
pub const REASON_CANCEL: u32 = 8;

/// Whether an error is how streams end in the ordinary course.
pub open spec fn normal_close(reason: Option<u32>) -> bool {
    reason == Some(REASON_NO_ERROR) || reason == Some(REASON_CANCEL)
}

/// Whether an error is how streams end in the ordinary course.
pub fn is_normal_close(reason: Option<u32>) -> (r: bool)
    ensures
        r == normal_close(reason),
{
    match reason {
        Some(code) => code == REASON_NO_ERROR || code == REASON_CANCEL,
        None => false,
    }
}

/// Where a stream stands.
#[verifier::ext_equal]
pub struct H2State {
    /// Everything received so far.
    pub received: Seq<u8>,
    /// Everything handed to the reader so far.
    pub delivered: Seq<u8>,
    /// What was received and is still to be handed over.
    pub leftover: Seq<u8>,
    /// How much of the peer's window was released so far.
    pub released: nat,
    /// Whether the stream is closed.
    pub closed: bool,
}

/// What a read does.
#[derive(Debug, Clone, Copy, PartialEq, Eq, Structural)]
pub enum H2ReadStep {
    /// Report the end of the stream.
    End,
    /// Hand over what is left of the last chunk.
    Drain,
    /// Wait for the next chunk.
    Receive,
}

/// Bytes for the reader, and how much of the peer's window to release for them.
pub struct H2Delivery {
    pub data: Vec<u8>,
    pub release: usize,
}

/// What a write does.
#[derive(Debug, Clone, Copy, PartialEq, Eq, Structural)]
pub enum H2WriteStep {
    /// Report that the transport is closed.
    Closed,
    /// Ask for this much of the window.
    Reserve(usize),
    /// Send this many bytes.
    Send(usize),
    /// Wait until the window opens.
    Suspend,
    /// Report the window's error.
    Fail,
    /// Report that the stream is closed.
    StreamClosed,
}

/// How asking for the window went.
#[derive(Debug, Clone, Copy, PartialEq, Eq, Structural)]
pub enum CapacityEvent {
    /// The window is this wide.
    Granted(usize),
    /// An error.
    Failed,
    /// The stream has ended.
    Ended,
    /// Not yet.
    Pending,
}

/// The smaller of two numbers.
pub open spec fn least(a: int, b: int) -> int {
    if a <= b {
        a
    } else {
        b
    }
}

/// How many of `len` bytes fit the window and a frame.
pub open spec fn send_size(len: int, window: int) -> int {
    least(least(len, window), MAX_FRAME_SIZE as int)
}

/// The state once up to `room` of the bytes at hand are handed over.
pub open spec fn handed_over(st: H2State, room: nat) -> H2State {
    let n = least(st.leftover.len() as int, room as int);
    H2State {
        delivered: st.delivered + st.leftover.take(n),
        leftover: st.leftover.skip(n),
        released: (st.released + n) as nat,
        ..st
    }
}

/// The state once a chunk has arrived.
pub open spec fn arrived(st: H2State, chunk: Seq<u8>) -> H2State {
    H2State { received: st.received + chunk, leftover: st.leftover + chunk, ..st }
}

/// What a read does.
pub open spec fn next_read(st: H2State) -> H2ReadStep {
    if st.closed {
        H2ReadStep::End
    } else if st.leftover.len() > 0 {
        H2ReadStep::Drain
    } else {
        H2ReadStep::Receive
    }
}

/// What a write of `len` bytes does, given the width of the window.
pub open spec fn next_write(st: H2State, capacity: usize, len: usize) -> H2WriteStep {
    if st.closed {
        H2WriteStep::Closed
    } else if capacity == 0 {
        H2WriteStep::Reserve(least(len as int, MAX_FRAME_SIZE as int) as usize)
    } else {
        H2WriteStep::Send(send_size(len as int, capacity as int) as usize)
    }
}

/// What a write of `len` bytes does once it has asked for the window.
pub open spec fn write_granted(event: CapacityEvent, len: usize) -> H2WriteStep {
    match event {
        CapacityEvent::Granted(n) => if n > 0 {
            H2WriteStep::Send(send_size(len as int, n as int) as usize)
        } else {
            H2WriteStep::Suspend
        },
        CapacityEvent::Failed => H2WriteStep::Fail,
        CapacityEvent::Ended => H2WriteStep::StreamClosed,
        CapacityEvent::Pending => H2WriteStep::Suspend,
    }
}

/// A CONNECT stream of HTTP/2.
pub struct H2Transport {
    read_buf: bytes::Bytes,
    pending_release: usize,
    closed: bool,
    received: Ghost<Seq<u8>>,
    delivered: Ghost<Seq<u8>>,
    released: Ghost<nat>,
}

impl View for H2Transport {
    type V = H2State;

    closed spec fn view(&self) -> H2State {
        H2State {
            received: self.received@,
            delivered: self.delivered@,
            leftover: buffer::frozen(self.read_buf),
            released: self.released@,
            closed: self.closed,
        }
    }
}

impl H2Transport {
    /// Every byte received was handed over or is left, in order, and exactly what was handed
    /// over was released.
    pub closed spec fn wf(&self) -> bool {
        &&& self.pending_release == self@.leftover.len()
        &&& self@.received == self@.delivered + self@.leftover
        &&& self@.released == self@.delivered.len()
    }

    /// A stream that has carried nothing yet.
    pub fn new() -> (r: Self)
        ensures
            r.wf(),
            r@ == (H2State {
                received: Seq::empty(),
                delivered: Seq::empty(),
                leftover: Seq::empty(),
                released: 0,
                closed: false,
            }),
    {
        let r = H2Transport {
            read_buf: buffer::no_bytes(),
            pending_release: 0,
            closed: false,
            received: Ghost(Seq::empty()),
            delivered: Ghost(Seq::empty()),
            released: Ghost(0),
        };
        assert(r@.received =~= r@.delivered + r@.leftover);
        r
    }

    /// What a read does.
    pub fn read_step(&self) -> (r: H2ReadStep)
        ensures
            r == next_read(self@),
            r == (if self@.closed {
                H2ReadStep::End
            } else if self@.leftover.len() > 0 {
                H2ReadStep::Drain
            } else {
                H2ReadStep::Receive
            }),
    {
        if self.closed {
            H2ReadStep::End
        } else if buffer::frozen_slice(&self.read_buf).len() > 0 {
            H2ReadStep::Drain
        } else {
            H2ReadStep::Receive
        }
    }

    /// Hands over what is left of the last chunk, as far as the reader has room.
    pub fn drain(&mut self, room: usize) -> (r: H2Delivery)
        requires
            old(self).wf(),
        ensures
            final(self).wf(),
            final(self)@ == handed_over(old(self)@, room as nat),
            r.data@ == old(self)@.leftover.take(
                least(old(self)@.leftover.len() as int, room as int),
            ),
            r.release == r.data@.len(),
    {
        let ghost before = self@;
        let held: &[u8] = buffer::frozen_slice(&self.read_buf);
        let n: usize = if held.len() < room {
            held.len()
        } else {
            room
        };
        let data: Vec<u8> = text::bytes_of(vstd::slice::slice_subrange(held, 0, n));
        self.pending_release -= n;
        self.read_buf = buffer::bytes_from(&self.read_buf, n);
        proof {
            self.delivered@ = self.delivered@ + before.leftover.take(n as int);
            self.released@ = (self.released@ + n) as nat;
            assert(data@ =~= before.leftover.take(n as int));
            assert(self@ =~= handed_over(before, room as nat));
            assert(self@.received =~= self@.delivered + self@.leftover);
        }
        H2Delivery { data, release: n }
    }

    /// Takes the next chunk, and hands it over as far as the reader has room.
    pub fn on_chunk(&mut self, chunk: bytes::Bytes, room: usize) -> (r: H2Delivery)
        requires
            old(self).wf(),
            old(self)@.leftover.len() == 0,
        ensures
            final(self).wf(),
            final(self)@ == handed_over(arrived(old(self)@, buffer::frozen(chunk)), room as nat),
            r.data@ == buffer::frozen(chunk).take(
                least(buffer::frozen(chunk).len() as int, room as int),
            ),
            r.release == r.data@.len(),
    {
        let ghost before = self@;
        let len: usize = buffer::frozen_slice(&chunk).len();
        self.pending_release = len;
        let ghost bytes = buffer::frozen(chunk);
        self.read_buf = chunk;
        proof {
            self.received@ = self.received@ + bytes;
            assert(before.leftover =~= Seq::<u8>::empty());
            assert(before.leftover + bytes =~= bytes);
            assert(self@ =~= arrived(before, bytes));
            assert(self@.received =~= self@.delivered + self@.leftover);
        }
        self.drain(room)
    }

    /// Takes an error of the stream, which closes it; returns whether the reader sees an
    /// ordinary end.
    pub fn on_error(&mut self, reason: Option<u32>) -> (r: bool)
        requires
            old(self).wf(),
        ensures
            final(self).wf(),
            final(self)@ == (H2State { closed: true, ..old(self)@ }),
            r == normal_close(reason),
    {
        self.closed = true;
        is_normal_close(reason)
    }

    /// Takes the end of the stream, which closes it.
    pub fn on_end(&mut self)
        requires
            old(self).wf(),
        ensures
            final(self).wf(),
            final(self)@ == (H2State { closed: true, ..old(self)@ }),
    {
        self.closed = true;
    }

    /// What a write of `len` bytes does, given the width of the window.
    pub fn write_step(&self, capacity: usize, len: usize) -> (r: H2WriteStep)
        ensures
            r == next_write(self@, capacity, len),
            r == (if self@.closed {
                H2WriteStep::Closed
            } else if capacity == 0 {
                H2WriteStep::Reserve(least(len as int, MAX_FRAME_SIZE as int) as usize)
            } else {
                H2WriteStep::Send(send_size(len as int, capacity as int) as usize)
            }),
    {
        if self.closed {
            H2WriteStep::Closed
        } else if capacity == 0 {
            H2WriteStep::Reserve(
                if len <= MAX_FRAME_SIZE {
                    len
                } else {
                    MAX_FRAME_SIZE
                },
            )
        } else {
            H2WriteStep::Send(Self::fitting(len, capacity))
        }
    }

    fn fitting(len: usize, window: usize) -> (r: usize)
        ensures
            r == send_size(len as int, window as int),
    {
        let n: usize = if len <= window {
            len
        } else {
            window
        };
        if n <= MAX_FRAME_SIZE {
            n
        } else {
            MAX_FRAME_SIZE
        }
    }

    /// What a write of `len` bytes does once it has asked for the window.
    pub fn on_capacity(&self, event: CapacityEvent, len: usize) -> (r: H2WriteStep)
        ensures
            r == write_granted(event, len),
            r == (match event {
                CapacityEvent::Granted(n) => if n > 0 {
                    H2WriteStep::Send(send_size(len as int, n as int) as usize)
                } else {
                    H2WriteStep::Suspend
                },
                CapacityEvent::Failed => H2WriteStep::Fail,
                CapacityEvent::Ended => H2WriteStep::StreamClosed,
                CapacityEvent::Pending => H2WriteStep::Suspend,
            }),
    {
        match event {
            CapacityEvent::Granted(n) => if n > 0 {
                H2WriteStep::Send(Self::fitting(len, n))
            } else {
                H2WriteStep::Suspend
            },
            CapacityEvent::Failed => H2WriteStep::Fail,
            CapacityEvent::Ended => H2WriteStep::StreamClosed,
            CapacityEvent::Pending => H2WriteStep::Suspend,
        }
    }

    /// Closes the stream; nothing is read or written any more.
    pub fn shutdown(&mut self)
        requires
            old(self).wf(),
        ensures
            final(self).wf(),
            final(self)@ == (H2State { closed: true, ..old(self)@ }),
    {
        self.closed = true;
    }

    /// The window released never runs ahead of the bytes handed over nor falls behind them, and
    /// the reader gets a prefix of what was received.
    pub proof fn law_release_follows_delivery(&self)
        requires
            self.wf(),
        ensures
            self@.released == self@.delivered.len(),
            self@.delivered.is_prefix_of(self@.received),
            self@.received.len() - self@.released == self@.leftover.len(),
    {
    }
}

/// What is sent at once is as much as there is, as the window lets through and as a frame holds:
/// no more than any of these, and not less than the least of them.
pub proof fn law_sends_as_much_as_fits(len: int, window: int)
    ensures
        send_size(len, window) <= len && send_size(len, window) <= window && send_size(len, window)
            <= 65536,
        send_size(len, window) == len || send_size(len, window) == window || send_size(len, window)
            == 65536,
        least(len, window) <= len && least(len, window) <= window,
        least(len, window) == len || least(len, window) == window,
{
}

/// Only the reasons for an orderly end and for a cancelled stream are how streams end in the
/// ordinary course.
pub proof fn law_ordinary_ends(reason: Option<u32>)
    ensures
        normal_close(reason) <==> reason == Some(0u32) || reason == Some(8u32),
{
}

/// Handing over takes the bytes from the front, as many as there is room for, releases as many,
/// and keeps the rest in order; what arrives is kept behind what is left.
pub proof fn law_handing_over_keeps_order(st: H2State, room: nat, chunk: Seq<u8>)
    ensures
        ({
            let next = handed_over(st, room);
            let n = next.delivered.len() - st.delivered.len();
            &&& next.delivered + next.leftover == st.delivered + st.leftover
            &&& 0 <= n <= room && n <= st.leftover.len()
            &&& n == room || next.leftover.len() == 0
            &&& next.released == st.released + n
            &&& next.received == st.received && next.closed == st.closed
        }),
        arrived(st, chunk).leftover == st.leftover + chunk,
        arrived(st, chunk).received == st.received + chunk,
        arrived(st, chunk).delivered == st.delivered && arrived(st, chunk).released == st.released
            && arrived(st, chunk).closed == st.closed,
{
    let next = handed_over(st, room);
    assert(next.delivered + next.leftover =~= st.delivered + st.leftover);
}

/// A stream that is closed is read and written no more; one that is open hands over what is left
/// before it receives more.
pub proof fn law_closed_streams_do_nothing(st: H2State, capacity: usize, len: usize)
    ensures
        st.closed <==> next_read(st) == H2ReadStep::End,
        st.closed <==> next_write(st, capacity, len) == H2WriteStep::Closed,
        !st.closed ==> (next_read(st) == H2ReadStep::Drain <==> st.leftover.len() > 0),
        !st.closed ==> (next_read(st) == H2ReadStep::Receive <==> st.leftover.len() == 0),
{
}

/// An open window is used at once, as far as it, the data and a frame reach, and a shut one is
/// asked for: never for more than there is to send or a frame holds.
pub proof fn law_writes_use_the_window(
    st: H2State,
    capacity: usize,
    len: usize,
    event: CapacityEvent,
)
    ensures
        !st.closed && capacity > 0 ==> (next_write(st, capacity, len) matches H2WriteStep::Send(n)
            && n <= len && n <= capacity && n <= 65536 && (n == len || n == capacity || n
            == 65536)),
        !st.closed && capacity == 0 ==> (next_write(st, capacity, len) matches H2WriteStep::Reserve(
            n,
        ) && n <= len && n <= 65536 && (n == len || n == 65536)),
        event matches CapacityEvent::Granted(w) ==> (w > 0 ==> (write_granted(event, len)
            matches H2WriteStep::Send(n) && n <= len && n <= w && n <= 65536 && (n == len || n == w
            || n == 65536))),
        write_granted(event, len) == H2WriteStep::Suspend <==> event == CapacityEvent::Pending
            || event == CapacityEvent::Granted(0),
        write_granted(event, len) == H2WriteStep::Fail <==> event == CapacityEvent::Failed,
        write_granted(event, len) == H2WriteStep::StreamClosed <==> event == CapacityEvent::Ended,
{
}

} // verus!
