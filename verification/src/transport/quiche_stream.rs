//! A stream of HTTP/3 over channels of frames as a byte stream, in two independent halves.

use crate::buffer;
use crate::text;
use vstd::prelude::*;

verus! {

/// A frame that arrives, or why none does.
pub enum InboundEvent<'a> {
    /// Body bytes, and whether they are the last.
    Body(&'a [u8], bool),
    /// A datagram, which is ignored.
    Datagram,
    /// The channel is closed.
    Closed,
    /// Nothing yet.
    Pending,
}

/// What a read does.
pub enum H3ReadStep {
    /// Hand these bytes to the reader.
    Deliver(Vec<u8>),
    /// Report the end of the stream.
    End,
    /// Wait for the next frame.
    Receive,
}

/// What follows a frame.
#[derive(Debug, Clone, Copy, PartialEq, Eq, Structural)]
pub enum H3ReadNext {
    /// Ask what the read does now.
    Again,
    /// Report the end of the stream.
    End,
    /// Wait until a frame arrives.
    Suspend,
}

/// Where the reading half stands.
#[verifier::ext_equal]
pub struct H3ReadState {
    /// Everything that arrived so far.
    pub received: Seq<u8>,
    /// Everything handed to the reader so far.
    pub delivered: Seq<u8>,
    /// What arrived and is still to be handed over.
    pub leftover: Seq<u8>,
    /// Whether the last frame has arrived.
    pub fin: bool,
}

/// What a read does, by name.
pub enum H3ReadView {
    Deliver(Seq<u8>),
    End,
    Receive,
}

impl View for H3ReadStep {
    type V = H3ReadView;

    open spec fn view(&self) -> H3ReadView {
        match self {
            H3ReadStep::Deliver(data) => H3ReadView::Deliver(data@),
            H3ReadStep::End => H3ReadView::End,
            H3ReadStep::Receive => H3ReadView::Receive,
        }
    }
}

/// A frame that arrives, or why none does.
pub enum InboundView {
    Body(Seq<u8>, bool),
    Datagram,
    Closed,
    Pending,
}

impl<'a> View for InboundEvent<'a> {
    type V = InboundView;

    open spec fn view(&self) -> InboundView {
        match self {
            InboundEvent::Body(data, fin) => InboundView::Body(data@, *fin),
            InboundEvent::Datagram => InboundView::Datagram,
            InboundEvent::Closed => InboundView::Closed,
            InboundEvent::Pending => InboundView::Pending,
        }
    }
}

/// What a read comes to, for a reader with `room` bytes of room.
pub open spec fn after_read(st: H3ReadState, room: nat) -> (H3ReadState, H3ReadView) {
    if st.leftover.len() > 0 {
        let n = if st.leftover.len() < room {
            st.leftover.len() as int
        } else {
            room as int
        };
        (
            H3ReadState {
                delivered: st.delivered + st.leftover.take(n),
                leftover: st.leftover.skip(n),
                ..st
            },
            H3ReadView::Deliver(st.leftover.take(n)),
        )
    } else if st.fin {
        (st, H3ReadView::End)
    } else {
        (st, H3ReadView::Receive)
    }
}

/// What a frame comes to.
pub open spec fn after_frame(st: H3ReadState, event: InboundView) -> (H3ReadState, H3ReadNext) {
    match event {
        InboundView::Body(data, fin) => (
            H3ReadState {
                received: st.received + data,
                leftover: data,
                fin: st.fin || fin,
                ..st
            },
            H3ReadNext::Again,
        ),
        InboundView::Datagram => (st, H3ReadNext::Again),
        InboundView::Closed => (st, H3ReadNext::End),
        InboundView::Pending => (st, H3ReadNext::Suspend),
    }
}

/// The reading half of a stream.
pub struct H3StreamReader {
    buf: bytes::Bytes,
    fin: bool,
    received: Ghost<Seq<u8>>,
    delivered: Ghost<Seq<u8>>,
}

impl View for H3StreamReader {
    type V = H3ReadState;

    closed spec fn view(&self) -> H3ReadState {
        H3ReadState {
            received: self.received@,
            delivered: self.delivered@,
            leftover: buffer::frozen(self.buf),
            fin: self.fin,
        }
    }
}

impl H3StreamReader {
    /// Every byte that arrived was handed over or is left, in order.
    pub closed spec fn wf(&self) -> bool {
        self@.received == self@.delivered + self@.leftover
    }

    /// A stream that has carried nothing yet.
    pub fn new() -> (r: Self)
        ensures
            r.wf(),
            r@ == (H3ReadState {
                received: Seq::empty(),
                delivered: Seq::empty(),
                leftover: Seq::empty(),
                fin: false,
            }),
    {
        let r = H3StreamReader {
            buf: buffer::no_bytes(),
            fin: false,
            received: Ghost(Seq::empty()),
            delivered: Ghost(Seq::empty()),
        };
        assert(r@.received =~= r@.delivered + r@.leftover);
        r
    }

    /// What a read does, for a reader with `room` bytes of room: what is left of the last frame
    /// comes first, then the end if the last frame has arrived.
    pub fn read_step(&mut self, room: usize) -> (r: H3ReadStep)
        requires
            old(self).wf(),
        ensures
            final(self).wf(),
            (final(self)@, r@) == after_read(old(self)@, room as nat),
            ({
                let left = old(self)@.leftover;
                let n = if left.len() < room {
                    left.len() as int
                } else {
                    room as int
                };
                if left.len() > 0 {
                    &&& r matches H3ReadStep::Deliver(data)
                    &&& data@ == left.take(n)
                    &&& final(self)@ == (H3ReadState {
                        delivered: old(self)@.delivered + left.take(n),
                        leftover: left.skip(n),
                        ..old(self)@
                    })
                } else {
                    &&& final(self)@ == old(self)@
                    &&& r is End == old(self)@.fin
                    &&& r is Receive == !old(self)@.fin
                }
            }),
    {
        let ghost before = self@;
        let held: &[u8] = buffer::frozen_slice(&self.buf);
        let len: usize = held.len();
        if len > 0 {
            let n: usize = if len < room {
                len
            } else {
                room
            };
            let data: Vec<u8> = text::bytes_of(vstd::slice::slice_subrange(held, 0, n));
            self.buf = buffer::bytes_from(&self.buf, n);
            proof {
                self.delivered@ = self.delivered@ + before.leftover.take(n as int);
                assert(data@ =~= before.leftover.take(n as int));
                assert(self@.received =~= self@.delivered + self@.leftover);
            }
            return H3ReadStep::Deliver(data);
        }
        if self.fin {
            H3ReadStep::End
        } else {
            H3ReadStep::Receive
        }
    }

    /// Takes a frame. A channel that is closed ends the stream.
    pub fn on_frame(&mut self, event: InboundEvent<'_>) -> (r: H3ReadNext)
        requires
            old(self).wf(),
            old(self)@.leftover.len() == 0,
        ensures
            final(self).wf(),
            (final(self)@, r) == after_frame(old(self)@, event@),
            match event {
                InboundEvent::Body(data, fin) => r == H3ReadNext::Again && final(self)@
                    == (H3ReadState {
                    received: old(self)@.received + data@,
                    leftover: data@,
                    fin: old(self)@.fin || fin,
                    ..old(self)@
                }),
                InboundEvent::Datagram => r == H3ReadNext::Again && final(self)@ == old(self)@,
                InboundEvent::Closed => r == H3ReadNext::End && final(self)@ == old(self)@,
                InboundEvent::Pending => r == H3ReadNext::Suspend && final(self)@ == old(self)@,
            },
    {
        match event {
            InboundEvent::Body(data, fin) => {
                let ghost before = self@;
                if fin {
                    self.fin = true;
                }
                self.buf = buffer::copy_bytes(data);
                proof {
                    self.received@ = self.received@ + data@;
                    assert(before.leftover =~= Seq::<u8>::empty());
                    assert(before.received =~= before.delivered);
                    assert(self@.received =~= self@.delivered + self@.leftover);
                }
                H3ReadNext::Again
            },
            InboundEvent::Datagram => H3ReadNext::Again,
            InboundEvent::Closed => H3ReadNext::End,
            InboundEvent::Pending => H3ReadNext::Suspend,
        }
    }

    /// The reader gets the bytes of the frames in order, and all of them once nothing is left.
    pub proof fn law_reads_in_order(&self)
        requires
            self.wf(),
        ensures
            self@.delivered.is_prefix_of(self@.received),
            self@.leftover.len() == 0 ==> self@.delivered == self@.received,
    {
        if self@.leftover.len() == 0 {
            assert(self@.leftover =~= Seq::<u8>::empty());
            assert(self@.delivered + self@.leftover =~= self@.delivered);
        }
    }
}

/// A frame that is sent: body bytes, and whether they are the last.
pub struct OutboundBody {
    pub data: bytes::Bytes,
    pub fin: bool,
}

/// How asking for room in the channel went.
#[derive(Debug, Clone, Copy, PartialEq, Eq, Structural)]
pub enum ReserveEvent {
    Ready,
    Pending,
    Closed,
}

/// What a write or a shutdown does.
pub enum H3WriteStep {
    /// Send the frame.
    Send(OutboundBody),
    /// Wait until there is room.
    Suspend,
    /// Report that the channel is closed.
    Broken,
}

/// What a write does once it has asked for room: the bytes go out as one frame, which is not
/// the last.
pub fn write_frame(event: ReserveEvent, data: &[u8]) -> (r: H3WriteStep)
    ensures
        match event {
            ReserveEvent::Ready => r matches H3WriteStep::Send(f) && buffer::frozen(f.data) == data@
                && !f.fin,
            ReserveEvent::Pending => r is Suspend,
            ReserveEvent::Closed => r is Broken,
        },
{
    match event {
        ReserveEvent::Ready => H3WriteStep::Send(
            OutboundBody { data: buffer::copy_bytes(data), fin: false },
        ),
        ReserveEvent::Pending => H3WriteStep::Suspend,
        ReserveEvent::Closed => H3WriteStep::Broken,
    }
}

/// What a shutdown does once it has asked for room: an empty frame, which is the last.
pub fn finish_frame(event: ReserveEvent) -> (r: H3WriteStep)
    ensures
        match event {
            ReserveEvent::Ready => r matches H3WriteStep::Send(f) && buffer::frozen(f.data)
                == Seq::<u8>::empty() && f.fin,
            ReserveEvent::Pending => r is Suspend,
            ReserveEvent::Closed => r is Broken,
        },
{
    match event {
        ReserveEvent::Ready => H3WriteStep::Send(
            OutboundBody { data: buffer::no_bytes(), fin: true },
        ),
        ReserveEvent::Pending => H3WriteStep::Suspend,
        ReserveEvent::Closed => H3WriteStep::Broken,
    }
}

/// A read hands over bytes from the front of what is left, as many as there is room for, and
/// nothing else; only with nothing left it ends or waits, and it ends if and only if the last
/// frame has come.
pub proof fn law_reads_take_what_is_left(st: H3ReadState, room: nat)
    ensures
        ({
            let (next, step) = after_read(st, room);
            &&& next.delivered + next.leftover == st.delivered + st.leftover
            &&& next.received == st.received && next.fin == st.fin
            &&& step matches H3ReadView::Deliver(d) ==> next.delivered == st.delivered + d
                && st.leftover.len() > 0 && (d.len() == room || next.leftover.len() == 0) && d.len()
                <= room
            &&& !(step is Deliver) ==> next == st && st.leftover.len() == 0
            &&& step is End <==> st.leftover.len() == 0 && st.fin
            &&& step is Receive <==> st.leftover.len() == 0 && !st.fin
        }),
{
    assert(after_read(st, room).0.delivered + after_read(st, room).0.leftover =~= st.delivered
        + st.leftover);
}

/// The body of a frame comes behind all that was received before; a last frame stays the last; a
/// datagram changes nothing; and only a closed channel ends the stream here.
pub proof fn law_frames_come_in_order(st: H3ReadState, event: InboundView)
    requires
        st.leftover.len() == 0,
        st.received == st.delivered + st.leftover,
    ensures
        ({
            let (next, then) = after_frame(st, event);
            &&& next.received == next.delivered + next.leftover
            &&& next.delivered == st.delivered
            &&& event matches InboundView::Body(data, fin) ==> next.received == st.received + data
                && next.fin == (st.fin || fin)
            &&& !(event is Body) ==> next == st
            &&& then == H3ReadNext::End <==> event is Closed
            &&& then == H3ReadNext::Suspend <==> event is Pending
            &&& then == H3ReadNext::Again <==> event is Body || event is Datagram
        }),
{
    let (next, _) = after_frame(st, event);
    if let InboundView::Body(data, _) = event {
        assert(st.leftover =~= Seq::<u8>::empty());
        assert(st.delivered + st.leftover =~= st.delivered);
    }
}

} // verus!
