//! The naive padding protocol.
//!
//! The first eight frames in each direction are framed as
//! `[2 bytes data size][1 byte padding size][data][padding]`; after them raw bytes flow.

use crate::buffer;
use vstd::prelude::*;

verus! {

/// Number of padding frames before the stream turns raw.
pub const PADDING_FRAMES: u8 = 8;

/// Largest payload of one padding frame.
pub const MAX_PADDED_PAYLOAD: usize = 65535;

/// Largest number of data bytes that one read takes where the caller has room for the rest of
/// the frame.
pub const READ_CHUNK: usize = 4096;

/// Largest number of padding bytes that one read drops.
pub const SKIP_CHUNK: usize = 256;

/// The seed's fixed part.
pub const SEED_MIX: u64 = 0x9e3779b97f4a7c15;

/// One step of the 64-bit xorshift generator.
pub open spec fn xorshift(s: u64) -> u64 {
    let a = s ^ (s << 13);
    let b = a ^ (a >> 7);
    b ^ (b << 17)
}

/// The generator's state after `n` steps.
pub open spec fn state_after(s: u64, n: nat) -> u64
    decreases n,
{
    if n == 0 {
        s
    } else {
        xorshift(state_after(s, (n - 1) as nat))
    }
}

/// The next `n` bytes of the generator: the low byte of the state after each step.
pub open spec fn random_bytes(s: u64, n: nat) -> Seq<u8> {
    Seq::new(n, |i: int| state_after(s, (i + 1) as nat) as u8)
}

/// The state that the generator starts from, given the clock's nanoseconds.
pub open spec fn seed(nanos: u64) -> u64 {
    let s = nanos ^ (nanos << 17) ^ SEED_MIX;
    if s == 0 {
        SEED_MIX
    } else {
        s
    }
}

/// A non-cryptographic generator, for padding only.
pub struct PaddingRng {
    pub state: u64,
}

impl PaddingRng {
    /// A generator seeded from the nanoseconds of the clock.
    pub fn from_nanos(nanos: u64) -> (r: Self)
        ensures
            r.state == seed(nanos),
            r.state != 0,
    {
        let s: u64 = nanos ^ (nanos << 17) ^ SEED_MIX;
        if s == 0 {
            PaddingRng { state: SEED_MIX }
        } else {
            PaddingRng { state: s }
        }
    }

    /// The next `n` bytes.
    pub fn gen_random_bytes(&mut self, n: usize) -> (r: Vec<u8>)
        ensures
            r@ == random_bytes(old(self).state, n as nat),
            final(self).state == state_after(old(self).state, n as nat),
    {
        let mut out: Vec<u8> = Vec::new();
        let mut i: usize = 0;
        while i < n
            invariant
                i <= n,
                out@ == random_bytes(old(self).state, i as nat),
                self.state == state_after(old(self).state, i as nat),
            decreases n - i,
        {
            let mut s: u64 = self.state;
            s = s ^ (s << 13);
            s = s ^ (s >> 7);
            s = s ^ (s << 17);
            self.state = s;
            out.push(
                #[verifier::truncate]
                (s as u8),
            );
            i += 1;
            assert(out@ =~= random_bytes(old(self).state, i as nat));
        }
        out
    }

    /// The next byte.
    pub fn random_u8(&mut self) -> (r: u8)
        ensures
            r == xorshift(old(self).state) as u8,
            final(self).state == xorshift(old(self).state),
    {
        let b: Vec<u8> = self.gen_random_bytes(1);
        reveal_with_fuel(state_after, 3);
        assert(b@[0] == state_after(old(self).state, 1) as u8);
        b[0]
    }
}

/// The generator never gets stuck: from a state other than zero it never reaches zero.
pub proof fn law_generator_stays_nonzero(s: u64, n: nat)
    requires
        s != 0,
    ensures
        state_after(s, n) != 0,
    decreases n,
{
    if n > 0 {
        law_generator_stays_nonzero(s, (n - 1) as nat);
        let t = state_after(s, (n - 1) as nat);
        assert(t != 0 ==> (t ^ (t << 13)) != 0) by (bit_vector);
        let a = t ^ (t << 13);
        assert(a != 0 ==> (a ^ (a >> 7)) != 0) by (bit_vector);
        let b = a ^ (a >> 7);
        assert(b != 0 ==> (b ^ (b << 17)) != 0) by (bit_vector);
    }
}

/// The first sixteen characters of a padding header are taken from these.
pub const LEAD_CHARS: &'static str = "!#$()+<>?@[]^`{}";

/// The `i`-th nibble of the bytes, the low nibble of each byte first.
pub open spec fn nibble(bytes: Seq<u8>, i: int) -> int {
    if i % 2 == 0 {
        bytes[i / 2] as int % 16
    } else {
        bytes[i / 2] as int / 16
    }
}

/// The padding header that the generator gives in state `s`: 30 to 61 characters, sixteen
/// picked by the nibbles of eight random bytes and then `~` throughout.
pub open spec fn padding_header(s: u64) -> Seq<char> {
    let len = (xorshift(s) as u8 as int) % 32 + 30;
    let bits = random_bytes(xorshift(s), 8);
    Seq::new(
        len as nat,
        |i: int|
            if i < 16 {
                LEAD_CHARS@[nibble(bits, i)]
            } else {
                '~'
            },
    )
}

/// The value of the `padding` response header.
pub fn generate_padding_header(rng: &mut PaddingRng) -> (r: String)
    ensures
        r@ == padding_header(old(rng).state),
        final(rng).state == state_after(old(rng).state, 9),
        30 <= r@.len() <= 61,
        forall|i: int| 0 <= i < 16 ==> LEAD_CHARS@.contains(#[trigger] r@[i]),
        forall|i: int| 16 <= i < r@.len() ==> #[trigger] r@[i] == '~',
{
    let ghost start = rng.state;
    let first: u8 = rng.random_u8();
    let len: usize = (first % 32) as usize + 30;
    let bits: Vec<u8> = rng.gen_random_bytes(8);
    proof {
        lemma_state_after_chain(start, 1, 8);
        reveal_with_fuel(state_after, 3);
        reveal_strlit("!#$()+<>?@[]^`{}");
    }
    let mut out: String = String::new();
    let mut i: usize = 0;
    while i < len
        invariant
            i <= len,
            30 <= len <= 61,
            len == (xorshift(start) as u8 as int) % 32 + 30,
            bits@ == random_bytes(xorshift(start), 8),
            LEAD_CHARS@.len() == 16,
            out@ == padding_header(start).take(i as int),
        decreases len - i,
    {
        let c: char = if i < 16 {
            let b: u8 = bits[i / 2];
            let n: usize = (if i % 2 == 0 {
                b % 16
            } else {
                b / 16
            }) as usize;
            LEAD_CHARS.get_char(n)
        } else {
            '~'
        };
        out.push(c);
        assert(padding_header(start)[i as int] == c);
        assert(padding_header(start).take(i + 1) =~= padding_header(start).take(i as int).push(c));
        i += 1;
    }
    assert(padding_header(start).take(len as int) =~= padding_header(start));
    out
}

/// Running the generator in two stages is running it once for the sum.
proof fn lemma_state_after_chain(s: u64, a: nat, b: nat)
    ensures
        state_after(state_after(s, a), b) == state_after(s, a + b),
    decreases b,
{
    if b > 0 {
        lemma_state_after_chain(s, a, (b - 1) as nat);
    }
}

/// Where a padded stream stands, as its reader sees it.
#[verifier::ext_equal]
pub struct ReadState {
    /// Frames whose header has been read.
    pub frames: nat,
    /// The part of the next header that has been read.
    pub header: Seq<u8>,
    /// Data bytes of the current frame that are still to come.
    pub data: nat,
    /// Padding bytes that come next.
    pub skip: nat,
    /// Padding bytes that come once the data has been read.
    pub later: nat,
}

/// The state before the first byte.
pub open spec fn initial_read_state() -> ReadState {
    ReadState { frames: 0, header: Seq::empty(), data: 0, skip: 0, later: 0 }
}

/// The state once the three bytes `header` announce a frame.
pub open spec fn announced(frames: nat, header: Seq<u8>) -> ReadState {
    let data = buffer::from_be16(header[0], header[1]);
    let padding = header[2] as nat;
    ReadState {
        frames: frames + 1,
        header: Seq::empty(),
        data,
        skip: if data == 0 {
            padding
        } else {
            0
        },
        later: if data == 0 {
            0
        } else {
            padding
        },
    }
}

/// The state after one more byte of the stream.
pub open spec fn after_byte(st: ReadState, b: u8) -> ReadState {
    if st.data > 0 {
        if st.data == 1 {
            ReadState { data: 0, skip: st.later, later: 0, ..st }
        } else {
            ReadState { data: (st.data - 1) as nat, ..st }
        }
    } else if st.skip > 0 {
        ReadState { skip: (st.skip - 1) as nat, ..st }
    } else if st.frames >= PADDING_FRAMES {
        st
    } else if st.header.len() < 2 {
        ReadState { header: st.header.push(b), ..st }
    } else {
        announced(st.frames, st.header.push(b))
    }
}

/// Whether the next byte of the stream belongs to the payload.
pub open spec fn is_payload(st: ReadState) -> bool {
    st.data > 0 || (st.skip == 0 && st.frames >= PADDING_FRAMES)
}

/// The state after the bytes of `wire`.
pub open spec fn after_bytes(st: ReadState, wire: Seq<u8>) -> ReadState
    decreases wire.len(),
{
    if wire.len() == 0 {
        st
    } else {
        after_byte(after_bytes(st, wire.drop_last()), wire.last())
    }
}

/// The payload that the bytes of `wire` carry.
pub open spec fn payload(st: ReadState, wire: Seq<u8>) -> Seq<u8>
    decreases wire.len(),
{
    if wire.len() == 0 {
        Seq::empty()
    } else {
        let before = after_bytes(st, wire.drop_last());
        let carried = payload(st, wire.drop_last());
        if is_payload(before) {
            carried.push(wire.last())
        } else {
            carried
        }
    }
}

/// What the reader does next.
pub enum ReadStep {
    /// The caller has no room for the data that is due: return as it is.
    Full,
    /// Read at most `max` bytes and hand them to the caller.
    Deliver { max: usize },
    /// Read at most `max` bytes of padding and drop them.
    Discard { max: usize },
    /// Read at most `max` bytes of a frame header.
    Header { max: usize },
    /// Read straight into the caller's buffer.
    Raw,
}

/// What follows a read.
#[derive(PartialEq, Eq, Structural)]
pub enum ReadNext {
    /// Return to the caller.
    Return,
    /// Ask for the next step.
    Again,
}

/// Reads the padding protocol.
pub struct PaddedReader {
    frames_done: u8,
    header: Vec<u8>,
    data_rem: usize,
    skip_rem: usize,
    pending_skip: usize,
}

impl View for PaddedReader {
    type V = ReadState;

    closed spec fn view(&self) -> ReadState {
        ReadState {
            frames: self.frames_done as nat,
            header: self.header@,
            data: self.data_rem as nat,
            skip: self.skip_rem as nat,
            later: self.pending_skip as nat,
        }
    }
}

impl PaddedReader {
    /// A partial header is shorter than three bytes, and padding waits only behind data.
    pub open spec fn wf(&self) -> bool {
        &&& self@.header.len() < 3
        &&& self@.frames <= PADDING_FRAMES
        &&& self@.data > 0 ==> self@.skip == 0 && self@.header.len() == 0
        &&& self@.skip > 0 ==> self@.header.len() == 0
        &&& self@.data == 0 ==> self@.later == 0
        &&& self@.data <= 65535 && self@.skip <= 255 && self@.later <= 255
    }

    /// A reader before the first frame.
    pub fn new() -> (r: Self)
        ensures
            r.wf(),
            r@ == initial_read_state(),
    {
        let r = PaddedReader {
            frames_done: 0,
            header: Vec::new(),
            data_rem: 0,
            skip_rem: 0,
            pending_skip: 0,
        };
        assert(r@ =~= initial_read_state());
        r
    }

    /// What to read next, for a caller with `room` bytes of room. Data is never read past the
    /// end of its frame.
    pub fn next_step(&self, room: usize) -> (r: ReadStep)
        requires
            self.wf(),
        ensures
            r == next_read(self@, room as nat),
            match r {
                ReadStep::Full => self@.data > 0 && room == 0,
                ReadStep::Deliver { max } => self@.data > 0 && room > 0 && max == (if room
                    >= self@.data {
                    if self@.data < READ_CHUNK {
                        self@.data
                    } else {
                        READ_CHUNK as nat
                    }
                } else {
                    room as nat
                }),
                ReadStep::Discard { max } => self@.data == 0 && self@.skip > 0 && max == (if
                self@.skip < SKIP_CHUNK {
                    self@.skip
                } else {
                    SKIP_CHUNK as nat
                }),
                ReadStep::Raw => self@.data == 0 && self@.skip == 0 && self@.frames
                    >= PADDING_FRAMES,
                ReadStep::Header { max } => self@.data == 0 && self@.skip == 0 && self@.frames
                    < PADDING_FRAMES && max == 3 - self@.header.len(),
            },
    {
        if self.data_rem > 0 {
            if room == 0 {
                return ReadStep::Full;
            }
            if room >= self.data_rem {
                if self.data_rem < READ_CHUNK {
                    ReadStep::Deliver { max: self.data_rem }
                } else {
                    ReadStep::Deliver { max: READ_CHUNK }
                }
            } else {
                ReadStep::Deliver { max: room }
            }
        } else if self.skip_rem > 0 {
            if self.skip_rem < SKIP_CHUNK {
                ReadStep::Discard { max: self.skip_rem }
            } else {
                ReadStep::Discard { max: SKIP_CHUNK }
            }
        } else if self.frames_done >= PADDING_FRAMES {
            ReadStep::Raw
        } else {
            ReadStep::Header { max: 3 - self.header.len() }
        }
    }

    /// Takes the bytes of one read, no more than the step allowed. An empty read is the end of
    /// the stream.
    pub fn on_read(&mut self, bytes: &[u8]) -> (r: ReadNext)
        requires
            old(self).wf(),
            bytes@.len() <= read_limit(old(self)@, bytes@.len()),
        ensures
            final(self).wf(),
            final(self)@ == after_bytes(old(self)@, bytes@),
            payload(old(self)@, bytes@) == (if is_payload(old(self)@) {
                bytes@
            } else {
                Seq::empty()
            }),
            (r == ReadNext::Return) == (bytes@.len() == 0 || is_payload(old(self)@)),
    {
        let n: usize = bytes.len();
        proof {
            lemma_one_read(self@, bytes@);
        }
        if n == 0 {
            return ReadNext::Return;
        }
        if self.data_rem > 0 {
            self.data_rem -= n;
            if self.data_rem == 0 {
                self.skip_rem = self.pending_skip;
                self.pending_skip = 0;
            }
            assert(self@ =~= after_bytes(old(self)@, bytes@));
            return ReadNext::Return;
        }
        if self.skip_rem > 0 {
            self.skip_rem -= n;
            assert(self@ =~= after_bytes(old(self)@, bytes@));
            return ReadNext::Again;
        }
        if self.frames_done >= PADDING_FRAMES {
            return ReadNext::Return;
        }
        let mut i: usize = 0;
        while i < n
            invariant
                i <= n,
                n == bytes@.len(),
                self.header@ == old(self).header@ + bytes@.take(i as int),
                self.frames_done == old(self).frames_done,
                self.data_rem == old(self).data_rem,
                self.skip_rem == old(self).skip_rem,
                self.pending_skip == old(self).pending_skip,
            decreases n - i,
        {
            self.header.push(bytes[i]);
            i += 1;
            assert(self.header@ =~= old(self).header@ + bytes@.take(i as int));
        }
        assert(bytes@.take(n as int) =~= bytes@);
        if self.header.len() == 3 {
            let data_size: usize = self.header[0] as usize * 256 + self.header[1] as usize;
            let padding_size: usize = self.header[2] as usize;
            self.header = Vec::new();
            self.frames_done += 1;
            self.data_rem = data_size;
            self.pending_skip = padding_size;
            if data_size == 0 {
                self.skip_rem = padding_size;
                self.pending_skip = 0;
            }
        }
        assert(self@ =~= after_bytes(old(self)@, bytes@));
        ReadNext::Again
    }
}

/// What to read next, for a caller with `room` bytes of room.
pub open spec fn next_read(st: ReadState, room: nat) -> ReadStep {
    if st.data > 0 {
        if room == 0 {
            ReadStep::Full
        } else if room < st.data {
            ReadStep::Deliver { max: room as usize }
        } else if st.data < READ_CHUNK {
            ReadStep::Deliver { max: st.data as usize }
        } else {
            ReadStep::Deliver { max: READ_CHUNK }
        }
    } else if st.skip > 0 {
        ReadStep::Discard {
            max: if st.skip < SKIP_CHUNK {
                st.skip as usize
            } else {
                SKIP_CHUNK
            },
        }
    } else if st.frames >= PADDING_FRAMES {
        ReadStep::Raw
    } else {
        ReadStep::Header { max: (3 - st.header.len()) as usize }
    }
}

/// How many of `wanted` bytes may be read at once without passing the end of the part that the
/// stream is in.
pub open spec fn read_limit(st: ReadState, wanted: nat) -> nat {
    if st.data > 0 {
        st.data
    } else if st.skip > 0 {
        st.skip
    } else if st.frames >= PADDING_FRAMES {
        wanted
    } else {
        (3 - st.header.len()) as nat
    }
}

/// The state after one read that stays within the part that the stream is in.
proof fn lemma_one_read(st: ReadState, w: Seq<u8>)
    requires
        st.header.len() < 3,
        st.data == 0 ==> st.later == 0,
        st.data > 0 ==> st.skip == 0,
        w.len() <= read_limit(st, w.len()),
    ensures
        payload(st, w) == (if is_payload(st) {
            w
        } else {
            Seq::empty()
        }),
        after_bytes(st, w) == (if w.len() == 0 {
            st
        } else if st.data > 0 {
            if w.len() == st.data {
                ReadState { data: 0, skip: st.later, later: 0, ..st }
            } else {
                ReadState { data: (st.data - w.len()) as nat, ..st }
            }
        } else if st.skip > 0 {
            ReadState { skip: (st.skip - w.len()) as nat, ..st }
        } else if st.frames >= PADDING_FRAMES {
            st
        } else if st.header.len() + w.len() < 3 {
            ReadState { header: st.header + w, ..st }
        } else {
            announced(st.frames, st.header + w)
        }),
    decreases w.len(),
{
    if w.len() > 0 {
        let v = w.drop_last();
        lemma_one_read(st, v);
        assert(v.push(w.last()) =~= w);
        if st.data == 0 && st.skip == 0 && st.frames < PADDING_FRAMES {
            assert((st.header + v).push(w.last()) =~= st.header + w);
            assert(v.len() == 0 ==> st.header.push(w.last()) =~= st.header + w);
        }
        assert(after_bytes(st, w) =~= after_byte(after_bytes(st, v), w.last()));
    }
}

/// How the stream is cut into reads makes no difference: the state and the payload after two
/// reads are those after one read of both.
pub proof fn law_reads_compose(st: ReadState, a: Seq<u8>, b: Seq<u8>)
    ensures
        after_bytes(st, a + b) == after_bytes(after_bytes(st, a), b),
        payload(st, a + b) == payload(st, a) + payload(after_bytes(st, a), b),
    decreases b.len(),
{
    if b.len() == 0 {
        assert(a + b =~= a);
        assert(payload(st, a) + Seq::<u8>::empty() =~= payload(st, a));
    } else {
        law_reads_compose(st, a, b.drop_last());
        assert((a + b).drop_last() =~= a + b.drop_last());
        assert((a + b).last() == b.last());
        let carried = payload(after_bytes(st, a), b.drop_last());
        assert((payload(st, a) + carried).push(b.last()) =~= payload(st, a) + carried.push(
            b.last(),
        ));
    }
}

/// The parts one after another.
pub open spec fn joined(parts: Seq<Seq<u8>>) -> Seq<u8>
    decreases parts.len(),
{
    if parts.len() == 0 {
        Seq::empty()
    } else {
        joined(parts.drop_last()) + parts.last()
    }
}

/// What a reader in state `st` hands over in all, where each part is what one read brings.
pub open spec fn delivered(st: ReadState, parts: Seq<Seq<u8>>) -> Seq<u8>
    decreases parts.len(),
{
    if parts.len() == 0 {
        Seq::empty()
    } else {
        let before = after_bytes(st, joined(parts.drop_last()));
        delivered(st, parts.drop_last()) + payload(before, parts.last())
    }
}

/// However the stream is cut into reads, they hand over its payload.
pub proof fn law_delivery_ignores_cuts(st: ReadState, parts: Seq<Seq<u8>>)
    ensures
        delivered(st, parts) == payload(st, joined(parts)),
    decreases parts.len(),
{
    if parts.len() > 0 {
        law_delivery_ignores_cuts(st, parts.drop_last());
        law_reads_compose(st, joined(parts.drop_last()), parts.last());
    }
}

/// One padding frame: the sizes, the data and the padding.
pub open spec fn frame(data: Seq<u8>, padding: Seq<u8>) -> Seq<u8> {
    buffer::be16(data.len() as u16) + seq![padding.len() as u8] + data + padding
}

/// The frames one after another.
pub open spec fn frames_wire(frames: Seq<(Seq<u8>, Seq<u8>)>) -> Seq<u8>
    decreases frames.len(),
{
    if frames.len() == 0 {
        Seq::empty()
    } else {
        frames_wire(frames.drop_last()) + frame(frames.last().0, frames.last().1)
    }
}

/// The data of the frames one after another.
pub open spec fn frames_data(frames: Seq<(Seq<u8>, Seq<u8>)>) -> Seq<u8>
    decreases frames.len(),
{
    if frames.len() == 0 {
        Seq::empty()
    } else {
        frames_data(frames.drop_last()) + frames.last().0
    }
}

/// Whether the sizes of a frame fit its header.
pub open spec fn frame_fits(f: (Seq<u8>, Seq<u8>)) -> bool {
    f.0.len() <= MAX_PADDED_PAYLOAD && f.1.len() <= 255
}

/// A state between two frames.
pub open spec fn between_frames(n: nat) -> ReadState {
    ReadState { frames: n, header: Seq::empty(), data: 0, skip: 0, later: 0 }
}

/// One whole frame carries its data, and leaves the stream between two frames.
proof fn lemma_frame_read(n: nat, data: Seq<u8>, padding: Seq<u8>)
    requires
        n < PADDING_FRAMES,
        frame_fits((data, padding)),
    ensures
        after_bytes(between_frames(n), frame(data, padding)) == between_frames(n + 1),
        payload(between_frames(n), frame(data, padding)) == data,
{
    let st = between_frames(n);
    let header = buffer::be16(data.len() as u16) + seq![padding.len() as u8];
    assert(header.len() == 3);
    lemma_one_read(st, header);
    assert(st.header + header =~= header);
    let st1 = announced(n, header);
    assert(after_bytes(st, header) == st1);
    assert(payload(st, header) =~= Seq::<u8>::empty());
    assert(st1.data == data.len());
    lemma_one_read(st1, data);
    let st2 = after_bytes(st1, data);
    assert(data.len() == 0 ==> data =~= Seq::<u8>::empty());
    assert(st2.data == 0 && st2.skip == padding.len() && st2.later == 0 && st2.frames == n + 1
        && st2.header.len() == 0);
    assert(payload(st1, data) =~= data);
    if padding.len() > 0 {
        lemma_one_read(st2, padding);
        assert(payload(st2, padding) =~= Seq::<u8>::empty());
    } else {
        assert(padding =~= Seq::<u8>::empty());
    }
    assert(after_bytes(st2, padding) =~= between_frames(n + 1));
    law_reads_compose(st1, data, padding);
    law_reads_compose(st, header, data + padding);
    assert(frame(data, padding) =~= header + (data + padding));
    assert(payload(st, frame(data, padding)) =~= data);
}

/// The frames in order carry their data in order.
proof fn lemma_frames_read(frames: Seq<(Seq<u8>, Seq<u8>)>)
    requires
        frames.len() <= PADDING_FRAMES,
        forall|i: int| 0 <= i < frames.len() ==> frame_fits(#[trigger] frames[i]),
    ensures
        after_bytes(initial_read_state(), frames_wire(frames)) == between_frames(frames.len()),
        payload(initial_read_state(), frames_wire(frames)) == frames_data(frames),
    decreases frames.len(),
{
    assert(initial_read_state() =~= between_frames(0));
    if frames.len() > 0 {
        let init = frames.drop_last();
        let last = frames.last();
        assert forall|i: int| 0 <= i < init.len() implies frame_fits(#[trigger] init[i]) by {
            assert(init[i] == frames[i]);
        }
        assert(frame_fits(frames[frames.len() - 1]));
        lemma_frames_read(init);
        lemma_frame_read(init.len(), last.0, last.1);
        law_reads_compose(initial_read_state(), frames_wire(init), frame(last.0, last.1));
    }
}

/// Reading gives back what was written: the payload of up to eight frames is their data, and
/// behind the eighth frame every raw byte is payload.
pub proof fn law_padding_round_trip(frames: Seq<(Seq<u8>, Seq<u8>)>, raw: Seq<u8>)
    requires
        frames.len() <= PADDING_FRAMES,
        raw.len() > 0 ==> frames.len() == PADDING_FRAMES,
        forall|i: int| 0 <= i < frames.len() ==> frame_fits(#[trigger] frames[i]),
    ensures
        payload(initial_read_state(), frames_wire(frames) + raw) == frames_data(frames) + raw,
{
    lemma_frames_read(frames);
    law_reads_compose(initial_read_state(), frames_wire(frames), raw);
    if raw.len() > 0 {
        lemma_one_read(between_frames(frames.len()), raw);
    } else {
        assert(raw =~= Seq::<u8>::empty());
    }
}

/// Where a padded stream stands, as its writer sees it.
#[verifier::ext_equal]
pub struct WriteState {
    /// The frames built so far: data and padding of each.
    pub frames: Seq<(Seq<u8>, Seq<u8>)>,
    /// What the transport has taken of them.
    pub sent: Seq<u8>,
    /// What it has not taken yet.
    pub unsent: Seq<u8>,
}

/// The state once the transport has taken up to `n` more bytes.
pub open spec fn taken(st: WriteState, n: nat) -> WriteState {
    let k = if n < st.unsent.len() {
        n as int
    } else {
        st.unsent.len() as int
    };
    WriteState { sent: st.sent + st.unsent.take(k), unsent: st.unsent.skip(k), ..st }
}

/// The part of the caller's data that one frame takes.
pub open spec fn frame_part(data: Seq<u8>) -> Seq<u8> {
    if data.len() < MAX_PADDED_PAYLOAD {
        data
    } else {
        data.take(MAX_PADDED_PAYLOAD as int)
    }
}

/// The padding that the generator gives in state `s`: one byte for its length, then the bytes.
pub open spec fn frame_padding(s: u64) -> Seq<u8> {
    random_bytes(xorshift(s), xorshift(s) as u8 as nat)
}

/// What writing the pending bytes comes to.
pub open spec fn after_drain(st: WriteState, event: WriteEvent) -> (WriteState, DrainNext) {
    match event {
        WriteEvent::Pending => (st, DrainNext::Suspend),
        WriteEvent::Failed => (st, DrainNext::Fail),
        WriteEvent::Wrote(n) => if n == 0 {
            (st, DrainNext::WriteZero)
        } else if taken(st, n as nat).unsent.len() > 0 {
            (taken(st, n as nat), DrainNext::Again)
        } else {
            (taken(st, n as nat), DrainNext::Drained)
        },
    }
}

/// What starting a frame for the data comes to: the state, how much of the data the frame holds,
/// and the state of the generator.
pub open spec fn after_start(st: WriteState, data: Seq<u8>, rng: u64) -> (
    WriteState,
    Option<usize>,
    u64,
) {
    if st.frames.len() == PADDING_FRAMES {
        (st, None, rng)
    } else {
        let part = frame_part(data);
        let padding = frame_padding(rng);
        (
            WriteState {
                frames: st.frames.push((part, padding)),
                sent: st.sent,
                unsent: frame(part, padding),
            },
            Some(part.len() as usize),
            state_after(rng, 1 + padding.len()),
        )
    }
}

/// What the first attempt to write a new frame comes to.
pub open spec fn after_first_write(st: WriteState, accepted: usize, event: WriteEvent) -> (
    WriteState,
    WriteReturn,
) {
    match event {
        WriteEvent::Failed => (st, WriteReturn::Fail),
        WriteEvent::Pending => (st, WriteReturn::Accepted(accepted)),
        WriteEvent::Wrote(n) => (taken(st, n as nat), WriteReturn::Accepted(accepted)),
    }
}

/// How a write on the transport went.
pub enum WriteEvent {
    /// It would block.
    Pending,
    /// It failed.
    Failed,
    /// It took this many bytes.
    Wrote(usize),
}

/// What follows a write that drains the pending frame.
#[derive(PartialEq, Eq, Structural)]
pub enum DrainNext {
    /// Wait until the transport is ready.
    Suspend,
    /// Report the transport's error.
    Fail,
    /// Report that the transport took nothing.
    WriteZero,
    /// Write what is still pending.
    Again,
    /// Nothing is pending any more.
    Drained,
}

/// What a write of the caller's data comes to.
#[derive(PartialEq, Eq, Structural)]
pub enum WriteReturn {
    /// Report the transport's error.
    Fail,
    /// Report that this many bytes were accepted.
    Accepted(usize),
}

/// Writes the padding protocol.
pub struct PaddedWriter {
    frames_done: u8,
    pending: Option<bytes::Bytes>,
    off: usize,
    frames: Ghost<Seq<(Seq<u8>, Seq<u8>)>>,
    sent: Ghost<Seq<u8>>,
}

impl View for PaddedWriter {
    type V = WriteState;

    closed spec fn view(&self) -> WriteState {
        WriteState {
            frames: self.frames@,
            sent: self.sent@,
            unsent: match self.pending {
                Some(b) => buffer::frozen(b).skip(self.off as int),
                None => Seq::empty(),
            },
        }
    }
}

impl PaddedWriter {
    spec fn fields_wf(&self) -> bool {
        &&& self.frames@.len() == self.frames_done
        &&& self.pending matches Some(b) ==> self.off < buffer::frozen(b).len()
    }

    /// No more than eight frames are built, every one fits its header, and what was sent and
    /// what is pending together are exactly the frames in order.
    pub closed spec fn wf(&self) -> bool {
        &&& self.fields_wf()
        &&& self@.frames.len() <= PADDING_FRAMES
        &&& forall|i: int| 0 <= i < self@.frames.len() ==> frame_fits(#[trigger] self@.frames[i])
        &&& self@.sent + self@.unsent == frames_wire(self@.frames)
    }

    /// A writer before the first frame.
    pub fn new() -> (r: Self)
        ensures
            r.wf(),
            r@ == (WriteState { frames: Seq::empty(), sent: Seq::empty(), unsent: Seq::empty() }),
    {
        let r = PaddedWriter {
            frames_done: 0,
            pending: None,
            off: 0,
            frames: Ghost(Seq::empty()),
            sent: Ghost(Seq::empty()),
        };
        assert(r@.sent + r@.unsent =~= frames_wire(r@.frames));
        assert(r@ =~= (WriteState {
            frames: Seq::empty(),
            sent: Seq::empty(),
            unsent: Seq::empty(),
        }));
        r
    }

    /// Whether part of a frame is still to be written.
    pub fn has_pending(&self) -> (r: bool)
        requires
            self.wf(),
        ensures
            r == (self@.unsent.len() > 0),
    {
        self.pending.is_some()
    }

    /// The bytes that are still to be written.
    pub fn pending_bytes(&self) -> (r: &[u8])
        requires
            self.wf(),
            self@.unsent.len() > 0,
        ensures
            r@ == self@.unsent,
    {
        let all: &[u8] = buffer::frozen_slice(self.pending.as_ref().unwrap());
        vstd::slice::slice_subrange(all, self.off, all.len())
    }

    fn take_written(&mut self, n: usize)
        requires
            old(self).wf(),
            old(self)@.unsent.len() > 0,
        ensures
            final(self).wf(),
            final(self)@ == taken(old(self)@, n as nat),
    {
        let len: usize = buffer::frozen_slice(self.pending.as_ref().unwrap()).len();
        let ghost before = self@;
        let ghost k = if n < before.unsent.len() {
            n as int
        } else {
            before.unsent.len() as int
        };
        if n >= len - self.off {
            self.pending = None;
            self.off = 0;
        } else {
            self.off += n;
        }
        proof {
            self.sent@ = self.sent@ + before.unsent.take(k);
        }
        assert(self@.unsent =~= before.unsent.skip(k));
        assert(self@ =~= taken(before, n as nat));
        assert(self@.sent + self@.unsent =~= before.sent + before.unsent);
    }

    /// Takes the outcome of writing the pending bytes ahead of the caller's data, or to flush.
    pub fn on_drain(&mut self, event: WriteEvent) -> (r: DrainNext)
        requires
            old(self).wf(),
            old(self)@.unsent.len() > 0,
        ensures
            final(self).wf(),
            (final(self)@, r) == after_drain(old(self)@, event),
            match event {
                WriteEvent::Pending => r == DrainNext::Suspend && final(self)@ == old(self)@,
                WriteEvent::Failed => r == DrainNext::Fail && final(self)@ == old(self)@,
                WriteEvent::Wrote(n) => if n == 0 {
                    r == DrainNext::WriteZero && final(self)@ == old(self)@
                } else {
                    &&& final(self)@ == taken(old(self)@, n as nat)
                    &&& r == (if final(self)@.unsent.len() > 0 {
                        DrainNext::Again
                    } else {
                        DrainNext::Drained
                    })
                },
            },
    {
        match event {
            WriteEvent::Pending => DrainNext::Suspend,
            WriteEvent::Failed => DrainNext::Fail,
            WriteEvent::Wrote(n) => {
                if n == 0 {
                    return DrainNext::WriteZero;
                }
                self.take_written(n);
                if self.has_pending() {
                    DrainNext::Again
                } else {
                    DrainNext::Drained
                }
            },
        }
    }

    /// Builds the next padding frame from the front of `data` and says how much of it the frame
    /// holds; `None` once eight frames are built, where the data goes to the transport as it is.
    pub fn start_frame(&mut self, data: &[u8], rng: &mut PaddingRng) -> (r: Option<usize>)
        requires
            old(self).wf(),
            old(self)@.unsent.len() == 0,
        ensures
            final(self).wf(),
            (final(self)@, r, final(rng).state) == after_start(
                old(self)@,
                data@,
                old(rng).state,
            ),
            if old(self)@.frames.len() == PADDING_FRAMES {
                &&& r is None
                &&& final(self)@ == old(self)@
                &&& final(rng).state == old(rng).state
            } else {
                let part = frame_part(data@);
                let padding = frame_padding(old(rng).state);
                &&& r == Some(part.len() as usize)
                &&& final(self)@ == (WriteState {
                    frames: old(self)@.frames.push((part, padding)),
                    sent: old(self)@.sent,
                    unsent: frame(part, padding),
                })
                &&& frames_data(final(self)@.frames) == frames_data(old(self)@.frames) + part
                &&& final(rng).state == state_after(old(rng).state, 1 + padding.len())
            },
    {
        if self.frames_done >= PADDING_FRAMES {
            return None;
        }
        let ghost before = self@;
        let ghost start = rng.state;
        let data_len: usize = if data.len() < MAX_PADDED_PAYLOAD {
            data.len()
        } else {
            MAX_PADDED_PAYLOAD
        };
        let part: &[u8] = vstd::slice::slice_subrange(data, 0, data_len);
        assert(part@ =~= frame_part(data@));
        let pad_size: u8 = rng.random_u8();
        let padding: Vec<u8> = rng.gen_random_bytes(pad_size as usize);
        assert(padding@ =~= frame_padding(start));
        proof {
            lemma_state_after_chain(start, 1, pad_size as nat);
            reveal_with_fuel(state_after, 3);
        }
        let mut built: bytes::BytesMut = buffer::buffer_with_capacity(
            3 + data_len + pad_size as usize,
        );
        buffer::put_u16(&mut built, data_len as u16);
        buffer::put_u8(&mut built, pad_size);
        buffer::put_slice(&mut built, part);
        buffer::put_slice(&mut built, padding.as_slice());
        assert(buffer::held(built) =~= frame(part@, padding@));
        self.pending = Some(buffer::freeze(built));
        self.off = 0;
        self.frames_done += 1;
        proof {
            self.frames@ = self.frames@.push((part@, padding@));
            assert(self@.unsent =~= frame(part@, padding@));
            assert(self@.frames.drop_last() =~= before.frames);
            assert(before.unsent =~= Seq::<u8>::empty());
            assert(before.sent + before.unsent =~= before.sent);
        }
        Some(data_len)
    }

    /// Takes the outcome of the first attempt to write a new frame: an error is reported, and
    /// whatever the transport did not take stays pending.
    pub fn on_first_write(&mut self, accepted: usize, event: WriteEvent) -> (r: WriteReturn)
        requires
            old(self).wf(),
            old(self)@.unsent.len() > 0,
        ensures
            final(self).wf(),
            (final(self)@, r) == after_first_write(old(self)@, accepted, event),
            match event {
                WriteEvent::Failed => r == WriteReturn::Fail && final(self)@ == old(self)@,
                WriteEvent::Pending => r == WriteReturn::Accepted(accepted) && final(self)@
                    == old(self)@,
                WriteEvent::Wrote(n) => r == WriteReturn::Accepted(accepted) && final(self)@
                    == taken(old(self)@, n as nat),
            },
    {
        match event {
            WriteEvent::Failed => WriteReturn::Fail,
            WriteEvent::Pending => WriteReturn::Accepted(accepted),
            WriteEvent::Wrote(n) => {
                self.take_written(n);
                WriteReturn::Accepted(accepted)
            },
        }
    }

    /// Whatever has been sent so far carries a prefix of the data accepted so far, and nothing
    /// else; with nothing pending it carries all of it. What was sent and what is pending are
    /// together the frames in order, at most eight of them, each of which fits its header.
    pub proof fn law_sent_carries_prefix(&self)
        requires
            self.wf(),
        ensures
            self@.sent + self@.unsent == frames_wire(self@.frames),
            self@.frames.len() <= PADDING_FRAMES,
            forall|i: int| 0 <= i < self@.frames.len() ==> frame_fits(#[trigger] self@.frames[i]),
            payload(initial_read_state(), self@.sent).is_prefix_of(frames_data(self@.frames)),
            self@.unsent.len() == 0 ==> self@.sent == frames_wire(self@.frames) && payload(
                initial_read_state(),
                self@.sent,
            ) == frames_data(self@.frames),
    {
        lemma_frames_read(self@.frames);
        law_reads_compose(initial_read_state(), self@.sent, self@.unsent);
        if self@.unsent.len() == 0 {
            assert(self@.unsent =~= Seq::<u8>::empty());
            assert(self@.sent + self@.unsent =~= self@.sent);
        }
    }

    /// What a flushed writer wrote is what a new reader hands over: the data of the frames and
    /// then the raw bytes, which follow only the eighth frame. Neither a header nor padding comes
    /// out, and nothing is lost, repeated or moved, however the stream is cut into reads.
    pub proof fn law_written_is_delivered(&self, raw: Seq<u8>, reads: Seq<Seq<u8>>)
        requires
            self.wf(),
            self@.unsent.len() == 0,
            raw.len() > 0 ==> self@.frames.len() == PADDING_FRAMES,
            joined(reads) == self@.sent + raw,
        ensures
            delivered(initial_read_state(), reads) == frames_data(self@.frames) + raw,
    {
        self.law_sent_carries_prefix();
        law_padding_round_trip(self@.frames, raw);
        law_delivery_ignores_cuts(initial_read_state(), reads);
    }
}

/// A frame is the two bytes of the data's size, the byte of the padding's size, the data and the
/// padding, in this order.
pub proof fn law_frames_are_laid_out(data: Seq<u8>, padding: Seq<u8>)
    requires
        data.len() <= 65535,
        padding.len() <= 255,
    ensures
        ({
            let f = frame(data, padding);
            &&& f.len() == 3 + data.len() + padding.len()
            &&& f[0] * 256 + f[1] == data.len()
            &&& f[2] == padding.len()
            &&& f.subrange(3, 3 + data.len() as int) == data
            &&& f.skip(3 + data.len() as int) == padding
        }),
{
    let f = frame(data, padding);
    assert(f.subrange(3, 3 + data.len() as int) =~= data);
    assert(f.skip(3 + data.len() as int) =~= padding);
}

/// A frame takes the front of the data, all of it where its size can be said in two bytes.
pub proof fn law_frames_take_the_front(data: Seq<u8>)
    ensures
        frame_part(data).is_prefix_of(data),
        data.len() <= 65535 ==> frame_part(data) == data,
        data.len() > 65535 ==> frame_part(data).len() == 65535,
{
    if data.len() == 65535 {
        assert(data.take(65535) =~= data);
    }
}

/// What the transport takes goes from the front of what is unsent to the end of what is sent, as
/// much as it takes; no frame changes.
pub proof fn law_taking_keeps_order(st: WriteState, n: nat)
    ensures
        ({
            let next = taken(st, n);
            &&& next.frames == st.frames
            &&& next.sent + next.unsent == st.sent + st.unsent
            &&& n <= st.unsent.len() ==> next.sent.len() == st.sent.len() + n
            &&& n >= st.unsent.len() ==> next.unsent.len() == 0
        }),
{
    assert(taken(st, n).sent + taken(st, n).unsent =~= st.sent + st.unsent);
}

/// A stream begins with frames, eight of them, and every byte behind the last one is payload. In a
/// frame the three bytes of the header and the padding are not, and every byte of the data is.
pub proof fn law_payload_is_the_data(n: nat, data: Seq<u8>, padding: Seq<u8>, raw: Seq<u8>)
    requires
        data.len() <= 65535,
        padding.len() <= 255,
    ensures
        n < 8 ==> payload(between_frames(n), frame(data, padding)) == data && after_bytes(
            between_frames(n),
            frame(data, padding),
        ) == between_frames(n + 1),
        n >= 8 ==> payload(between_frames(n), raw) == raw && after_bytes(between_frames(n), raw)
            == between_frames(n),
        between_frames(0) == initial_read_state(),
{
    if n < 8 {
        lemma_frame_read(n, data, padding);
    } else {
        lemma_one_read(between_frames(n), raw);
        assert(raw.len() == 0 ==> raw =~= Seq::<u8>::empty());
    }
    assert(between_frames(0) =~= initial_read_state());
}

/// The seed is never zero, and what follows a state follows from it alone: running the generator
/// on is running it from where it stands.
pub proof fn law_generator_runs_on(s: u64, a: nat, b: nat, nanos: u64)
    ensures
        seed(nanos) != 0,
        state_after(state_after(s, a), b) == state_after(s, a + b),
        random_bytes(s, a + b) == random_bytes(s, a) + random_bytes(state_after(s, a), b),
{
    lemma_state_after_chain(s, a, b);
    let x = random_bytes(s, a + b);
    let y = random_bytes(s, a) + random_bytes(state_after(s, a), b);
    assert forall|i: int| 0 <= i < a + b implies #[trigger] x[i] == y[i] by {
        if i >= a {
            lemma_state_after_chain(s, a, (i - a + 1) as nat);
        }
    }
    assert(x =~= y);
}

/// What a reader asks for never passes the end of the part that the stream is in, nor the room of
/// the caller, and is always something; data goes to the caller and padding does not, and once
/// the frames are over the stream is read as it is.
pub proof fn law_reads_stay_within_their_part(st: ReadState, room: nat)
    requires
        st.header.len() < 3,
        st.data <= 65535,
        st.skip <= 255,
        room <= usize::MAX,
    ensures
        match next_read(st, room) {
            ReadStep::Full => st.data > 0 && room == 0,
            ReadStep::Deliver { max } => st.data > 0 && 1 <= max && max <= st.data && max <= room
                && (max == st.data || max == room || max == 4096),
            ReadStep::Discard { max } => st.data == 0 && st.skip > 0 && 1 <= max && max <= st.skip
                && (max == st.skip || max == 256),
            ReadStep::Header { max } => st.data == 0 && st.skip == 0 && st.frames < 8 && max
                + st.header.len() == 3,
            ReadStep::Raw => st.data == 0 && st.skip == 0 && st.frames >= 8,
        },
        is_payload(st) <==> next_read(st, 1) is Deliver || next_read(st, 1) is Raw,
{
}

/// Draining goes on until nothing is pending, and stops for its own reasons only: the transport
/// blocks, fails, or takes nothing. Nothing is lost or moved in any case.
pub proof fn law_draining_goes_on(st: WriteState, event: WriteEvent)
    requires
        st.unsent.len() > 0,
    ensures
        ({
            let (next, then) = after_drain(st, event);
            &&& next.frames == st.frames
            &&& next.sent + next.unsent == st.sent + st.unsent
            &&& then == DrainNext::Suspend <==> event is Pending
            &&& then == DrainNext::Fail <==> event is Failed
            &&& then == DrainNext::WriteZero <==> event == WriteEvent::Wrote(0)
            &&& then == DrainNext::Drained <==> next.unsent.len() == 0
            &&& event matches WriteEvent::Wrote(n) ==> next.unsent.len() == (if n
                >= st.unsent.len() {
                0int
            } else {
                st.unsent.len() - n
            })
        }),
{
    let (next, then) = after_drain(st, event);
    if let WriteEvent::Wrote(n) = event {
        law_taking_keeps_order(st, n as nat);
        if n == 0 {
            assert(next == st);
        }
    }
}

/// A write is accepted for exactly the data that its frame holds, which is the front of what was
/// given, all of it up to 65535 bytes; the frame follows all that was sent, and the reader gets
/// that data out of it. After eight frames no more are built.
pub proof fn law_writes_are_accepted_for_their_data(st: WriteState, data: Seq<u8>, rng: u64)
    requires
        st.unsent.len() == 0,
        st.frames.len() <= 8,
    ensures
        ({
            let (next, accepted, _) = after_start(st, data, rng);
            &&& accepted is None <==> st.frames.len() == 8
            &&& accepted is None ==> next == st
            &&& accepted matches Some(n) ==> {
                &&& n == (if data.len() < 65535 {
                    data.len() as int
                } else {
                    65535
                })
                &&& next.sent == st.sent
                &&& next.frames.len() == st.frames.len() + 1
                &&& next.frames.take(st.frames.len() as int) == st.frames
                &&& frames_data(next.frames) == frames_data(st.frames) + data.take(n as int)
                &&& payload(between_frames(st.frames.len()), next.unsent) == data.take(n as int)
            }
        }),
{
    let (next, accepted, _) = after_start(st, data, rng);
    if st.frames.len() < 8 {
        let part = frame_part(data);
        let padding = frame_padding(rng);
        assert(next.frames.drop_last() =~= st.frames);
        assert(next.frames.take(st.frames.len() as int) =~= st.frames);
        assert(part =~= data.take(part.len() as int));
        assert(padding.len() <= 255);
        law_payload_is_the_data(st.frames.len(), part, padding, Seq::empty());
    }
}

/// Once a frame is built its data is accepted, whether the transport takes all of it at once, part
/// of it or nothing yet; only an error is not. What it did not take stays to be sent.
pub proof fn law_first_write_accepts(st: WriteState, accepted: usize, event: WriteEvent)
    ensures
        ({
            let (next, then) = after_first_write(st, accepted, event);
            &&& then == WriteReturn::Fail <==> event is Failed
            &&& !(event is Failed) ==> then == WriteReturn::Accepted(accepted)
            &&& next.frames == st.frames
            &&& next.sent + next.unsent == st.sent + st.unsent
            &&& !(event is Wrote) ==> next == st
        }),
{
    if let WriteEvent::Wrote(n) = event {
        law_taking_keeps_order(st, n as nat);
    }
}

/// The padding header has 30 to 61 characters; the first sixteen are among those that are not
/// compressed away, and the rest are tildes.
pub proof fn law_padding_headers_have_their_form(s: u64)
    ensures
        30 <= padding_header(s).len() <= 61,
        padding_header(s).len() == 30 + (xorshift(s) % 256) % 32,
        forall|i: int|
            0 <= i < 16 ==> "!#$()+<>?@[]^`{}"@.contains(#[trigger] padding_header(s)[i]),
        forall|i: int| 16 <= i < padding_header(s).len() ==> #[trigger] padding_header(s)[i] == '~',
{
    reveal_strlit("!#$()+<>?@[]^`{}");
    let x = xorshift(s);
    assert(x as u8 == x % 256) by (bit_vector);
    assert forall|i: int| 0 <= i < 16 implies "!#$()+<>?@[]^`{}"@.contains(
        #[trigger] padding_header(s)[i],
    ) by {
        let k = nibble(random_bytes(xorshift(s), 8), i);
        assert(0 <= k < 16);
        assert(padding_header(s)[i] == "!#$()+<>?@[]^`{}"@[k]);
    }
}

} // verus!
