use server_naive::transport::padding::{
    generate_padding_header, DrainNext, PaddedReader, PaddedWriter, PaddingRng, ReadNext, ReadStep,
    WriteEvent, WriteReturn, MAX_PADDED_PAYLOAD,
};

fn rng() -> PaddingRng {
    PaddingRng::from_nanos(123_456_789)
}

/// A transport that takes at most `cap` bytes with each write.
struct CapWriter {
    cap: usize,
    wire: Vec<u8>,
}

impl CapWriter {
    fn new(cap: usize) -> Self {
        CapWriter { cap, wire: Vec::new() }
    }

    fn write(&mut self, bytes: &[u8]) -> usize {
        let n = bytes.len().min(self.cap);
        self.wire.extend_from_slice(&bytes[..n]);
        n
    }
}

/// Writes all of `data`; at most `limit` writes on the transport.
fn write_all(
    writer: &mut PaddedWriter,
    transport: &mut CapWriter,
    rng: &mut PaddingRng,
    mut data: &[u8],
    limit: usize,
) {
    let mut writes = 0;
    while !data.is_empty() {
        drain(writer, transport, limit);
        match writer.start_frame(data, rng) {
            Some(accepted) => {
                let n = transport.write(writer.pending_bytes());
                assert!(
                    writer.on_first_write(accepted, WriteEvent::Wrote(n))
                        == WriteReturn::Accepted(accepted)
                );
                data = &data[accepted..];
            }
            None => {
                let n = transport.write(data);
                data = &data[n..];
            }
        }
        writes += 1;
        assert!(writes <= limit, "stalled");
    }
}

fn drain(writer: &mut PaddedWriter, transport: &mut CapWriter, limit: usize) {
    let mut writes = 0;
    while writer.has_pending() {
        let n = transport.write(writer.pending_bytes());
        let next = writer.on_drain(WriteEvent::Wrote(n));
        assert!(next == if writer.has_pending() { DrainNext::Again } else { DrainNext::Drained });
        writes += 1;
        assert!(writes <= limit, "stalled");
    }
}

/// Everything that a reader gets out of `wire`, in reads of at most `chunk` bytes.
fn read_all(wire: &[u8], chunk: usize) -> Vec<u8> {
    let mut reader = PaddedReader::new();
    let mut got = Vec::new();
    let mut at = 0;
    while at < wire.len() {
        let (max, deliver) = match reader.next_step(chunk) {
            ReadStep::Full => panic!("there is room"),
            ReadStep::Deliver { max } => (max, true),
            ReadStep::Discard { max } => (max, false),
            ReadStep::Header { max } => (max, false),
            ReadStep::Raw => (chunk, true),
        };
        let n = max.min(chunk).min(wire.len() - at);
        let bytes = &wire[at..at + n];
        let next = reader.on_read(bytes);
        assert!((next == ReadNext::Return) == deliver);
        if deliver {
            got.extend_from_slice(bytes);
        }
        at += n;
    }
    got
}

#[test]
fn test_poll_write_partial_write_no_stall() {
    let mut writer = PaddedWriter::new();
    let mut transport = CapWriter::new(50);
    let mut rng = rng();
    let payload = vec![0xABu8; 100];
    write_all(&mut writer, &mut transport, &mut rng, &payload, 20);
    assert!(writer.has_pending(), "a frame of over 100 bytes does not fit 50");
    write_all(&mut writer, &mut transport, &mut rng, &payload, 20);
    drain(&mut writer, &mut transport, 20);
    assert_eq!(read_all(&transport.wire, 4096), [payload.clone(), payload].concat());
}

#[test]
fn test_poll_write_partial_write_byte_by_byte() {
    let mut writer = PaddedWriter::new();
    let mut transport = CapWriter::new(1);
    let mut rng = rng();
    let payload = vec![0xCDu8; 5];
    for _ in 0..8 {
        write_all(&mut writer, &mut transport, &mut rng, &payload, 300);
    }
    drain(&mut writer, &mut transport, 300);
    assert_eq!(read_all(&transport.wire, 1), vec![0xCDu8; 40]);
}

#[test]
fn padding_header_length() {
    let mut rng = rng();
    for _ in 0..100 {
        let h = generate_padding_header(&mut rng);
        assert!(h.len() >= 30 && h.len() <= 61, "bad length: {}", h.len());
    }
}

#[test]
fn padding_header_chars() {
    const VALID_LEAD: &str = "!#$()+<>?@[]^`{}";
    let mut rng = rng();
    for _ in 0..20 {
        let h = generate_padding_header(&mut rng);
        for (i, c) in h.chars().enumerate() {
            if i < 16 {
                assert!(VALID_LEAD.contains(c), "unexpected char '{c}' at position {i}");
            } else {
                assert_eq!(c, '~', "expected '~' at position {i}");
            }
        }
    }
}

#[test]
fn random_u8_varies() {
    let mut rng = rng();
    let vals: Vec<u8> = (0..20).map(|_| rng.random_u8()).collect();
    let all_same = vals.windows(2).all(|w| w[0] == w[1]);
    assert!(!all_same, "PRNG appears stuck");
}

#[test]
fn the_generator_is_a_xorshift() {
    // The clock is mixed into the seed; each step shifts by 13, 7 and 17.
    let step = |mut x: u64| {
        x ^= x << 13;
        x ^= x >> 7;
        x ^= x << 17;
        x
    };
    let seed = 5u64 ^ (5u64 << 17) ^ 0x9e3779b97f4a7c15;
    let mut rng = PaddingRng::from_nanos(5);
    let first = step(seed);
    let second = step(first);
    assert_eq!(rng.random_u8(), first as u8);
    assert_eq!(rng.gen_random_bytes(1), vec![second as u8]);
    assert_eq!(rng.gen_random_bytes(0), Vec::<u8>::new());
    assert!(second != 0);
}

#[test]
fn a_frame_is_header_data_and_padding() {
    let mut writer = PaddedWriter::new();
    let mut rng = rng();
    let mut same = PaddingRng::from_nanos(123_456_789);
    assert_eq!(writer.start_frame(b"hi", &mut rng), Some(2));
    let size = same.random_u8();
    let padding = same.gen_random_bytes(size as usize);
    let mut wanted = vec![0, 2, size, b'h', b'i'];
    wanted.extend_from_slice(&padding);
    assert_eq!(writer.pending_bytes(), wanted);
}

#[test]
fn only_eight_frames_are_padded() {
    let mut writer = PaddedWriter::new();
    let mut transport = CapWriter::new(usize::MAX);
    let mut rng = rng();
    for i in 0..8u8 {
        write_all(&mut writer, &mut transport, &mut rng, &[i], 2);
    }
    assert_eq!(writer.start_frame(b"raw", &mut rng), None);
    let padded = transport.wire.len();
    write_all(&mut writer, &mut transport, &mut rng, b"raw", 2);
    assert_eq!(&transport.wire[padded..], b"raw");
    assert_eq!(read_all(&transport.wire, 7), b"\x00\x01\x02\x03\x04\x05\x06\x07raw");
}

#[test]
fn what_is_written_is_read_back_however_it_is_cut() {
    let data: Vec<u8> = (0..200_000u32).map(|i| (i * 7 + i / 256) as u8).collect();
    for (cap, chunk) in [(usize::MAX, 4096), (1000, 100), (65_536, 1_000_000)] {
        let mut writer = PaddedWriter::new();
        let mut transport = CapWriter::new(cap);
        let mut rng = rng();
        for part in data.chunks(30_000) {
            write_all(&mut writer, &mut transport, &mut rng, part, 1000);
        }
        drain(&mut writer, &mut transport, 1000);
        assert_eq!(read_all(&transport.wire, chunk), data);
    }
}

#[test]
fn a_frame_takes_as_much_as_its_header_can_say() {
    let mut writer = PaddedWriter::new();
    let data = vec![1u8; MAX_PADDED_PAYLOAD + 10];
    assert_eq!(writer.start_frame(&data, &mut rng()), Some(65535));
    assert_eq!(&writer.pending_bytes()[..2], &[0xff, 0xff]);
    let mut empty = PaddedWriter::new();
    assert_eq!(empty.start_frame(b"", &mut rng()), Some(0));
    assert_eq!(&empty.pending_bytes()[..2], &[0, 0]);
}

#[test]
fn errors_of_the_transport_are_reported() {
    let mut writer = PaddedWriter::new();
    writer.start_frame(b"data", &mut rng());
    let frame = writer.pending_bytes().to_vec();
    assert!(writer.on_first_write(4, WriteEvent::Failed) == WriteReturn::Fail);
    assert!(writer.on_first_write(4, WriteEvent::Pending) == WriteReturn::Accepted(4));
    assert!(writer.on_drain(WriteEvent::Pending) == DrainNext::Suspend);
    assert!(writer.on_drain(WriteEvent::Failed) == DrainNext::Fail);
    assert!(writer.on_drain(WriteEvent::Wrote(0)) == DrainNext::WriteZero);
    assert_eq!(writer.pending_bytes(), frame);
    assert!(writer.on_drain(WriteEvent::Wrote(frame.len())) == DrainNext::Drained);
}

#[test]
fn readers_ask_for_what_is_due() {
    let mut reader = PaddedReader::new();
    assert!(matches!(reader.next_step(10), ReadStep::Header { max: 3 }));
    assert!(reader.on_read(&[0]) == ReadNext::Again);
    assert!(matches!(reader.next_step(10), ReadStep::Header { max: 2 }));
    assert!(reader.on_read(&[5, 200]) == ReadNext::Again);
    assert!(matches!(reader.next_step(0), ReadStep::Full));
    assert!(matches!(reader.next_step(3), ReadStep::Deliver { max: 3 }));
    assert!(matches!(reader.next_step(10), ReadStep::Deliver { max: 5 }));
    assert!(reader.on_read(b"abcde") == ReadNext::Return);
    assert!(matches!(reader.next_step(10), ReadStep::Discard { max: 200 }));
    assert!(reader.on_read(&[0; 200]) == ReadNext::Again);
    assert!(matches!(reader.next_step(10), ReadStep::Header { max: 3 }));
    // An empty frame has padding only.
    assert!(reader.on_read(&[0, 0, 1]) == ReadNext::Again);
    assert!(matches!(reader.next_step(10), ReadStep::Discard { max: 1 }));
    assert!(reader.on_read(&[]) == ReadNext::Return);
}
