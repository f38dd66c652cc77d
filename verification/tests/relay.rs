use server_naive::proxy_core::relay::{
    CopyAction, CopyReturn, DirectionalBuffer, IoEvent, ReadEvent, Relay, RelayTermination,
    RoundNext,
};

/// One end of a relay: what it still sends, and what it was sent.
struct End {
    input: Vec<u8>,
    ends: bool,
    output: Vec<u8>,
    room: usize,
    flushes: bool,
    shut: bool,
}

impl End {
    /// An end that sends `input` and then ends.
    fn sending(input: &[u8]) -> Self {
        End { input: input.to_vec(), ends: true, ..End::silent() }
    }

    /// An end that sends nothing and never ends.
    fn silent() -> Self {
        End {
            input: Vec::new(),
            ends: false,
            output: Vec::new(),
            room: usize::MAX,
            flushes: true,
            shut: false,
        }
    }

    /// What a read of at most `room` bytes gives; none where it would block.
    fn read(&mut self, room: usize) -> Option<Vec<u8>> {
        if self.input.is_empty() && !self.ends {
            return None;
        }
        let n = room.min(self.input.len());
        Some(self.input.drain(..n).collect())
    }
}

fn event(bytes: &Option<Vec<u8>>) -> ReadEvent<'_> {
    match bytes {
        Some(b) => ReadEvent::Bytes(b),
        None => ReadEvent::Pending,
    }
}

/// Polls one direction until it returns.
fn poll(dir: &mut DirectionalBuffer, from: &mut End, to: &mut End) -> CopyReturn {
    let mut action = dir.start();
    loop {
        action = match action {
            CopyAction::Write => {
                let n = to.room.min(dir.pending().len());
                if n == 0 {
                    dir.on_write(IoEvent::Pending)
                } else {
                    to.output.extend_from_slice(&dir.pending()[..n]);
                    to.room -= n;
                    dir.on_write(IoEvent::Done(n))
                }
            }
            CopyAction::ReadAhead { room } => {
                let bytes = from.read(room);
                dir.on_read_ahead(event(&bytes))
            }
            CopyAction::Flush => {
                dir.on_flush(if to.flushes { IoEvent::Done(0) } else { IoEvent::Pending })
            }
            CopyAction::Shutdown => {
                to.shut = true;
                dir.on_shutdown(IoEvent::Done(0))
            }
            CopyAction::Read { room } => {
                let bytes = from.read(room);
                dir.on_read(event(&bytes))
            }
            CopyAction::Return(outcome) => return outcome,
        };
    }
}

/// One round over both directions.
fn round(relay: &mut Relay, client: &mut End, remote: &mut End) -> RoundNext {
    let a_before = relay.a_to_b.bytes_transferred();
    let b_before = relay.b_to_a.bytes_transferred();
    let a = poll(&mut relay.a_to_b, client, remote);
    assert!(!Relay::fails(a));
    let b = poll(&mut relay.b_to_a, remote, client);
    assert!(!Relay::fails(b));
    relay.end_round(a_before, b_before, a, Some(b))
}

#[test]
fn test_basic_bidirectional_copy() {
    let mut client = End::sending(b"hello world");
    let mut remote = End::sending(b"");
    let mut relay = Relay::new(300, 2, 5, 1024, false);
    assert!(round(&mut relay, &mut client, &mut remote) == RoundNext::Finish);
    let result = relay.result(RelayTermination::Completed).unwrap();
    assert!(result.completed);
    assert!(result.a_to_b > 0);
    assert_eq!(result.a_to_b, 11);
    assert_eq!(result.b_to_a, 0);
    assert_eq!(remote.output, b"hello world");
    assert!(result.client_eof && result.remote_eof);
}

#[test]
fn test_no_half_close_timer_after_client_eof() {
    let mut client = End::sending(b"hello");
    let mut remote = End::silent();
    let mut relay = Relay::new(300, 1, 1, 1024, false);
    // However often the relay is polled after the client's end, it waits for the remote.
    assert!(round(&mut relay, &mut client, &mut remote) == RoundNext::Wait { reset_idle: true });
    for _ in 0..60 {
        assert!(
            round(&mut relay, &mut client, &mut remote) == RoundNext::Wait { reset_idle: false }
        );
    }
    assert!(relay.a_to_b.is_done());
    assert!(!relay.b_to_a.is_done());
}

#[test]
fn test_idle_timeout_fires() {
    let mut client = End::silent();
    let mut remote = End::silent();
    let mut relay = Relay::new(3, 100, 100, 1024, false);
    let next = round(&mut relay, &mut client, &mut remote);
    assert!(next == RoundNext::Wait { reset_idle: false });
    assert_eq!(Relay::ending(&next, false), None);
    let end = Relay::ending(&next, true).unwrap();
    assert_eq!(relay.idle_secs, 3);
    let result = relay.result(end).unwrap();
    assert_eq!(result.termination, RelayTermination::IdleTimeout);
    assert!(!result.completed);
    assert!(!result.client_eof && !result.remote_eof);
}

#[test]
fn test_stats_recorded() {
    let mut client = End::sending(b"upload");
    let mut remote = End::sending(b"download");
    let mut relay = Relay::new(300, 2, 5, 1024, false);
    assert!(round(&mut relay, &mut client, &mut remote) == RoundNext::Finish);
    let result = relay.result(RelayTermination::Completed).unwrap();
    assert!(result.a_to_b > 0, "upload bytes should be counted");
    assert!(result.b_to_a > 0, "download bytes should be counted");
    let traffic = relay.traffic();
    assert_eq!(traffic.upload, Some(result.a_to_b), "recorded upload must match relay count");
    assert_eq!(traffic.download, Some(result.b_to_a), "recorded download must match relay count");
    assert_eq!(traffic.upload, Some(6));
    assert_eq!(traffic.download, Some(8));
}

#[test]
fn red_idle_timer_not_reset_when_flush_always_pending() {
    let mut client = End::silent();
    let mut remote = End { flushes: false, ..End::silent() };
    let mut relay = Relay::new(1, 10, 10, 1024, false);
    assert!(round(&mut relay, &mut client, &mut remote) == RoundNext::Wait { reset_idle: false });
    client.input = vec![0u8; 64];
    assert!(
        round(&mut relay, &mut client, &mut remote) == RoundNext::Wait { reset_idle: true },
        "bytes moved, so the idle timer starts anew although the flush never completes"
    );
    assert_eq!(remote.output.len(), 64);
}

#[test]
fn test_relay_propagates_client_eof_as_fin_when_suppress_disabled() {
    let mut client = End::sending(b"GET /download HTTP/1.1\r\nHost: test\r\n\r\n");
    let mut remote = End::silent();
    let mut relay = Relay::new(5, 5, 5, 4096, false);
    round(&mut relay, &mut client, &mut remote);
    assert!(remote.shut, "the client's end must reach the server");
    assert!(!client.shut);
}

#[test]
fn test_suppress_flag_prevents_fin_and_delivers_full_download() {
    let header: &[u8] = b"HTTP/1.1 200 OK\r\nContent-Length: 100000\r\n\r\n";
    let mut body = header.to_vec();
    body.extend_from_slice(&[b'X'; 100_000]);
    let mut client = End::sending(b"GET /download HTTP/1.1\r\nHost: test\r\n\r\n");
    let mut remote = End::silent();
    let mut relay = Relay::new(60, 30, 30, 4096, true);
    assert!(round(&mut relay, &mut client, &mut remote) == RoundNext::Wait { reset_idle: true });
    assert!(relay.a_to_b.is_done());
    remote.input = body.clone();
    remote.ends = true;
    assert!(round(&mut relay, &mut client, &mut remote) == RoundNext::Finish);
    assert!(!remote.shut, "the client's end must not reach the server");
    assert_eq!(client.output, body, "the client must receive the whole body");
    assert_eq!(relay.b_to_a.bytes_transferred(), 100_000 + header.len() as u64);
    assert!(client.shut, "the server's end always reaches the client");
}

#[test]
fn test_long_post_upload_server_pause_is_not_truncated() {
    let mut client = End::sending(&[b'U'; 50_000]);
    let mut remote = End::silent();
    let mut relay = Relay::new(300, 1, 1, 4096, false);
    assert!(round(&mut relay, &mut client, &mut remote) == RoundNext::Wait { reset_idle: true });
    for _ in 0..200 {
        assert!(
            round(&mut relay, &mut client, &mut remote) == RoundNext::Wait { reset_idle: false }
        );
    }
    remote.input = b"HTTP/1.1 200 OK\r\n\r\n".to_vec();
    remote.ends = true;
    assert!(round(&mut relay, &mut client, &mut remote) == RoundNext::Finish);
    assert_eq!(remote.output.len(), 50_000);
    assert_eq!(client.output, b"HTTP/1.1 200 OK\r\n\r\n");
}

#[test]
fn green_uplink_only_30s_server_responds_in_3s_succeeds() {
    let mut client = End::sending(&[b'U'; 4096]);
    let mut remote = End::silent();
    let mut relay = Relay::new(300, 30, 60, 8192, false);
    round(&mut relay, &mut client, &mut remote);
    for _ in 0..3 {
        round(&mut relay, &mut client, &mut remote);
    }
    remote.input = b"HTTP/1.1 200 OK\r\nContent-Length: 0\r\n\r\n".to_vec();
    remote.ends = true;
    assert!(round(&mut relay, &mut client, &mut remote) == RoundNext::Finish);
    assert_eq!(client.output, b"HTTP/1.1 200 OK\r\nContent-Length: 0\r\n\r\n");
}

#[test]
fn green_downlink_only_3s_slow_write_completes() {
    // The server's end is read while its bytes still wait for a blocked client.
    let mut client = End { room: 0, ..End::silent() };
    let mut remote = End::sending(&[0x44; 4096]);
    let mut relay = Relay::new(300, 10, 3, 8192, false);
    round(&mut relay, &mut client, &mut remote);
    assert!(relay.b_to_a.has_read_eof());
    assert!(!relay.b_to_a.is_done());
    assert_eq!(relay.b_to_a.pending().len(), 4096);
    client.room = usize::MAX;
    client.ends = true;
    assert!(round(&mut relay, &mut client, &mut remote) == RoundNext::Finish);
    assert_eq!(client.output, vec![0x44; 4096]);
}

#[test]
fn relays_end_for_three_reasons_only() {
    let relay = Relay::new(300, 2, 5, 1024, false);
    let wait = RoundNext::Wait { reset_idle: false };
    assert!(relay.end_round(0, 0, CopyReturn::Pending, Some(CopyReturn::Pending)) == wait);
    assert!(relay.end_round(0, 0, CopyReturn::Error, None) == RoundNext::Fail);
    assert!(relay.end_round(0, 0, CopyReturn::Ready, Some(CopyReturn::WriteZero)) == RoundNext::Fail);
    assert_eq!(Relay::ending(&RoundNext::Fail, true), Some(RelayTermination::Error));
    assert_eq!(Relay::ending(&RoundNext::Finish, true), Some(RelayTermination::Completed));
    assert_eq!(Relay::ending(&wait, true), Some(RelayTermination::IdleTimeout));
    assert_eq!(Relay::ending(&wait, false), None);
}

#[test]
fn half_close_times_make_no_difference() {
    let mut outputs = Vec::new();
    for (uplink, downlink) in [(0, 0), (1, 1), (30, 30), (u64::MAX, 0)] {
        let mut client = End::sending(b"question");
        let mut remote = End::silent();
        let mut relay = Relay::new(300, uplink, downlink, 4, false);
        for _ in 0..10 {
            let next = round(&mut relay, &mut client, &mut remote);
            assert_eq!(Relay::ending(&next, false), None);
        }
        assert!(relay.a_to_b.is_done() && remote.shut);
        remote.input = b"answer".to_vec();
        remote.ends = true;
        let next = round(&mut relay, &mut client, &mut remote);
        let end = Relay::ending(&next, false).unwrap();
        outputs.push((client.output, remote.output, relay.result(end).unwrap()));
    }
    assert!(outputs.iter().all(|o| *o == outputs[0]));
    assert_eq!(outputs[0].0, b"answer");
}

#[test]
fn a_finished_direction_touches_nothing() {
    for suppress in [false, true] {
        let mut from = End::sending(b"abc");
        let mut to = End::silent();
        let mut dir = DirectionalBuffer::new(8, suppress);
        assert!(poll(&mut dir, &mut from, &mut to) == CopyReturn::Ready);
        assert_eq!(to.output, b"abc");
        assert_eq!(dir.bytes_transferred(), 3);
        assert!(dir.is_done() && dir.has_read_eof());
        assert_eq!(to.shut, !suppress);
        to.shut = false;
        from.input = b"more".to_vec();
        assert!(poll(&mut dir, &mut from, &mut to) == CopyReturn::Ready);
        assert_eq!(from.input, b"more");
        assert_eq!(to.output, b"abc");
        assert!(!to.shut);
    }
}

#[test]
fn a_slow_writer_gets_everything_in_order() {
    let data: Vec<u8> = (0..=255u8).collect();
    let mut client = End::sending(&data);
    let mut remote = End { room: 0, ..End::silent() };
    let mut relay = Relay::new(300, 2, 5, 16, false);
    let mut rounds = 0;
    while !relay.a_to_b.is_done() {
        remote.room = 3;
        round(&mut relay, &mut client, &mut remote);
        assert!(data.starts_with(&remote.output));
        rounds += 1;
        assert!(rounds < 1000);
    }
    assert_eq!(remote.output, data);
}

#[test]
fn a_writer_that_takes_nothing_or_fails_ends_the_relay() {
    let mut dir = DirectionalBuffer::new(8, false);
    assert!(dir.start() == CopyAction::Flush);
    assert!(dir.on_flush(IoEvent::Done(0)) == CopyAction::Read { room: 8 });
    assert!(dir.on_read(ReadEvent::Bytes(b"abc")) == CopyAction::Write);
    assert!(dir.on_write(IoEvent::Done(0)) == CopyAction::Return(CopyReturn::WriteZero));
    assert!(dir.on_write(IoEvent::Failed) == CopyAction::Return(CopyReturn::Error));
    assert!(Relay::fails(CopyReturn::WriteZero));
    assert!(Relay::fails(CopyReturn::Error));
    assert!(!Relay::fails(CopyReturn::Ready));
    assert!(!Relay::fails(CopyReturn::Pending));
    assert_eq!(dir.pending(), b"abc");
    assert_eq!(dir.bytes_transferred(), 0);
}

#[test]
fn a_reader_that_fails_behind_pending_bytes_counts_as_ended() {
    let mut dir = DirectionalBuffer::new(8, false);
    dir.on_read(ReadEvent::Bytes(b"abc"));
    assert!(dir.on_write(IoEvent::Pending) == CopyAction::ReadAhead { room: 5 });
    assert!(dir.on_read_ahead(ReadEvent::Failed) == CopyAction::Return(CopyReturn::Pending));
    assert!(dir.has_read_eof());
    assert!(dir.on_write(IoEvent::Pending) == CopyAction::Return(CopyReturn::Pending));
    assert!(dir.on_write(IoEvent::Done(3)) == CopyAction::Flush);
    assert!(dir.on_flush(IoEvent::Pending) == CopyAction::Shutdown);
    assert!(dir.on_shutdown(IoEvent::Pending) == CopyAction::Return(CopyReturn::Pending));
    assert!(!dir.is_done());
    assert!(dir.on_shutdown(IoEvent::Failed) == CopyAction::Return(CopyReturn::Ready));
    assert!(dir.is_done());
    assert!(dir.start() == CopyAction::Return(CopyReturn::Ready));
}

#[test]
fn a_reader_that_fails_on_an_empty_buffer_ends_the_relay() {
    let mut dir = DirectionalBuffer::new(8, false);
    assert!(dir.on_read(ReadEvent::Failed) == CopyAction::Return(CopyReturn::Error));
    assert!(dir.on_read(ReadEvent::Pending) == CopyAction::Return(CopyReturn::Pending));
    assert!(dir.on_flush(IoEvent::Failed) == CopyAction::Return(CopyReturn::Error));
}

#[test]
fn terminations_have_names() {
    assert_eq!(RelayTermination::Completed.as_str(), "completed");
    assert_eq!(RelayTermination::IdleTimeout.as_str(), "idle_timeout");
    assert_eq!(RelayTermination::Error.as_str(), "error");
    assert!(Relay::new(300, 2, 5, 1, false).result(RelayTermination::Error).is_none());
    let traffic = Relay::new(300, 2, 5, 1, false).traffic();
    assert_eq!(traffic.upload, None);
    assert_eq!(traffic.download, None);
}
