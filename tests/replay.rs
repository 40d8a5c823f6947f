use stream_recorder::codec::{encode_record, header_delta, payload_frame, read_header, Header, HeaderRead, HEADER_LEN};
use stream_recorder::frame::{Frame, FrameError, MAX_FRAME};
use stream_recorder::pacing::{replay_delay_ms, Allowance, Release};
use stream_recorder::replay::{Action, Event, Phase, ReplayConfig, Replayer, POLL_INTERVAL_MS};
use stream_recorder::utils::{bytes_to_u32, u32_to_bytes};

fn frame(bytes: &[u8]) -> Frame {
    Frame::new(bytes.to_vec()).ok().unwrap()
}

fn record(delays_and_payloads: &[(u32, &[u8])], no_headers: bool) -> Vec<u8> {
    let mut file = Vec::new();
    for (d, p) in delays_and_payloads {
        file.extend(encode_record(*d, &frame(p), no_headers));
    }
    file
}

fn read_at(file: &[u8], offset: u64, len: usize) -> Vec<u8> {
    let start = (offset as usize).min(file.len());
    let end = (start + len).min(file.len());
    file[start..end].to_vec()
}

#[derive(Debug, PartialEq)]
enum Seen {
    Sleep(u64),
    Wait,
    Prompt,
    Published(Vec<u8>),
}

/// Runs replay over `file` until `publishes` frames came out or `limit`
/// actions were taken, answering each prompt with `answers` in turn.
fn drive(file: &[u8], config: ReplayConfig, publishes: usize, limit: usize, answers: &[&str]) -> Vec<Seen> {
    let mut r = Replayer::new(config);
    let mut seen = Vec::new();
    let mut answers = answers.iter();
    let mut action = r.pending();
    let mut n = 0;
    for _ in 0..limit {
        let event = match action {
            Action::ReadHeader { offset } => Event::Bytes(read_at(file, offset, HEADER_LEN)),
            Action::Wait { ms } => {
                assert_eq!(ms, POLL_INTERVAL_MS);
                seen.push(Seen::Wait);
                Event::Elapsed
            }
            Action::Sleep { ms } => {
                seen.push(Seen::Sleep(ms));
                Event::Elapsed
            }
            Action::Prompt => {
                seen.push(Seen::Prompt);
                Event::Released(Release::from_input(answers.next().unwrap()))
            }
            Action::ReadPayload { offset, length } => Event::Bytes(read_at(file, offset, length as usize)),
            Action::Publish(f) => {
                seen.push(Seen::Published(f.as_slice().to_vec()));
                n += 1;
                if n == publishes {
                    return seen;
                }
                action = r.pending();
                continue;
            }
        };
        action = r.step(event);
    }
    seen
}

fn cfg(play_timed: bool, play_loop: bool, controlled_play: bool, speed_milli: u32) -> ReplayConfig {
    ReplayConfig { play_timed, play_loop, controlled_play, speed_milli }
}

fn published(seen: &[Seen]) -> Vec<Vec<u8>> {
    seen.iter()
        .filter_map(|s| match s {
            Seen::Published(p) => Some(p.clone()),
            _ => None,
        })
        .collect()
}

#[test]
fn big_endian_bytes() {
    assert_eq!(u32_to_bytes(0x0102_0304), [1, 2, 3, 4]);
    assert_eq!(u32_to_bytes(0), [0, 0, 0, 0]);
    assert_eq!(bytes_to_u32([0xff, 0, 0, 1]), 0xff00_0001);
    assert_eq!(bytes_to_u32(u32_to_bytes(u32::MAX)), u32::MAX);
}

#[test]
fn frame_bounds() {
    assert!(Frame::new(vec![7; MAX_FRAME]).is_ok());
    match Frame::new(vec![7; MAX_FRAME + 1]) {
        Err(e) => assert_eq!(e, FrameError::Oversized { length: MAX_FRAME + 1 }),
        Ok(_) => panic!("oversized payload accepted"),
    }
    let mut buf = vec![9u8; 2 * MAX_FRAME + 10];
    buf[MAX_FRAME] = 1;
    assert!(Frame::from_received(&buf, 0).is_empty());
    let small = Frame::from_received(&buf, 3);
    assert_eq!(small.len(), 1);
    assert_eq!(small[0].as_slice(), &[9, 9, 9]);
    let exact = Frame::from_received(&buf, MAX_FRAME);
    assert_eq!(exact.len(), 1);
    assert_eq!(exact[0].len(), MAX_FRAME);
    let split = Frame::from_received(&buf, 2 * MAX_FRAME + 5);
    let lens: Vec<usize> = split.iter().map(|f| f.len()).collect();
    assert_eq!(lens, vec![MAX_FRAME, MAX_FRAME, 5]);
    assert_eq!(split[1].as_slice()[0], 1);
    let rejoined: Vec<u8> = split.iter().flat_map(|f| f.as_slice().to_vec()).collect();
    assert_eq!(rejoined, buf[..2 * MAX_FRAME + 5].to_vec());
    let f = frame(&[1, 2, 3]);
    assert_eq!(f.clone().as_slice(), &[1, 2, 3]);
}

#[test]
fn record_layout() {
    let f = frame(&[0xaa, 0xbb]);
    assert_eq!(encode_record(0x0102_0304, &f, false), vec![1, 2, 3, 4, 0, 0, 0, 2, 0xaa, 0xbb]);
    assert_eq!(encode_record(5, &f, true), vec![0xaa, 0xbb]);
    assert_eq!(header_delta(17), 17);
    assert_eq!(header_delta(u64::from(u32::MAX) + 5), u32::MAX);
}

#[test]
fn header_reads() {
    assert_eq!(read_header(&[0, 0, 0, 1, 0, 0, 0]), HeaderRead::Incomplete);
    assert_eq!(read_header(&[0, 0, 0, 1, 0, 0, 0, 0]), HeaderRead::EndMarker);
    assert_eq!(
        read_header(&[0, 0, 0, 9, 0, 0, 0, 4, 1, 2]),
        HeaderRead::Record(Header { delta_ms: 9, length: 4 })
    );
    let too_long = u32_to_bytes(MAX_FRAME as u32 + 1);
    let mut h = vec![0, 0, 0, 0];
    h.extend(too_long);
    assert_eq!(read_header(&h), HeaderRead::Oversized { length: MAX_FRAME as u32 + 1 });
    assert!(payload_frame(vec![1, 2], 3).is_none());
    assert_eq!(payload_frame(vec![1, 2, 3], 3).unwrap().as_slice(), &[1, 2, 3]);
}

#[test]
fn replay_delays() {
    assert_eq!(replay_delay_ms(10, 1000), 10);
    assert_eq!(replay_delay_ms(10, 2000), 20);
    assert_eq!(replay_delay_ms(0, 2000), 2);
    assert_eq!(replay_delay_ms(0, 1000), 0);
    assert_eq!(replay_delay_ms(3, 500), 1);
    assert_eq!(replay_delay_ms(u32::MAX, u32::MAX), (u32::MAX as u64 * u32::MAX as u64) / 1000);
}

#[test]
fn operator_counts() {
    assert_eq!(Release::from_input(" 3 \n"), Release::Records(3));
    assert_eq!(Release::from_input("\n"), Release::Records(1));
    assert_eq!(Release::from_input("0"), Release::Records(1));
    assert_eq!(Release::from_input("-1"), Release::Unlimited);
    assert_eq!(Release::from_input("+2"), Release::Records(2));
    assert_eq!(Release::from_input("abc"), Release::Records(1));
    assert_eq!(Release::from_count(Some(7)), Release::Records(7));
    assert_eq!(Release::from_count(None), Release::Records(1));
    assert_eq!(Allowance::grant(Release::Records(2)).spend(), Allowance::Left(1));
    assert!(Allowance::Left(0).exhausted());
    assert!(!Allowance::Unlimited.spend().exhausted());
}

#[test]
fn timed_round_trip() {
    let recs: [(u32, &[u8]); 3] = [(5, b"one"), (40, b"two!"), (0, b"3")];
    let file = record(&recs, false);
    let seen = drive(&file, cfg(true, false, false, 1000), 3, 100, &[]);
    assert_eq!(
        seen,
        vec![
            Seen::Sleep(5),
            Seen::Published(b"one".to_vec()),
            Seen::Sleep(40),
            Seen::Published(b"two!".to_vec()),
            Seen::Sleep(0),
            Seen::Published(b"3".to_vec()),
        ]
    );
}

#[test]
fn doubled_speed() {
    let recs: [(u32, &[u8]); 3] = [(5, b"a"), (0, b"b"), (12, b"c")];
    let file = record(&recs, false);
    let seen = drive(&file, cfg(true, false, false, 2000), 3, 100, &[]);
    let sleeps: Vec<&Seen> = seen.iter().filter(|s| matches!(s, Seen::Sleep(_))).collect();
    assert_eq!(sleeps, vec![&Seen::Sleep(10), &Seen::Sleep(2), &Seen::Sleep(24)]);
}

#[test]
fn loop_wraps_without_gap() {
    let recs: [(u32, &[u8]); 2] = [(1, b"first"), (1, b"second")];
    let file = record(&recs, false);
    let seen = drive(&file, cfg(false, true, false, 1000), 5, 200, &[]);
    assert_eq!(
        seen,
        vec![
            Seen::Published(b"first".to_vec()),
            Seen::Published(b"second".to_vec()),
            Seen::Published(b"first".to_vec()),
            Seen::Published(b"second".to_vec()),
            Seen::Published(b"first".to_vec()),
        ]
    );
}

#[test]
fn end_without_loop_waits() {
    let recs: [(u32, &[u8]); 1] = [(1, b"only")];
    let file = record(&recs, false);
    let seen = drive(&file, cfg(false, false, false, 1000), 2, 20, &[]);
    assert_eq!(seen[0], Seen::Published(b"only".to_vec()));
    assert!(seen[1..].iter().all(|s| *s == Seen::Wait));
    assert!(seen.len() > 2);
}

#[test]
fn end_marker_and_truncation() {
    let mut file = record(&[(1, b"ab")], false);
    file.extend([0, 0, 0, 0, 0, 0, 0, 0]);
    let mut r = Replayer::new(cfg(false, false, false, 1000));
    let _ = r.step(Event::Bytes(file[0..8].to_vec()));
    let _ = r.step(Event::Bytes(file[8..10].to_vec()));
    assert_eq!(r.phase, Phase::Header { offset: 10 });
    match r.step(Event::Bytes(file[10..18].to_vec())) {
        Action::Wait { ms } => assert_eq!(ms, POLL_INTERVAL_MS),
        _ => panic!("expected a wait after the end marker"),
    }
    assert_eq!(r.phase, Phase::Waiting { offset: 18 });

    let mut t = Replayer::new(cfg(false, true, false, 1000));
    let _ = t.step(Event::Bytes(file[0..8].to_vec()));
    let _ = t.step(Event::Bytes(file[8..10].to_vec()));
    let _ = t.step(Event::Bytes(vec![0, 0, 0, 1, 0, 0, 0, 5]));
    match t.step(Event::Bytes(vec![1, 2])) {
        Action::ReadHeader { offset } => assert_eq!(offset, 0),
        _ => panic!("a truncated record should rewind a looping replay"),
    }
}

#[test]
fn headerless_recording_is_not_replayable() {
    let recs: [(u32, &[u8]); 2] = [(3, b"hello"), (4, b"world")];
    let file = record(&recs, true);
    assert_eq!(file, b"helloworld".to_vec());
    let seen = drive(&file, cfg(true, false, false, 1000), 2, 20, &[]);
    assert_ne!(published(&seen), vec![b"hello".to_vec(), b"world".to_vec()]);
}

#[test]
fn controlled_play_prompts() {
    let recs: [(u32, &[u8]); 4] = [(1, b"a"), (1, b"b"), (1, b"c"), (1, b"d")];
    let file = record(&recs, false);
    let seen = drive(&file, cfg(false, false, true, 1000), 4, 100, &["2", "", "-1"]);
    assert_eq!(
        seen,
        vec![
            Seen::Prompt,
            Seen::Published(b"a".to_vec()),
            Seen::Published(b"b".to_vec()),
            Seen::Prompt,
            Seen::Published(b"c".to_vec()),
            Seen::Prompt,
            Seen::Published(b"d".to_vec()),
        ]
    );
}

#[test]
fn mismatched_event_changes_nothing() {
    let mut r = Replayer::new(cfg(false, false, false, 1000));
    match r.step(Event::Elapsed) {
        Action::ReadHeader { offset } => assert_eq!(offset, 0),
        _ => panic!("expected the pending header read"),
    }
    assert_eq!(r.phase, Phase::Header { offset: 0 });
    assert_eq!(r.allowance, Allowance::Left(0));
}
