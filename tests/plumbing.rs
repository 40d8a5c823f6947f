use stream_recorder::channel::{Channel, Polled, CHANNEL_CAPACITY};
use stream_recorder::config::{
    default_ip, default_port, default_speed, resolve, Block, Capability, Mode, ResolveError, Settings,
};
use stream_recorder::frame::Frame;
use stream_recorder::paths::{current_recording_path, recording_path};

fn frame(bytes: &[u8]) -> Frame {
    Frame::new(bytes.to_vec()).ok().unwrap()
}

fn block(mode: Mode) -> Block {
    Block {
        source_ip: default_ip(),
        source_port: default_port(),
        bind_ip: default_ip(),
        bind_port: default_port(),
        file_path: String::new(),
        interface_ip: String::new(),
        no_headers: false,
        play_timed: false,
        play_loop: false,
        controlled_play: false,
        speed_milli: default_speed(),
        mode,
    }
}

fn registry() -> Vec<(Mode, Capability)> {
    vec![
        (Mode::TcpClient, Capability::Source),
        (Mode::TcpProxy, Capability::Source),
        (Mode::File, Capability::Source),
        (Mode::File, Capability::Sink),
        (Mode::Udp, Capability::Sink),
    ]
}

#[test]
fn defaults() {
    assert_eq!(default_ip(), "0.0.0.0");
    assert_eq!(default_port(), 0);
    assert_eq!(default_speed(), 1000);
}

#[test]
fn resolves_selected_blocks() {
    let s = Settings {
        inputs: vec![block(Mode::Udp), block(Mode::File)],
        outputs: vec![block(Mode::Udp), block(Mode::File), block(Mode::TcpServer)],
        from: vec![Mode::File],
        to: vec![Mode::Udp, Mode::File],
    };
    let p = resolve(&s, &registry()).ok().unwrap();
    assert_eq!(p.inputs, vec![(1, 2)]);
    assert_eq!(p.outputs, vec![(0, 4), (1, 3)]);
}

#[test]
fn wildcard_selects_all() {
    let s = Settings {
        inputs: vec![block(Mode::File), block(Mode::TcpClient)],
        outputs: vec![block(Mode::File)],
        from: vec![Mode::All],
        to: vec![Mode::All],
    };
    let p = resolve(&s, &registry()).ok().unwrap();
    assert_eq!(p.inputs, vec![(0, 2), (1, 0)]);
    assert_eq!(p.outputs, vec![(0, 3)]);
}

#[test]
fn resolution_errors() {
    let missing = Settings {
        inputs: vec![block(Mode::TcpServer)],
        outputs: vec![],
        from: vec![Mode::All],
        to: vec![],
    };
    assert_eq!(
        resolve(&missing, &registry()).err(),
        Some(ResolveError::MissingAdapter { mode: Mode::TcpServer, capability: Capability::Source })
    );
    let missing_sink = Settings {
        inputs: vec![block(Mode::File)],
        outputs: vec![block(Mode::TcpClient)],
        from: vec![Mode::File],
        to: vec![Mode::TcpClient],
    };
    assert_eq!(
        resolve(&missing_sink, &registry()).err(),
        Some(ResolveError::MissingAdapter { mode: Mode::TcpClient, capability: Capability::Sink })
    );
    let none_in = Settings {
        inputs: vec![block(Mode::File)],
        outputs: vec![block(Mode::File)],
        from: vec![Mode::Udp],
        to: vec![Mode::File],
    };
    assert_eq!(resolve(&none_in, &registry()).err(), Some(ResolveError::NoInputs));
    let none_out = Settings {
        inputs: vec![block(Mode::File)],
        outputs: vec![],
        from: vec![Mode::File],
        to: vec![Mode::All],
    };
    assert_eq!(resolve(&none_out, &registry()).err(), Some(ResolveError::NoOutputs));
}

#[test]
fn relay_needs_no_output() {
    let s = Settings {
        inputs: vec![block(Mode::TcpProxy)],
        outputs: vec![],
        from: vec![Mode::TcpProxy],
        to: vec![],
    };
    let p = resolve(&s, &registry()).ok().unwrap();
    assert_eq!(p.inputs, vec![(0, 1)]);
    assert!(p.outputs.is_empty());
}

#[test]
fn channel_keeps_order_for_every_cursor() {
    let mut c = Channel::new(CHANNEL_CAPACITY);
    let mut a = c.subscribe();
    let mut b = c.subscribe();
    assert_eq!(c.subscribers(), 2);
    for i in 0..50u8 {
        c.publish(frame(&[i, i]));
    }
    for i in 0..50u8 {
        assert_eq!(a.next().unwrap().as_slice(), &[i, i]);
    }
    for i in 0..50u8 {
        assert_eq!(b.next().unwrap().as_slice(), &[i, i]);
    }
    assert!(matches!(a.try_next(), Polled::Empty));
}

#[test]
fn late_cursor_sees_only_later_frames() {
    let mut c = Channel::new(4);
    let mut early = c.subscribe();
    c.publish(frame(b"x"));
    let mut late = c.subscribe();
    c.publish(frame(b"y"));
    assert_eq!(early.next().unwrap().as_slice(), b"x");
    assert_eq!(late.next().unwrap().as_slice(), b"y");
}

#[test]
fn channel_backpressure() {
    let mut c = Channel::new(2);
    assert_eq!(c.capacity(), 2);
    let mut r = c.subscribe();
    assert!(c.try_publish(frame(b"1")).is_ok());
    assert!(c.try_publish(frame(b"2")).is_ok());
    match c.try_publish(frame(b"3")) {
        Err(back) => assert_eq!(back.as_slice(), b"3"),
        Ok(()) => panic!("a full channel took a frame"),
    }
    match r.try_next() {
        Polled::Frame(f) => assert_eq!(f.as_slice(), b"1"),
        _ => panic!("expected the oldest frame"),
    }
    assert!(c.try_publish(frame(b"3")).is_ok());
}

#[test]
fn closed_channel_drains_then_ends() {
    let mut c = Channel::new(4);
    let mut r = c.subscribe();
    c.publish(frame(b"last"));
    drop(c);
    assert_eq!(r.next().unwrap().as_slice(), b"last");
    assert!(r.next().is_none());
    assert!(matches!(r.try_next(), Polled::Closed));
}

#[test]
fn date_in_path() {
    assert_eq!(recording_path("rec_$date.bin", "2024-01-31"), "rec_2024-01-31.bin");
    assert_eq!(recording_path("$date/$date", "d"), "d/d");
    assert_eq!(recording_path("plain.bin", "d"), "plain.bin");
    let now = current_recording_path("cap_$date.bin");
    assert!(!now.contains("$date"));
    assert!(now.starts_with("cap_") && now.ends_with(".bin"));
    assert_eq!(now.len(), "cap_.bin".len() + 10);
}
