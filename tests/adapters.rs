use stream_recorder::adapters::{
    FileAdapter, TcpAdapter, TcpClientAdapter, TcpProxyAdapter, TcpServerAdapter, UdpAdapter,
};
use stream_recorder::config::{Block, Mode};
use stream_recorder::frame::{Frame, MAX_FRAME};
use stream_recorder::pacing::Allowance;
use stream_recorder::replay::Phase;

fn block() -> Block {
    Block {
        source_ip: "239.1.2.3".to_string(),
        source_port: 9001,
        bind_ip: "127.0.0.1".to_string(),
        bind_port: 9000,
        file_path: "/tmp/rec_$date.bin".to_string(),
        interface_ip: "10.0.0.1".to_string(),
        no_headers: false,
        play_timed: true,
        play_loop: true,
        controlled_play: false,
        speed_milli: 2000,
        mode: Mode::File,
    }
}

#[test]
fn addresses_per_variant() {
    let b = block();
    let s = TcpServerAdapter {}.listen_address(&b);
    assert_eq!((s.ip.as_str(), s.port), ("127.0.0.1", 9000));
    let t = TcpAdapter {}.listen_address(&b);
    assert_eq!((t.ip.as_str(), t.port), ("127.0.0.1", 9000));
    let c = TcpClientAdapter {}.connect_address(&b);
    assert_eq!((c.ip.as_str(), c.port), ("239.1.2.3", 9001));
    let p = TcpProxyAdapter {};
    let (l, g) = (p.listen_address(&b), p.target_address(&b));
    assert_eq!((l.ip.as_str(), l.port, g.ip.as_str(), g.port), ("127.0.0.1", 9000, "239.1.2.3", 9001));
    let u = UdpAdapter {};
    assert_eq!(u.group(&b), "239.1.2.3");
    assert_eq!(u.interface(&b), "10.0.0.1");
    let r = u.receive_address(&b);
    assert_eq!((r.ip.as_str(), r.port), ("127.0.0.1", 9001));
    let d = u.send_address(&b);
    assert_eq!((d.ip.as_str(), d.port), ("239.1.2.3", 9001));
}

#[test]
fn receives_become_frames() {
    let buf = vec![5u8; MAX_FRAME + 1];
    assert!(TcpServerAdapter {}.frames_of_receive(&buf, 0).is_empty());
    assert_eq!(TcpClientAdapter {}.frames_of_receive(&buf, 2)[0].as_slice(), &[5, 5]);
    let d = UdpAdapter {}.frames_of_receive(&buf, MAX_FRAME);
    assert_eq!((d.len(), d[0].len()), (1, MAX_FRAME));
    let t = TcpAdapter {}.frames_of_receive(&buf, MAX_FRAME + 1);
    assert_eq!((t.len(), t[0].len(), t[1].as_slice()), (2, MAX_FRAME, &[5u8][..]));
}

#[test]
fn file_adapter_records_and_replays() {
    let f = FileAdapter {};
    let mut b = block();
    let fr = Frame::new(vec![1, 2, 3]).ok().unwrap();
    assert_eq!(f.record(&b, 7, &fr), vec![0, 0, 0, 7, 0, 0, 0, 3, 1, 2, 3]);
    b.no_headers = true;
    assert_eq!(f.record(&b, 7, &fr), vec![1, 2, 3]);
    let path = f.path(&b);
    assert!(path.starts_with("/tmp/rec_") && !path.contains("$date"));
    let r = f.replayer(&b);
    assert!(r.config.play_timed && r.config.play_loop && !r.config.controlled_play);
    assert_eq!(r.config.speed_milli, 2000);
    assert_eq!(r.phase, Phase::Header { offset: 0 });
    assert_eq!(r.allowance, Allowance::Left(0));
}
