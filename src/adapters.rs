//! The transport adapters: what each one decides about addresses, frames
//! and recordings. Sockets and files are opened and driven by the caller.
use vstd::prelude::*;
use crate::codec::{encode_record, record_bytes};
use crate::config::Block;
use crate::frame::{joined, views, Frame, MAX_FRAME};
use crate::paths::{current_recording_path, date_text, replace_all, DATE_PLACEHOLDER};
use crate::pacing::Allowance;
use crate::replay::{Phase, ReplayConfig, Replayer};

verus! {

/// A host and port to bind, connect or send to.
#[derive(Debug, Clone)]
pub struct Endpoint {
    pub ip: String,
    pub port: u16,
}

fn endpoint(ip: &String, port: u16) -> (r: Endpoint)
    ensures
        r.ip@ == ip@,
        r.port == port,
{
    Endpoint { ip: ip.clone(), port }
}

/// Whether `r` are the frames a source publishes for a receive of `n`
/// bytes into `buf`: none for an empty receive, which ends the connection;
/// else non-empty frames that join to the bytes received, each but the last
/// `MAX_FRAME` bytes long.
pub open spec fn received_frames_ok(buf: Seq<u8>, n: int, r: Seq<Frame>) -> bool {
    &&& r.len() == 0 <==> n == 0
    &&& joined(views(r)) == buf.subrange(0, n)
    &&& forall|i: int| 0 <= i < r.len() ==> 0 < (#[trigger] r[i])@.len()
    &&& forall|i: int| 0 <= i < r.len() - 1 ==> (#[trigger] r[i])@.len() == MAX_FRAME
}

/// The TCP server variant: listens on the bind address and serves one
/// connection at a time.
#[derive(Debug)]
pub struct TcpServerAdapter {}

impl TcpServerAdapter {
    /// Where the server listens: the bind address.
    pub fn listen_address(&self, block: &Block) -> (r: Endpoint)
        ensures
            r.ip@ == block.bind_ip@,
            r.port == block.bind_port,
    {
        endpoint(&block.bind_ip, block.bind_port)
    }

    /// The frames for a receive of `n` bytes into `buf`.
    pub fn frames_of_receive(&self, buf: &[u8], n: usize) -> (r: Vec<Frame>)
        requires
            n <= buf@.len(),
        ensures
            received_frames_ok(buf@, n as int, r@),
    {
        Frame::from_received(buf, n)
    }
}

/// The plain TCP variant, which behaves as the server variant.
#[derive(Debug)]
pub struct TcpAdapter {}

impl TcpAdapter {
    /// Where it listens: the bind address.
    pub fn listen_address(&self, block: &Block) -> (r: Endpoint)
        ensures
            r.ip@ == block.bind_ip@,
            r.port == block.bind_port,
    {
        endpoint(&block.bind_ip, block.bind_port)
    }

    /// The frames for a receive of `n` bytes into `buf`.
    pub fn frames_of_receive(&self, buf: &[u8], n: usize) -> (r: Vec<Frame>)
        requires
            n <= buf@.len(),
        ensures
            received_frames_ok(buf@, n as int, r@),
    {
        Frame::from_received(buf, n)
    }
}

/// The TCP client variant: connects once to the source address.
#[derive(Debug)]
pub struct TcpClientAdapter {}

impl TcpClientAdapter {
    /// Where the client connects: the source address.
    pub fn connect_address(&self, block: &Block) -> (r: Endpoint)
        ensures
            r.ip@ == block.source_ip@,
            r.port == block.source_port,
    {
        endpoint(&block.source_ip, block.source_port)
    }

    /// The frames for a receive of `n` bytes into `buf`.
    pub fn frames_of_receive(&self, buf: &[u8], n: usize) -> (r: Vec<Frame>)
        requires
            n <= buf@.len(),
        ensures
            received_frames_ok(buf@, n as int, r@),
    {
        Frame::from_received(buf, n)
    }
}

/// The relay: accepts on the bind address and, for each connection, opens
/// one to the source address and copies bytes both ways.
#[derive(Debug)]
pub struct TcpProxyAdapter {}

/// The size of the chunks the relay copies.
pub const RELAY_CHUNK: usize = 4096;

impl TcpProxyAdapter {
    /// Where the relay accepts connections: the bind address.
    pub fn listen_address(&self, block: &Block) -> (r: Endpoint)
        ensures
            r.ip@ == block.bind_ip@,
            r.port == block.bind_port,
    {
        endpoint(&block.bind_ip, block.bind_port)
    }

    /// Where the relay connects for each accepted connection: the source
    /// address.
    pub fn target_address(&self, block: &Block) -> (r: Endpoint)
        ensures
            r.ip@ == block.source_ip@,
            r.port == block.source_port,
    {
        endpoint(&block.source_ip, block.source_port)
    }
}

/// The UDP multicast variant.
#[derive(Debug)]
pub struct UdpAdapter {}

impl UdpAdapter {
    /// The multicast group joined: the source address.
    pub fn group(&self, block: &Block) -> (r: String)
        ensures
            r@ == block.source_ip@,
    {
        block.source_ip.clone()
    }

    /// The interface through which the source joins the group.
    pub fn interface(&self, block: &Block) -> (r: String)
        ensures
            r@ == block.interface_ip@,
    {
        block.interface_ip.clone()
    }

    /// Where the source binds: the bind address with the source port.
    pub fn receive_address(&self, block: &Block) -> (r: Endpoint)
        ensures
            r.ip@ == block.bind_ip@,
            r.port == block.source_port,
    {
        endpoint(&block.bind_ip, block.source_port)
    }

    /// Where the sink sends: the source address.
    pub fn send_address(&self, block: &Block) -> (r: Endpoint)
        ensures
            r.ip@ == block.source_ip@,
            r.port == block.source_port,
    {
        endpoint(&block.source_ip, block.source_port)
    }

    /// The frames for a datagram of `n` bytes received into `buf`.
    pub fn frames_of_receive(&self, buf: &[u8], n: usize) -> (r: Vec<Frame>)
        requires
            n <= buf@.len(),
        ensures
            received_frames_ok(buf@, n as int, r@),
    {
        Frame::from_received(buf, n)
    }
}

/// The file variant: records frames to a file and replays recordings.
#[derive(Debug)]
pub struct FileAdapter {}

impl FileAdapter {
    /// The file to open now: the configured path with today's date for
    /// `$date`.
    pub fn path(&self, block: &Block) -> (r: String)
        ensures
            exists|date: Seq<char>|
                date_text(date) && r@ == replace_all(block.file_path@, DATE_PLACEHOLDER@, date),
    {
        current_recording_path(block.file_path.as_str())
    }

    /// The bytes to append for a frame written `delta_ms` after the last.
    pub fn record(&self, block: &Block, delta_ms: u32, f: &Frame) -> (r: Vec<u8>)
        ensures
            r@ == record_bytes(delta_ms, f@, block.no_headers),
    {
        encode_record(delta_ms, f, block.no_headers)
    }

    /// A replay of the block's recording from its start.
    pub fn replayer(&self, block: &Block) -> (r: Replayer)
        ensures
            r.wf(),
            r.config == (ReplayConfig {
                play_timed: block.play_timed,
                play_loop: block.play_loop,
                controlled_play: block.controlled_play,
                speed_milli: block.speed_milli,
            }),
            r.phase == (Phase::Header { offset: 0 }),
            r.allowance == Allowance::Left(0),
    {
        Replayer::new(block.replay_config())
    }
}

} // verus!
