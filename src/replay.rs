//! The decisions of the file source's replay loop, as a state machine. The
//! driver performs each action (a read, a sleep, a prompt, a publish) and
//! hands back what came of it; the machine decides what happens next.
use vstd::prelude::*;
use crate::codec::{
    encode_records, header_at, lemma_header_of_record, read_header, record_bytes, replayable,
    Header, HeaderRead, Record, HEADER_LEN,
};
use crate::frame::{Frame, MAX_FRAME};
use crate::pacing::{granted, replay_delay_ms, scaled_delay, spend_one, Allowance, Release};

verus! {

/// How long replay waits for a recording to grow before reading again.
pub const POLL_INTERVAL_MS: u64 = 2000;

/// The replay options of a file source.
#[derive(Debug, Clone, Copy, PartialEq, Eq, Structural)]
pub struct ReplayConfig {
    /// Sleep the recorded delay before each record.
    pub play_timed: bool,
    /// Start over from the beginning at the end of the recording.
    pub play_loop: bool,
    /// Ask the operator how many records to let through.
    pub controlled_play: bool,
    /// The delay multiplier, in thousandths.
    pub speed_milli: u32,
}

/// Where replay stands.
#[derive(Debug, Clone, Copy, PartialEq, Eq, Structural)]
pub enum Phase {
    /// Reading the header of the record at `offset`.
    Header { offset: u64 },
    /// Waiting for the recording to grow, then reading the header at `offset`.
    Waiting { offset: u64 },
    /// Sleeping `delay_ms` before the record at `offset`.
    Pacing { offset: u64, length: u32, delay_ms: u64 },
    /// Asking the operator before the record at `offset`.
    Prompting { offset: u64, length: u32 },
    /// Reading the `length` payload bytes of the record at `offset`.
    Payload { offset: u64, length: u32 },
}

/// What the driver does next.
pub enum Action {
    /// Read up to `HEADER_LEN` bytes at `offset` and report them.
    ReadHeader { offset: u64 },
    /// Sleep `ms` while the recording may grow, then report the time passed.
    Wait { ms: u64 },
    /// Sleep `ms` to keep the recorded pace, then report the time passed.
    Sleep { ms: u64 },
    /// Ask the operator for a count and report the release.
    Prompt,
    /// Read `length` bytes at `offset` and report them, however few.
    ReadPayload { offset: u64, length: u32 },
    /// Publish this frame; the next action is `pending`.
    Publish(Frame),
}

/// What came of the last action.
pub enum Event {
    /// The bytes a read returned.
    Bytes(Vec<u8>),
    /// A sleep or a wait ended.
    Elapsed,
    /// The operator's answer.
    Released(Release),
}

/// What an event says, as mathematical values.
pub enum Observed {
    /// The bytes a read returned.
    Bytes(Seq<u8>),
    /// A sleep or a wait ended.
    Elapsed,
    /// The operator's answer.
    Released(Release),
}

/// What `e` says.
pub open spec fn observed(e: &Event) -> Observed {
    match e {
        Event::Bytes(b) => Observed::Bytes(b@),
        Event::Elapsed => Observed::Elapsed,
        Event::Released(r) => Observed::Released(*r),
    }
}

/// The action that a phase waits on.
pub open spec fn action_of(p: Phase) -> Action {
    match p {
        Phase::Header { offset } => Action::ReadHeader { offset },
        Phase::Waiting { .. } => Action::Wait { ms: POLL_INTERVAL_MS },
        Phase::Pacing { delay_ms, .. } => Action::Sleep { ms: delay_ms },
        Phase::Prompting { .. } => Action::Prompt,
        Phase::Payload { offset, length } => Action::ReadPayload {
            offset: (offset + HEADER_LEN) as u64,
            length,
        },
    }
}

/// The state of a replay.
pub struct Replayer {
    pub config: ReplayConfig,
    pub phase: Phase,
    pub allowance: Allowance,
}

/// Where to go when no complete record stands at `offset`: back to the
/// start when looping over a recording that has records before `offset`,
/// else wait for the recording to grow and read at `offset` again.
pub open spec fn at_end(c: ReplayConfig, offset: u64) -> Phase {
    if c.play_loop && offset > 0 {
        Phase::Header { offset: 0 }
    } else {
        Phase::Waiting { offset }
    }
}

/// Where to go after the end marker at `offset`: as at the end when
/// looping, else wait for the recording to grow past the marker.
pub open spec fn at_marker(c: ReplayConfig, offset: u64) -> Phase {
    if c.play_loop || offset + HEADER_LEN > u64::MAX {
        at_end(c, offset)
    } else {
        Phase::Waiting { offset: (offset + HEADER_LEN) as u64 }
    }
}

/// The step before reading a payload: ask the operator when controlled
/// replay has nothing left to let through, else spend one record.
pub open spec fn gate(c: ReplayConfig, a: Allowance, offset: u64, length: u32) -> (Phase, Allowance) {
    if !c.controlled_play {
        (Phase::Payload { offset, length }, a)
    } else if a == Allowance::Left(0) {
        (Phase::Prompting { offset, length }, a)
    } else {
        (Phase::Payload { offset, length }, spend_one(a))
    }
}

/// The step after the header `h` at `offset`.
pub open spec fn after_header(c: ReplayConfig, a: Allowance, offset: u64, h: Header) -> (Phase, Allowance) {
    if offset + HEADER_LEN + h.length > u64::MAX {
        (at_end(c, offset), a)
    } else if c.play_timed {
        (
            Phase::Pacing {
                offset,
                length: h.length,
                delay_ms: scaled_delay(h.delta_ms, c.speed_milli) as u64,
            },
            a,
        )
    } else {
        gate(c, a, offset, h.length)
    }
}

/// Whether `e` completes the payload that `s` waits for.
pub open spec fn completes_payload(s: Replayer, e: Observed) -> bool {
    &&& s.phase matches Phase::Payload { length, .. }
    &&& e matches Observed::Bytes(b)
    &&& b.len() == length
}

/// The phase and allowance after event `e` in state `s`. An event that the
/// phase does not wait on changes nothing.
pub open spec fn next_state(s: Replayer, e: Observed) -> (Phase, Allowance) {
    let c = s.config;
    let a = s.allowance;
    match (s.phase, e) {
        (Phase::Header { offset }, Observed::Bytes(b)) => match header_at(b) {
            HeaderRead::Record(h) => after_header(c, a, offset, h),
            HeaderRead::EndMarker => (at_marker(c, offset), a),
            _ => (at_end(c, offset), a),
        },
        (Phase::Waiting { offset }, Observed::Elapsed) => (Phase::Header { offset }, a),
        (Phase::Pacing { offset, length, .. }, Observed::Elapsed) => gate(c, a, offset, length),
        (Phase::Prompting { offset, length }, Observed::Released(r)) => (
            Phase::Payload { offset, length },
            spend_one(granted(r)),
        ),
        (Phase::Payload { offset, length }, Observed::Bytes(b)) => if b.len() == length {
            (Phase::Header { offset: (offset + HEADER_LEN + length) as u64 }, a)
        } else {
            (at_end(c, offset), a)
        },
        _ => (s.phase, a),
    }
}

/// Whether the phase's offsets fit the file positions it leads to.
pub open spec fn phase_fits(p: Phase) -> bool {
    match p {
        Phase::Pacing { offset, length, .. } => offset + HEADER_LEN + length <= u64::MAX
            && length <= MAX_FRAME,
        Phase::Prompting { offset, length } => offset + HEADER_LEN + length <= u64::MAX
            && length <= MAX_FRAME,
        Phase::Payload { offset, length } => offset + HEADER_LEN + length <= u64::MAX
            && length <= MAX_FRAME,
        _ => true,
    }
}

/// Where record `i` of `recs` starts in a recording made with headers.
pub open spec fn record_offset(recs: Seq<Record>, i: int) -> int {
    encode_records(recs.take(i), false).len() as int
}

/// A recording of `a` followed by `b` is the recording of `a` followed by
/// the recording of `b`.
pub proof fn lemma_encode_append(a: Seq<Record>, b: Seq<Record>, no_headers: bool)
    ensures
        encode_records(a + b, no_headers) == encode_records(a, no_headers) + encode_records(b, no_headers),
    decreases a.len(),
{
    if a.len() == 0 {
        assert(a + b =~= b);
        assert(encode_records(a, no_headers) =~= Seq::<u8>::empty());
        assert(Seq::<u8>::empty() + encode_records(b, no_headers) =~= encode_records(b, no_headers));
    } else {
        assert((a + b).skip(1) =~= a.skip(1) + b);
        assert((a + b)[0] == a[0]);
        lemma_encode_append(a.skip(1), b, no_headers);
        assert(encode_records(a + b, no_headers) =~= encode_records(a, no_headers) + encode_records(b, no_headers));
    }
}

/// The recording from the start of record `i` on is the recording of the
/// records from `i` on.
proof fn lemma_record_suffix(recs: Seq<Record>, i: int)
    requires
        0 <= i <= recs.len(),
    ensures
        encode_records(recs, false).skip(record_offset(recs, i)) == encode_records(recs.skip(i), false),
        0 <= record_offset(recs, i) <= encode_records(recs, false).len(),
{
    assert(recs.take(i) + recs.skip(i) =~= recs);
    lemma_encode_append(recs.take(i), recs.skip(i), false);
    assert(encode_records(recs, false).skip(record_offset(recs, i)) =~= encode_records(recs.skip(i), false));
}

/// Record `i` of a recording made with headers: its header reads back as
/// its delay and length, its payload follows the header, and record `i + 1`
/// starts right after it.
proof fn lemma_record_layout(recs: Seq<Record>, i: int)
    requires
        forall|j: int| 0 <= j < recs.len() ==> replayable(#[trigger] recs[j]),
        0 <= i < recs.len(),
    ensures
        ({
            let file = encode_records(recs, false);
            let o = record_offset(recs, i);
            let length = recs[i].1.len();
            &&& 0 <= o
            &&& o + HEADER_LEN + length == record_offset(recs, i + 1)
            &&& record_offset(recs, i + 1) <= file.len()
            &&& header_at(file.subrange(o, o + HEADER_LEN)) == HeaderRead::Record(
                Header { delta_ms: recs[i].0, length: length as u32 },
            )
            &&& file.subrange(o + HEADER_LEN, o + HEADER_LEN + length) == recs[i].1
        }),
{
    let file = encode_records(recs, false);
    let o = record_offset(recs, i);
    let (d, p) = recs[i];
    assert(replayable(recs[i]));
    lemma_record_suffix(recs, i);
    let rest = recs.skip(i);
    assert(rest[0] == recs[i]);
    let after = encode_records(rest.skip(1), false);
    assert(file.skip(o) == record_bytes(d, p, false) + after);
    lemma_header_of_record(d, p, after);
    let hb = file.subrange(o, o + HEADER_LEN);
    let whole = record_bytes(d, p, false) + after;
    assert(hb.subrange(0, 4) =~= whole.subrange(0, 4));
    assert(hb.subrange(4, 8) =~= whole.subrange(4, 8));
    assert(header_at(hb) == HeaderRead::Record(Header { delta_ms: d, length: p.len() as u32 }));
    assert(file.subrange(o + HEADER_LEN, o + HEADER_LEN + p.len()) =~= whole.subrange(
        HEADER_LEN as int,
        HEADER_LEN + p.len(),
    ));
    assert(whole.subrange(HEADER_LEN as int, HEADER_LEN + p.len()) =~= p);
    assert(recs.take(i + 1) =~= recs.take(i) + seq![recs[i]]);
    lemma_encode_append(recs.take(i), seq![recs[i]], false);
    let one = seq![recs[i]];
    assert(one.skip(1) =~= Seq::<Record>::empty());
    assert(encode_records(one.skip(1), false) =~= Seq::<u8>::empty());
    assert(encode_records(one, false) == record_bytes(d, p, false) + encode_records(one.skip(1), false));
    assert(encode_records(one, false) =~= record_bytes(d, p, false));
    lemma_record_suffix(recs, i + 1);
}

/// What a read of up to `len` bytes at `offset` returns from `file`.
pub open spec fn read_at(file: Seq<u8>, offset: int, len: int) -> Seq<u8> {
    let start = if offset < file.len() { offset } else { file.len() as int };
    let end = if offset + len < file.len() { offset + len } else { file.len() as int };
    file.subrange(start, end)
}

/// What a driver reports outside the machine.
pub enum Emitted {
    /// It slept this long to keep the recorded pace.
    Slept(u64),
    /// It published this payload.
    Published(Seq<u8>),
}

/// The state after `e` in `s`.
pub open spec fn advance(s: Replayer, e: Observed) -> Replayer {
    Replayer { config: s.config, phase: next_state(s, e).0, allowance: next_state(s, e).1 }
}

/// The first `fuel` steps of a driver that answers every read from a
/// recording `file` that no writer changes: the sleeps it makes to keep
/// pace and the payloads it publishes, in order. It stops at a prompt.
pub open spec fn driven(s: Replayer, file: Seq<u8>, fuel: nat) -> Seq<Emitted>
    decreases fuel,
{
    if fuel == 0 {
        Seq::empty()
    } else {
        match s.phase {
            Phase::Header { offset } => driven(
                advance(s, Observed::Bytes(read_at(file, offset as int, HEADER_LEN as int))),
                file,
                (fuel - 1) as nat,
            ),
            Phase::Waiting { .. } => driven(advance(s, Observed::Elapsed), file, (fuel - 1) as nat),
            Phase::Pacing { delay_ms, .. } => seq![Emitted::Slept(delay_ms)] + driven(
                advance(s, Observed::Elapsed),
                file,
                (fuel - 1) as nat,
            ),
            Phase::Prompting { .. } => Seq::empty(),
            Phase::Payload { offset, length } => {
                let b = read_at(file, offset + HEADER_LEN, length as int);
                let rest = driven(advance(s, Observed::Bytes(b)), file, (fuel - 1) as nat);
                if b.len() == length {
                    seq![Emitted::Published(b)] + rest
                } else {
                    rest
                }
            },
        }
    }
}

/// What replaying `recs` should report: for each record in order, the
/// scaled sleep when replay is timed, then the payload.
pub open spec fn expected_trace(c: ReplayConfig, recs: Seq<Record>) -> Seq<Emitted>
    decreases recs.len(),
{
    if recs.len() == 0 {
        Seq::empty()
    } else {
        let pace = if c.play_timed {
            seq![Emitted::Slept(scaled_delay(recs[0].0, c.speed_milli) as u64)]
        } else {
            Seq::empty()
        };
        pace + seq![Emitted::Published(recs[0].1)] + expected_trace(c, recs.skip(1))
    }
}

/// The driver steps that one record takes.
pub open spec fn steps_per_record(c: ReplayConfig) -> nat {
    if c.play_timed { 3 } else { 2 }
}

/// `t` repeated `n` times.
pub open spec fn repeated(t: Seq<Emitted>, n: nat) -> Seq<Emitted>
    decreases n,
{
    if n == 0 {
        Seq::empty()
    } else {
        t + repeated(t, (n - 1) as nat)
    }
}

/// The conditions of a whole replay: uncontrolled, over a recording made
/// with headers whose payloads are neither empty nor oversized and whose
/// offsets fit in a file position.
pub open spec fn replays_whole(c: ReplayConfig, recs: Seq<Record>) -> bool {
    &&& forall|j: int| 0 <= j < recs.len() ==> replayable(#[trigger] recs[j])
    &&& !c.controlled_play
    &&& encode_records(recs, false).len() <= u64::MAX
}

/// From the header of record `i`, the driver reports the rest of the
/// recording, then carries on from its end.
proof fn lemma_driven_from(c: ReplayConfig, a: Allowance, recs: Seq<Record>, i: int, rest: nat)
    requires
        replays_whole(c, recs),
        0 <= i <= recs.len(),
    ensures
        ({
            let file = encode_records(recs, false);
            let start = Replayer { config: c, phase: Phase::Header { offset: record_offset(recs, i) as u64 }, allowance: a };
            let end = Replayer { config: c, phase: Phase::Header { offset: file.len() as u64 }, allowance: a };
            driven(start, file, steps_per_record(c) * (recs.len() - i) as nat + rest)
                == expected_trace(c, recs.skip(i)) + driven(end, file, rest)
        }),
    decreases recs.len() - i,
{
    let file = encode_records(recs, false);
    let k = recs.len() as int;
    let per = steps_per_record(c);
    let end = Replayer { config: c, phase: Phase::Header { offset: file.len() as u64 }, allowance: a };
    if i == k {
        assert(recs.take(k) =~= recs);
        assert(recs.skip(k) =~= Seq::<Record>::empty());
        assert(expected_trace(c, recs.skip(k)) + driven(end, file, rest) =~= driven(end, file, rest));
        assert(per * (recs.len() - i) as nat + rest == rest);
    } else {
        lemma_record_layout(recs, i);
        lemma_driven_from(c, a, recs, i + 1, rest);
        let o = record_offset(recs, i);
        let (d, p) = recs[i];
        let length = p.len();
        let h = Header { delta_ms: d, length: length as u32 };
        let fuel = per * (recs.len() - i) as nat + rest;
        let after = per * (recs.len() - (i + 1)) as nat + rest;
        assert(fuel == after + per) by (nonlinear_arith)
            requires
                fuel == per * (recs.len() - i) as nat + rest,
                after == per * (recs.len() - (i + 1)) as nat + rest,
                i < recs.len(),
        ;
        let s0 = Replayer { config: c, phase: Phase::Header { offset: o as u64 }, allowance: a };
        let hb = read_at(file, o, HEADER_LEN as int);
        assert(hb == file.subrange(o, o + HEADER_LEN));
        assert(header_at(hb) == HeaderRead::Record(h));
        let loading = Replayer { config: c, phase: Phase::Payload { offset: o as u64, length: length as u32 }, allowance: a };
        let b = read_at(file, o + HEADER_LEN, length as int);
        assert(b == p);
        let next = Replayer { config: c, phase: Phase::Header { offset: record_offset(recs, i + 1) as u64 }, allowance: a };
        assert(advance(loading, Observed::Bytes(b)) == next);
        assert(driven(loading, file, (after + 1) as nat) == seq![Emitted::Published(p)] + driven(next, file, after));
        let tail = expected_trace(c, recs.skip(i + 1)) + driven(end, file, rest);
        assert(recs.skip(i).skip(1) =~= recs.skip(i + 1));
        assert(recs.skip(i)[0] == recs[i]);
        if c.play_timed {
            let delay = scaled_delay(d, c.speed_milli) as u64;
            let pacing = Replayer {
                config: c,
                phase: Phase::Pacing { offset: o as u64, length: length as u32, delay_ms: delay },
                allowance: a,
            };
            assert(advance(s0, Observed::Bytes(hb)) == pacing);
            assert(advance(pacing, Observed::Elapsed) == loading);
            assert(driven(pacing, file, (after + 2) as nat) == seq![Emitted::Slept(delay)] + driven(loading, file, (after + 1) as nat));
            assert(driven(s0, file, fuel) == driven(pacing, file, (after + 2) as nat));
            assert(driven(s0, file, fuel) =~= expected_trace(c, recs.skip(i)) + driven(end, file, rest));
        } else {
            assert(advance(s0, Observed::Bytes(hb)) == loading);
            assert(driven(s0, file, fuel) == driven(loading, file, (after + 1) as nat));
            assert(driven(s0, file, fuel) =~= expected_trace(c, recs.skip(i)) + driven(end, file, rest));
        }
    }
}

/// Without looping, a driver at the end of an unchanging recording only
/// waits: it reports nothing more.
proof fn lemma_idle_at_end(c: ReplayConfig, a: Allowance, file: Seq<u8>, fuel: nat)
    requires
        !c.play_loop,
        file.len() <= u64::MAX,
    ensures
        driven(Replayer { config: c, phase: Phase::Header { offset: file.len() as u64 }, allowance: a }, file, fuel)
            == Seq::<Emitted>::empty(),
    decreases fuel,
{
    let end = Replayer { config: c, phase: Phase::Header { offset: file.len() as u64 }, allowance: a };
    let waiting = Replayer { config: c, phase: Phase::Waiting { offset: file.len() as u64 }, allowance: a };
    assert(read_at(file, file.len() as int, HEADER_LEN as int) =~= Seq::<u8>::empty());
    assert(header_at(Seq::<u8>::empty()) == HeaderRead::Incomplete);
    if fuel >= 2 {
        assert(advance(end, Observed::Bytes(Seq::<u8>::empty())) == waiting);
        assert(advance(waiting, Observed::Elapsed) == end);
        lemma_idle_at_end(c, a, file, (fuel - 2) as nat);
        assert(driven(end, file, fuel) == driven(waiting, file, (fuel - 1) as nat));
    } else if fuel == 1 {
        assert(driven(waiting, file, 0) == Seq::<Emitted>::empty());
    }
}

/// Uncontrolled replay of a recording made with headers, without looping,
/// reports exactly the recording: each record's scaled delay when timed,
/// then its payload, in order; after the last record nothing more comes,
/// however long the driver goes on.
pub proof fn lemma_replay_whole_recording(c: ReplayConfig, a: Allowance, recs: Seq<Record>, extra: nat)
    requires
        replays_whole(c, recs),
        !c.play_loop,
    ensures
        driven(
            Replayer { config: c, phase: Phase::Header { offset: 0 }, allowance: a },
            encode_records(recs, false),
            steps_per_record(c) * recs.len() + extra,
        ) == expected_trace(c, recs),
{
    let file = encode_records(recs, false);
    lemma_driven_from(c, a, recs, 0, extra);
    assert(recs.take(0) =~= Seq::<Record>::empty());
    assert(recs.skip(0) =~= recs);
    lemma_idle_at_end(c, a, file, extra);
    assert(expected_trace(c, recs) + Seq::<Emitted>::empty() =~= expected_trace(c, recs));
}

/// Looping replay of a non-empty recording made with headers reports the
/// recording over and over: the last record is followed at once by the
/// first, with nothing skipped or repeated at the boundary.
pub proof fn lemma_loop_repeats(c: ReplayConfig, a: Allowance, recs: Seq<Record>, cycles: nat)
    requires
        replays_whole(c, recs),
        c.play_loop,
        recs.len() > 0,
    ensures
        driven(
            Replayer { config: c, phase: Phase::Header { offset: 0 }, allowance: a },
            encode_records(recs, false),
            cycles * (steps_per_record(c) * recs.len() + 1),
        ) == repeated(expected_trace(c, recs), cycles),
    decreases cycles,
{
    let file = encode_records(recs, false);
    let start = Replayer { config: c, phase: Phase::Header { offset: 0 }, allowance: a };
    let end = Replayer { config: c, phase: Phase::Header { offset: file.len() as u64 }, allowance: a };
    let lap = steps_per_record(c) * recs.len() + 1;
    assert(recs.take(0) =~= Seq::<Record>::empty());
    if cycles == 0 {
        assert(cycles * lap == 0) by (nonlinear_arith)
            requires
                cycles == 0,
        ;
    } else {
        let later = ((cycles - 1) * lap) as nat;
        assert(cycles * lap == steps_per_record(c) * recs.len() + 1 + later) by (nonlinear_arith)
            requires
                lap == steps_per_record(c) * recs.len() + 1,
                later == (cycles - 1) * lap,
                cycles >= 1,
        ;
        lemma_loop_repeats(c, a, recs, (cycles - 1) as nat);
        lemma_driven_from(c, a, recs, 0, (later + 1) as nat);
        assert(recs.skip(0) =~= recs);
        assert(replayable(recs[0]));
        assert(file.len() > 0) by {
            lemma_record_layout(recs, 0);
        }
        assert(read_at(file, file.len() as int, HEADER_LEN as int) =~= Seq::<u8>::empty());
        assert(header_at(Seq::<u8>::empty()) == HeaderRead::Incomplete);
        assert(advance(end, Observed::Bytes(Seq::<u8>::empty())) == start);
        assert(driven(end, file, (later + 1) as nat) == driven(start, file, later));
    }
}

impl Replayer {
    /// Whether the state is one that replay can reach.
    pub open spec fn wf(&self) -> bool {
        phase_fits(self.phase)
    }

    /// A replay that starts at the beginning of a recording, with nothing
    /// released yet.
    pub fn new(config: ReplayConfig) -> (r: Replayer)
        ensures
            r.wf(),
            r.config == config,
            r.phase == (Phase::Header { offset: 0 }),
            r.allowance == Allowance::Left(0),
    {
        Replayer { config, phase: Phase::Header { offset: 0 }, allowance: Allowance::Left(0) }
    }

    /// The action the current phase waits on.
    pub fn pending(&self) -> (r: Action)
        requires
            self.wf(),
        ensures
            r == action_of(self.phase),
    {
        match self.phase {
            Phase::Header { offset } => Action::ReadHeader { offset },
            Phase::Waiting { .. } => Action::Wait { ms: POLL_INTERVAL_MS },
            Phase::Pacing { delay_ms, .. } => Action::Sleep { ms: delay_ms },
            Phase::Prompting { .. } => Action::Prompt,
            Phase::Payload { offset, length } => Action::ReadPayload {
                offset: offset + HEADER_LEN as u64,
                length,
            },
        }
    }

    fn end_phase(&self, offset: u64) -> (p: Phase)
        ensures
            p == at_end(self.config, offset),
    {
        if self.config.play_loop && offset > 0 {
            Phase::Header { offset: 0 }
        } else {
            Phase::Waiting { offset }
        }
    }

    fn gated(&self, offset: u64, length: u32) -> (r: (Phase, Allowance))
        ensures
            r == gate(self.config, self.allowance, offset, length),
    {
        if !self.config.controlled_play {
            (Phase::Payload { offset, length }, self.allowance)
        } else if self.allowance.exhausted() {
            (Phase::Prompting { offset, length }, self.allowance)
        } else {
            (Phase::Payload { offset, length }, self.allowance.spend())
        }
    }

    /// Takes in what came of the last action and returns the next one: a
    /// completed payload is published, anything else yields the action of
    /// the new phase.
    pub fn step(&mut self, e: Event) -> (r: Action)
        requires
            old(self).wf(),
        ensures
            final(self).wf(),
            final(self).config == old(self).config,
            (final(self).phase, final(self).allowance) == next_state(*old(self), observed(&e)),
            completes_payload(*old(self), observed(&e)) ==> (r matches Action::Publish(f)
                && e matches Event::Bytes(b) && f@ == b@),
            !completes_payload(*old(self), observed(&e)) ==> r == action_of(final(self).phase),
    {
        let c = self.config;
        let next: (Phase, Allowance) = match (self.phase, &e) {
            (Phase::Header { offset }, Event::Bytes(b)) => match read_header(b.as_slice()) {
                HeaderRead::Record(h) => {
                    if offset > u64::MAX - HEADER_LEN as u64 - h.length as u64 {
                        (self.end_phase(offset), self.allowance)
                    } else if c.play_timed {
                        (
                            Phase::Pacing {
                                offset,
                                length: h.length,
                                delay_ms: replay_delay_ms(h.delta_ms, c.speed_milli),
                            },
                            self.allowance,
                        )
                    } else {
                        self.gated(offset, h.length)
                    }
                },
                HeaderRead::EndMarker => {
                    if c.play_loop || offset > u64::MAX - HEADER_LEN as u64 {
                        (self.end_phase(offset), self.allowance)
                    } else {
                        (Phase::Waiting { offset: offset + HEADER_LEN as u64 }, self.allowance)
                    }
                },
                _ => (self.end_phase(offset), self.allowance),
            },
            (Phase::Waiting { offset }, Event::Elapsed) => (Phase::Header { offset }, self.allowance),
            (Phase::Pacing { offset, length, .. }, Event::Elapsed) => self.gated(offset, length),
            (Phase::Prompting { offset, length }, Event::Released(r)) => (
                Phase::Payload { offset, length },
                Allowance::grant(*r).spend(),
            ),
            (Phase::Payload { offset, length }, Event::Bytes(b)) => {
                if b.len() == length as usize {
                    (Phase::Header { offset: offset + HEADER_LEN as u64 + length as u64 }, self.allowance)
                } else {
                    (self.end_phase(offset), self.allowance)
                }
            },
            _ => (self.phase, self.allowance),
        };
        let published = match (self.phase, e) {
            (Phase::Payload { length, .. }, Event::Bytes(b)) => {
                if b.len() == length as usize {
                    match Frame::new(b) {
                        Ok(f) => Some(f),
                        Err(_) => None,
                    }
                } else {
                    None
                }
            },
            _ => None,
        };
        self.phase = next.0;
        self.allowance = next.1;
        match published {
            Some(f) => Action::Publish(f),
            None => self.pending(),
        }
    }
}

} // verus!
