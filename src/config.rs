//! Adapter configuration and its resolution against the registered adapters.
use vstd::prelude::*;
use crate::pacing::UNIT_SPEED;
use crate::replay::ReplayConfig;

verus! {

/// The transport of an adapter; `All` only selects, it is never an adapter.
#[derive(Debug, Clone, Copy, PartialEq, Eq, Hash, Structural)]
pub enum Mode {
    All,
    TcpClient,
    TcpServer,
    TcpProxy,
    File,
    Udp,
}

/// The role an adapter plays: producing frames or consuming them.
#[derive(Debug, Clone, Copy, PartialEq, Eq, Structural)]
pub enum Capability {
    Source,
    Sink,
}

/// The configuration of one adapter instance.
#[derive(Debug, Clone)]
pub struct Block {
    pub source_ip: String,
    pub source_port: u16,
    pub bind_ip: String,
    pub bind_port: u16,
    /// The recording's path; `$date` stands for the current date.
    pub file_path: String,
    pub interface_ip: String,
    pub no_headers: bool,
    pub play_timed: bool,
    pub play_loop: bool,
    pub controlled_play: bool,
    /// The replay delay multiplier, in thousandths.
    pub speed_milli: u32,
    pub mode: Mode,
}

/// The configured adapters and the modes selected on each side.
#[derive(Debug, Clone)]
pub struct Settings {
    pub inputs: Vec<Block>,
    pub outputs: Vec<Block>,
    pub from: Vec<Mode>,
    pub to: Vec<Mode>,
}

/// The address an adapter uses when none is configured.
pub fn default_ip() -> (r: String)
    ensures
        r@ == "0.0.0.0"@,
{
    String::from_str("0.0.0.0")
}

/// The port an adapter uses when none is configured.
pub fn default_port() -> (r: u16)
    ensures
        r == 0,
{
    0
}

/// The replay delay multiplier when none is configured, in thousandths.
pub fn default_speed() -> (r: u32)
    ensures
        r == UNIT_SPEED,
{
    UNIT_SPEED
}

impl Block {
    /// The replay options of this block.
    pub fn replay_config(&self) -> (r: ReplayConfig)
        ensures
            r == (ReplayConfig {
                play_timed: self.play_timed,
                play_loop: self.play_loop,
                controlled_play: self.controlled_play,
                speed_milli: self.speed_milli,
            }),
    {
        ReplayConfig {
            play_timed: self.play_timed,
            play_loop: self.play_loop,
            controlled_play: self.controlled_play,
            speed_milli: self.speed_milli,
        }
    }
}

/// Why the configuration cannot run.
#[derive(Debug, Clone, Copy, PartialEq, Eq, Structural)]
pub enum ResolveError {
    /// A selected block's mode has no adapter with the needed capability.
    MissingAdapter { mode: Mode, capability: Capability },
    /// No input adapter was selected.
    NoInputs,
    /// No output adapter was selected and no input is a relay.
    NoOutputs,
}

/// The selected blocks, each paired with its adapter: (block index,
/// registry index), in the order of the blocks.
pub struct Plan {
    pub inputs: Vec<(usize, usize)>,
    pub outputs: Vec<(usize, usize)>,
}

/// Whether a block of mode `m` is selected by `sel`.
pub open spec fn selected(sel: Seq<Mode>, m: Mode) -> bool {
    sel.contains(m) || sel.contains(Mode::All)
}

/// The first of the first `n` registry entries that offers `m` with `cap`.
pub open spec fn find_adapter(reg: Seq<(Mode, Capability)>, m: Mode, cap: Capability, n: int) -> Option<
    usize,
>
    decreases n,
{
    if n <= 0 {
        None
    } else {
        match find_adapter(reg, m, cap, n - 1) {
            Some(j) => Some(j),
            None => if reg[n - 1] == (m, cap) {
                Some((n - 1) as usize)
            } else {
                None
            },
        }
    }
}

/// The first `n` blocks resolved: the selected ones with their adapters, or
/// the mode of the first selected one that has none.
pub open spec fn resolve_prefix(
    modes: Seq<Mode>,
    sel: Seq<Mode>,
    reg: Seq<(Mode, Capability)>,
    cap: Capability,
    n: int,
) -> Result<Seq<(usize, usize)>, Mode>
    decreases n,
{
    if n <= 0 {
        Ok(Seq::empty())
    } else {
        match resolve_prefix(modes, sel, reg, cap, n - 1) {
            Err(m) => Err(m),
            Ok(prev) => if !selected(sel, modes[n - 1]) {
                Ok(prev)
            } else {
                match find_adapter(reg, modes[n - 1], cap, reg.len() as int) {
                    None => Err(modes[n - 1]),
                    Some(j) => Ok(prev.push(((n - 1) as usize, j))),
                }
            },
        }
    }
}

/// The modes of `blocks`, in order.
pub open spec fn modes_of(blocks: Seq<Block>) -> Seq<Mode> {
    blocks.map_values(|b: Block| b.mode)
}

/// All of `blocks` resolved.
pub open spec fn resolve_side(
    blocks: Seq<Block>,
    sel: Seq<Mode>,
    reg: Seq<(Mode, Capability)>,
    cap: Capability,
) -> Result<Seq<(usize, usize)>, Mode> {
    resolve_prefix(modes_of(blocks), sel, reg, cap, blocks.len() as int)
}

/// The outcome of resolving `s` against `reg`: inputs first, then outputs;
/// then at least one input, and at least one output unless an input is a
/// relay.
pub open spec fn resolution(s: Settings, reg: Seq<(Mode, Capability)>) -> Result<
    (Seq<(usize, usize)>, Seq<(usize, usize)>),
    ResolveError,
> {
    match resolve_side(s.inputs@, s.from@, reg, Capability::Source) {
        Err(m) => Err(ResolveError::MissingAdapter { mode: m, capability: Capability::Source }),
        Ok(ins) => match resolve_side(s.outputs@, s.to@, reg, Capability::Sink) {
            Err(m) => Err(ResolveError::MissingAdapter { mode: m, capability: Capability::Sink }),
            Ok(outs) => if ins.len() == 0 {
                Err(ResolveError::NoInputs)
            } else if outs.len() == 0 && !(exists|k: int|
                0 <= k < ins.len() && s.inputs@[#[trigger] ins[k].0 as int].mode == Mode::TcpProxy) {
                Err(ResolveError::NoOutputs)
            } else {
                Ok((ins, outs))
            },
        },
    }
}

/// Once found, the first matching entry stays the first one as the search
/// widens.
proof fn lemma_find_stable(reg: Seq<(Mode, Capability)>, m: Mode, cap: Capability, n: int, k: int)
    requires
        n <= k,
        find_adapter(reg, m, cap, n) is Some,
    ensures
        find_adapter(reg, m, cap, k) == find_adapter(reg, m, cap, n),
    decreases k - n,
{
    if n < k {
        lemma_find_stable(reg, m, cap, n, k - 1);
    }
}

/// Once a prefix fails, every longer prefix fails the same way.
proof fn lemma_resolve_err_stable(
    modes: Seq<Mode>,
    sel: Seq<Mode>,
    reg: Seq<(Mode, Capability)>,
    cap: Capability,
    n: int,
    k: int,
)
    requires
        n <= k,
        resolve_prefix(modes, sel, reg, cap, n) is Err,
    ensures
        resolve_prefix(modes, sel, reg, cap, k) == resolve_prefix(modes, sel, reg, cap, n),
    decreases k - n,
{
    if n < k {
        lemma_resolve_err_stable(modes, sel, reg, cap, n, k - 1);
    }
}

fn contains_mode(sel: &Vec<Mode>, m: Mode) -> (r: bool)
    ensures
        r == sel@.contains(m),
{
    let mut i: usize = 0;
    while i < sel.len()
        invariant
            i <= sel@.len(),
            forall|k: int| 0 <= k < i ==> sel@[k] != m,
        decreases sel@.len() - i,
    {
        if sel[i] == m {
            return true;
        }
        i = i + 1;
    }
    false
}

fn is_selected(sel: &Vec<Mode>, m: Mode) -> (r: bool)
    ensures
        r == selected(sel@, m),
{
    contains_mode(sel, m) || contains_mode(sel, Mode::All)
}

fn find_registered(reg: &[(Mode, Capability)], m: Mode, cap: Capability) -> (r: Option<usize>)
    ensures
        r == find_adapter(reg@, m, cap, reg@.len() as int),
{
    let mut i: usize = 0;
    while i < reg.len()
        invariant
            i <= reg@.len(),
            find_adapter(reg@, m, cap, i as int) is None,
        decreases reg@.len() - i,
    {
        let (rm, rc) = reg[i];
        if rm == m && rc == cap {
            assert(reg@[i as int] == (m, cap));
            proof {
                lemma_find_stable(reg@, m, cap, i + 1, reg@.len() as int);
            }
            return Some(i);
        }
        i = i + 1;
    }
    None
}

fn resolve_blocks(blocks: &Vec<Block>, sel: &Vec<Mode>, reg: &[(Mode, Capability)], cap: Capability) -> (r:
    Result<Vec<(usize, usize)>, Mode>)
    ensures
        match (r, resolve_side(blocks@, sel@, reg@, cap)) {
            (Ok(v), Ok(w)) => v@ == w,
            (Err(m), Err(n)) => m == n,
            _ => false,
        },
        r matches Ok(v) ==> forall|q: int| 0 <= q < v@.len() ==> #[trigger] v@[q].0 < blocks@.len(),
{
    let ghost modes = modes_of(blocks@);
    let mut out: Vec<(usize, usize)> = Vec::new();
    let mut i: usize = 0;
    while i < blocks.len()
        invariant
            i <= blocks@.len(),
            modes == modes_of(blocks@),
            resolve_prefix(modes, sel@, reg@, cap, i as int) == Ok::<Seq<(usize, usize)>, Mode>(out@),
            forall|q: int| 0 <= q < out@.len() ==> #[trigger] out@[q].0 < i,
        decreases blocks@.len() - i,
    {
        let m = blocks[i].mode;
        assert(modes[i as int] == m);
        if is_selected(sel, m) {
            match find_registered(reg, m, cap) {
                None => {
                    proof {
                        lemma_resolve_err_stable(modes, sel@, reg@, cap, i + 1, blocks@.len() as int);
                    }
                    return Err(m);
                },
                Some(j) => {
                    out.push((i, j));
                },
            }
        }
        i = i + 1;
    }
    Ok(out)
}

/// Resolves the configured blocks against the registered adapters: each
/// selected input block gets the first source adapter of its mode, each
/// selected output block the first sink adapter of its mode.
pub fn resolve(settings: &Settings, registry: &[(Mode, Capability)]) -> (r: Result<Plan, ResolveError>)
    ensures
        match (r, resolution(*settings, registry@)) {
            (Ok(p), Ok((ins, outs))) => p.inputs@ == ins && p.outputs@ == outs,
            (Err(e), Err(f)) => e == f,
            _ => false,
        },
{
    let ins = match resolve_blocks(&settings.inputs, &settings.from, registry, Capability::Source) {
        Ok(v) => v,
        Err(m) => {
            return Err(ResolveError::MissingAdapter { mode: m, capability: Capability::Source });
        },
    };
    let outs = match resolve_blocks(&settings.outputs, &settings.to, registry, Capability::Sink) {
        Ok(v) => v,
        Err(m) => {
            return Err(ResolveError::MissingAdapter { mode: m, capability: Capability::Sink });
        },
    };
    if ins.len() == 0 {
        return Err(ResolveError::NoInputs);
    }
    if outs.len() == 0 {
        let ghost res = resolve_side(settings.inputs@, settings.from@, registry@, Capability::Source);
        let mut relay = false;
        let mut k: usize = 0;
        while k < ins.len()
            invariant
                k <= ins@.len(),
                res == Ok::<Seq<(usize, usize)>, Mode>(ins@),
                forall|q: int| 0 <= q < ins@.len() ==> #[trigger] ins@[q].0 < settings.inputs@.len(),
                relay <==> exists|q: int|
                    0 <= q < k && settings.inputs@[#[trigger] ins@[q].0 as int].mode == Mode::TcpProxy,
            decreases ins@.len() - k,
        {
            if settings.inputs[ins[k].0].mode == Mode::TcpProxy {
                relay = true;
            }
            k = k + 1;
        }
        if !relay {
            return Err(ResolveError::NoOutputs);
        }
    }
    Ok(Plan { inputs: ins, outputs: outs })
}

} // verus!
