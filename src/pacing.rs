//! Replay pacing and operator-controlled stepping.
use vstd::prelude::*;

verus! {

/// A speed multiplier of one, in thousandths.
pub const UNIT_SPEED: u32 = 1000;

/// How long replay sleeps before a record recorded `delta_ms` after the
/// previous one, with the speed multiplier given in thousandths. Above a
/// multiplier of one, the delay is first raised to at least 1 ms so that
/// scaling never yields a zero sleep.
pub open spec fn scaled_delay(delta_ms: u32, speed_milli: u32) -> int {
    let effective: int = if speed_milli > UNIT_SPEED && delta_ms == 0 { 1 } else { delta_ms as int };
    effective * speed_milli / UNIT_SPEED as int
}

/// The sleep before replaying a record, in milliseconds.
pub fn replay_delay_ms(delta_ms: u32, speed_milli: u32) -> (r: u64)
    ensures
        r == scaled_delay(delta_ms, speed_milli),
{
    let effective: u64 = if speed_milli > UNIT_SPEED && delta_ms == 0 {
        1
    } else {
        delta_ms as u64
    };
    assert(effective * speed_milli <= u32::MAX as int * u32::MAX as int) by (nonlinear_arith)
        requires
            effective <= u32::MAX,
    ;
    effective * speed_milli as u64 / UNIT_SPEED as u64
}

/// At a multiplier of one, replay sleeps exactly the recorded delay.
pub proof fn lemma_unit_speed_keeps_delay(delta_ms: u32)
    ensures
        scaled_delay(delta_ms, UNIT_SPEED) == delta_ms,
{
}

/// At a multiplier of two (2000 thousandths), replay sleeps twice the recorded delay, a zero
/// delay counting as 1 ms; above a multiplier of one no sleep is zero.
pub proof fn lemma_speed_scaling(delta_ms: u32, speed_milli: u32)
    ensures
        scaled_delay(delta_ms, 2000) == 2 * (if delta_ms == 0 { 1 } else { delta_ms as int }),
        speed_milli > UNIT_SPEED ==> scaled_delay(delta_ms, speed_milli) >= 1,
{
    let e: int = if delta_ms == 0 { 1 } else { delta_ms as int };
    assert(e * 2000 / 1000 == 2 * e) by (nonlinear_arith)
        requires
            e >= 1,
    ;
    if speed_milli > UNIT_SPEED {
        let s = speed_milli as int;
        assert(e * s / 1000 >= 1) by (nonlinear_arith)
            requires
                e >= 1,
                s > 1000,
        ;
    }
}

/// How many records an operator lets through at a prompt.
#[derive(Debug, Clone, Copy, PartialEq, Eq, Structural)]
pub enum Release {
    /// This many records, at least one.
    Records(u64),
    /// Every record from now on.
    Unlimited,
}

/// The release an operator's count asks for: no number, or zero, releases
/// one record; a negative number releases all of them.
pub open spec fn release_of(count: Option<int>) -> Release {
    match count {
        None => Release::Records(1),
        Some(n) => if n == 0 {
            Release::Records(1)
        } else if n > 0 {
            Release::Records(n as u64)
        } else {
            Release::Unlimited
        },
    }
}

/// The value of a string of decimal digits.
pub open spec fn digits_value(s: Seq<char>) -> int
    decreases s.len(),
{
    if s.len() == 0 {
        0
    } else {
        digits_value(s.drop_last()) * 10 + (s.last() as int - '0' as int)
    }
}

/// The `i64` that a text spells in decimal, with an optional sign: `None`
/// for an empty text, a character other than a digit, or a value out of
/// range.
pub open spec fn decimal_i64(s: Seq<char>) -> Option<int> {
    let negative = s.len() > 0 && s[0] == '-';
    let digits = if s.len() > 0 && (s[0] == '-' || s[0] == '+') { s.skip(1) } else { s };
    let magnitude = digits_value(digits);
    let value = if negative { -magnitude } else { magnitude };
    if digits.len() > 0 && (forall|i: int| 0 <= i < digits.len() ==> '0' <= #[trigger] digits[i] <= '9')
        && i64::MIN <= value <= i64::MAX {
        Some(value)
    } else {
        None
    }
}

/// Whether `c` has the Unicode White_Space property.
pub open spec fn is_white_space(c: char) -> bool {
    let u = c as u32;
    ||| 0x9 <= u <= 0xd
    ||| u == 0x20
    ||| u == 0x85
    ||| u == 0xa0
    ||| u == 0x1680
    ||| 0x2000 <= u <= 0x200a
    ||| u == 0x2028
    ||| u == 0x2029
    ||| u == 0x202f
    ||| u == 0x205f
    ||| u == 0x3000
}

/// `s` without its leading white space.
pub open spec fn trim_start_of(s: Seq<char>) -> Seq<char>
    decreases s.len(),
{
    if s.len() > 0 && is_white_space(s[0]) {
        trim_start_of(s.skip(1))
    } else {
        s
    }
}

/// `s` without its trailing white space.
pub open spec fn trim_end_of(s: Seq<char>) -> Seq<char>
    decreases s.len(),
{
    if s.len() > 0 && is_white_space(s.last()) {
        trim_end_of(s.drop_last())
    } else {
        s
    }
}

/// `s` without leading and trailing white space.
pub open spec fn trimmed_of(s: Seq<char>) -> Seq<char> {
    trim_end_of(trim_start_of(s))
}

/// Relies on `str::trim`: the text without leading and trailing characters
/// of the Unicode White_Space property.
#[verifier::external_body]
fn trim_text(s: &str) -> (r: &str)
    ensures
        r@ == trimmed_of(s@),
{
    s.trim()
}

/// Relies on `str::parse::<i64>`: an optional `+` or `-` followed by one or
/// more decimal digits, within the range of `i64`.
#[verifier::external_body]
fn parse_i64(s: &str) -> (r: Option<i64>)
    ensures
        r matches Some(n) ==> decimal_i64(s@) == Some(n as int),
        r is None ==> decimal_i64(s@) is None,
{
    s.parse::<i64>().ok()
}

impl Release {
    /// The release for a parsed operator count.
    pub fn from_count(count: Option<i64>) -> (r: Release)
        ensures
            r == release_of(
                match count {
                    Some(n) => Some(n as int),
                    None => None,
                },
            ),
    {
        match count {
            None => Release::Records(1),
            Some(n) => if n == 0 {
                Release::Records(1)
            } else if n > 0 {
                Release::Records(n as u64)
            } else {
                Release::Unlimited
            },
        }
    }

    /// The release for a line the operator typed: its trimmed text read as
    /// a decimal count.
    pub fn from_input(line: &str) -> (r: Release)
        ensures
            r == release_of(decimal_i64(trimmed_of(line@))),
    {
        let t = trim_text(line);
        Release::from_count(parse_i64(t))
    }
}

/// The records still to let through before the operator is asked again.
#[derive(Debug, Clone, Copy, PartialEq, Eq, Structural)]
pub enum Allowance {
    /// This many; none left means the next record waits for a prompt.
    Left(u64),
    /// No limit.
    Unlimited,
}

/// The allowance after one record passes.
pub open spec fn spend_one(a: Allowance) -> Allowance {
    match a {
        Allowance::Left(n) => Allowance::Left(if n > 0 { (n - 1) as u64 } else { 0 }),
        Allowance::Unlimited => Allowance::Unlimited,
    }
}

/// The allowance a release grants.
pub open spec fn granted(r: Release) -> Allowance {
    match r {
        Release::Records(n) => Allowance::Left(n),
        Release::Unlimited => Allowance::Unlimited,
    }
}

impl Allowance {
    /// Whether the operator must be asked before the next record.
    pub fn exhausted(&self) -> (r: bool)
        ensures
            r == (*self == Allowance::Left(0)),
    {
        match self {
            Allowance::Left(n) => *n == 0,
            Allowance::Unlimited => false,
        }
    }

    /// The allowance after one record passes.
    pub fn spend(&self) -> (r: Allowance)
        ensures
            r == spend_one(*self),
    {
        match self {
            Allowance::Left(n) => Allowance::Left(if *n > 0 { *n - 1 } else { 0 }),
            Allowance::Unlimited => Allowance::Unlimited,
        }
    }

    /// The allowance a release grants.
    pub fn grant(r: Release) -> (a: Allowance)
        ensures
            a == granted(r),
    {
        match r {
            Release::Records(n) => Allowance::Left(n),
            Release::Unlimited => Allowance::Unlimited,
        }
    }
}

} // verus!
