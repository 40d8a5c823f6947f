//! Recording paths: a configured path may hold `$date`, which stands for the
//! date on which the recording is opened.
use vstd::prelude::*;

verus! {

/// The placeholder for the current date in a recording path.
pub const DATE_PLACEHOLDER: &'static str = "$date";

/// `s` with every occurrence of `pat`, scanned left to right without
/// overlap, replaced by `rep`.
pub open spec fn replace_all(s: Seq<char>, pat: Seq<char>, rep: Seq<char>) -> Seq<char>
    recommends
        pat.len() > 0,
    decreases s.len(),
{
    if pat.len() == 0 || s.len() < pat.len() {
        s
    } else if s.subrange(0, pat.len() as int) == pat {
        rep + replace_all(s.skip(pat.len() as int), pat, rep)
    } else {
        seq![s[0]] + replace_all(s.skip(1), pat, rep)
    }
}

/// Relies on `str::replace`: every non-overlapping match of a non-empty
/// `pat`, found from the left, is replaced by `rep`.
#[verifier::external_body]
fn replace_text(s: &str, pat: &str, rep: &str) -> (r: String)
    requires
        pat@.len() > 0,
    ensures
        r@ == replace_all(s@, pat@, rep@),
{
    s.replace(pat, rep)
}

/// Whether `s` is written with decimal digits, `-` and `+` alone, as
/// chrono writes a date.
pub open spec fn date_text(s: Seq<char>) -> bool {
    forall|i: int| 0 <= i < s.len() ==> ('0' <= #[trigger] s[i] <= '9' || s[i] == '-' || s[i] == '+')
}

/// Relies on `chrono::Local::now` and `chrono::DateTime::date_naive`: the
/// local date today, in chrono's `Debug` form for a `NaiveDate` (`2024-01-31`,
/// or a signed year outside 0 to 9999), which writes digits, `-` and `+`.
#[verifier::external_body]
fn today_label() -> (r: String)
    ensures
        date_text(r@),
{
    format!("{:?}", chrono::Local::now().date_naive())
}

/// The path of a recording made on the date written `date`.
pub fn recording_path(template: &str, date: &str) -> (r: String)
    ensures
        r@ == replace_all(template@, DATE_PLACEHOLDER@, date@),
{
    proof {
        reveal_strlit("$date");
    }
    replace_text(template, DATE_PLACEHOLDER, date)
}

/// The path of a recording opened now: the template with each `$date`
/// replaced by a date.
pub fn current_recording_path(template: &str) -> (r: String)
    ensures
        exists|date: Seq<char>| date_text(date) && r@ == replace_all(template@, DATE_PLACEHOLDER@, date),
{
    let date = today_label();
    recording_path(template, date.as_str())
}

} // verus!
