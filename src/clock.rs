//! Local time as plain values, read from the system clock, and the log file
//! name stamped with it.
use vstd::prelude::*;
use chrono::{Datelike, Timelike};
use crate::text::push_char;

verus! {

/// A local date and time of day, with the instant as milliseconds since the
/// Unix epoch.
#[derive(Clone, Copy, Debug, PartialEq, Eq, Structural)]
pub struct LocalTime {
    pub year: i32,
    pub month: u32,
    pub day: u32,
    pub hour: u32,
    pub minute: u32,
    pub second: u32,
    pub epoch_millis: i64,
}

impl LocalTime {
    pub open spec fn wf(&self) -> bool {
        &&& 1 <= self.month <= 12
        &&& 1 <= self.day <= 31
        &&& self.hour <= 23
        &&& self.minute <= 59
        &&& self.second <= 59
    }
}

/// Relies on chrono::Local::now and the `Datelike` / `Timelike` accessors:
/// month in 1..=12, day in 1..=31, hour in 0..=23, minute and second in
/// 0..=59 (a leap second shows in the nanoseconds, not here). The instant
/// depends on the clock: nothing more is stated. The call panics, whatever
/// the library hands it, on a machine whose clock reads before 1970 or whose
/// local offset cannot be determined.
#[verifier::external_body]
pub(crate) fn local_now() -> (r: LocalTime)
    ensures
        r.wf(),
{
    let now = chrono::Local::now();
    LocalTime {
        year: now.year(),
        month: now.month(),
        day: now.day(),
        hour: now.hour(),
        minute: now.minute(),
        second: now.second(),
        epoch_millis: now.timestamp_millis(),
    }
}

pub open spec fn digit_char(d: nat) -> char {
    if d == 0 { '0' }
    else if d == 1 { '1' }
    else if d == 2 { '2' }
    else if d == 3 { '3' }
    else if d == 4 { '4' }
    else if d == 5 { '5' }
    else if d == 6 { '6' }
    else if d == 7 { '7' }
    else if d == 8 { '8' }
    else { '9' }
}

/// Decimal digits of `n`, without leading zeros.
pub open spec fn decimal(n: nat) -> Seq<char>
    decreases n,
{
    if n < 10 {
        seq![digit_char(n)]
    } else {
        decimal(n / 10).push(digit_char(n % 10))
    }
}

/// Decimal digits of `n`, with zeros in front up to `width` characters.
pub open spec fn zero_padded(n: nat, width: nat) -> Seq<char> {
    let d = decimal(n);
    if d.len() < width {
        Seq::new((width - d.len()) as nat, |i: int| '0') + d
    } else {
        d
    }
}

/// A year as `%Y` writes it: four digits at least, and a sign outside 0..=9999.
pub open spec fn year_text(y: int) -> Seq<char> {
    if 0 <= y <= 9999 {
        zero_padded(y as nat, 4)
    } else if y > 9999 {
        seq!['+'] + zero_padded(y as nat, 4)
    } else {
        seq!['-'] + zero_padded((-y) as nat, 4)
    }
}

/// The time as `%Y%m%d%H%M%S`.
pub open spec fn timestamp_text(t: LocalTime) -> Seq<char> {
    year_text(t.year as int) + zero_padded(t.month as nat, 2) + zero_padded(t.day as nat, 2)
        + zero_padded(t.hour as nat, 2) + zero_padded(t.minute as nat, 2) + zero_padded(t.second as nat, 2)
}

pub open spec fn log_name(t: LocalTime) -> Seq<char> {
    "output_log_"@ + timestamp_text(t) + ".txt"@
}

fn digit(d: u64) -> (c: char)
    requires
        d < 10,
    ensures
        c == digit_char(d as nat),
{
    if d == 0 { '0' }
    else if d == 1 { '1' }
    else if d == 2 { '2' }
    else if d == 3 { '3' }
    else if d == 4 { '4' }
    else if d == 5 { '5' }
    else if d == 6 { '6' }
    else if d == 7 { '7' }
    else if d == 8 { '8' }
    else { '9' }
}

fn decimal_len(n: u64) -> (r: usize)
    ensures
        r == decimal(n as nat).len(),
    decreases n,
{
    if n < 10 {
        1
    } else {
        let k = decimal_len(n / 10);
        proof {
            lemma_decimal_len_bound(n as nat);
        }
        k + 1
    }
}

proof fn lemma_decimal_len_bound(n: nat)
    requires
        n <= u64::MAX,
    ensures
        decimal(n).len() <= 20,
{
    reveal_with_fuel(pow10, 21);
    assert(pow10(20) == 100_000_000_000_000_000_000nat);
    lemma_decimal_len_below(n, 20);
}

proof fn lemma_decimal_len_below(n: nat, k: nat)
    requires
        k >= 1,
        n < pow10(k),
    ensures
        decimal(n).len() <= k,
    decreases n,
{
    if n >= 10 {
        let p = pow10((k - 1) as nat);
        if k == 1 {
            assert(pow10(1) == 10) by {
                reveal_with_fuel(pow10, 2);
            }
        }
        assert(k >= 2);
        assert(pow10(k) == 10 * p);
        assert(n / 10 < p) by (nonlinear_arith)
            requires n < 10 * p;
        lemma_decimal_len_below(n / 10, (k - 1) as nat);
    }
}

pub open spec fn pow10(k: nat) -> nat
    decreases k,
{
    if k == 0 { 1 } else { 10 * pow10((k - 1) as nat) }
}

fn push_decimal(s: &mut String, n: u64)
    ensures
        final(s)@ == old(s)@ + decimal(n as nat),
    decreases n,
{
    if n >= 10 {
        push_decimal(s, n / 10);
    }
    push_char(s, digit(n % 10));
    proof {
        if n >= 10 {
            assert(old(s)@ + decimal((n / 10) as nat) + seq![digit_char((n % 10) as nat)]
                =~= old(s)@ + decimal(n as nat));
        } else {
            assert(old(s)@.push(digit_char(n as nat)) =~= old(s)@ + decimal(n as nat));
        }
    }
}

fn push_padded(s: &mut String, n: u64, width: usize)
    ensures
        final(s)@ == old(s)@ + zero_padded(n as nat, width as nat),
{
    let len = decimal_len(n);
    if len < width {
        let mut i: usize = len;
        while i < width
            invariant
                len <= i <= width,
                final_zero_prefix(s@, old(s)@, (i - len) as nat),
            decreases width - i,
        {
            push_char(s, '0');
            i = i + 1;
            proof {
                assert(s@ =~= old(s)@ + Seq::new((i - len) as nat, |j: int| '0'));
            }
        }
    } else {
        proof {
            assert(s@ =~= old(s)@ + Seq::new(0, |j: int| '0'));
        }
    }
    push_decimal(s, n);
    assert(s@ =~= old(s)@ + zero_padded(n as nat, width as nat));
}

pub open spec fn final_zero_prefix(now: Seq<char>, start: Seq<char>, k: nat) -> bool {
    now == start + Seq::new(k, |j: int| '0')
}

/// The name of the log file of a run that starts at `t`:
/// `output_log_<%Y%m%d%H%M%S>.txt`.
pub fn log_file_name(t: &LocalTime) -> (r: String)
    ensures
        r@ == log_name(*t),
{
    proof {
        reveal_strlit("output_log_");
        reveal_strlit(".txt");
    }
    let mut name = String::from_str("output_log_");
    if 0 <= t.year && t.year <= 9999 {
        push_padded(&mut name, t.year as u64, 4);
    } else if t.year > 9999 {
        push_char(&mut name, '+');
        push_padded(&mut name, t.year as u64, 4);
    } else {
        push_char(&mut name, '-');
        let magnitude: u64 = (0 - (t.year as i64)) as u64;
        push_padded(&mut name, magnitude, 4);
    }
    push_padded(&mut name, t.month as u64, 2);
    push_padded(&mut name, t.day as u64, 2);
    push_padded(&mut name, t.hour as u64, 2);
    push_padded(&mut name, t.minute as u64, 2);
    push_padded(&mut name, t.second as u64, 2);
    name.append(".txt");
    assert(name@ =~= log_name(*t));
    name
}

/// The name of the log file of a run that starts now.
pub fn log_file_name_now() -> (r: String)
    ensures
        exists|t: LocalTime| t.wf() && r@ == log_name(t),
{
    let t = local_now();
    log_file_name(&t)
}

} // verus!
