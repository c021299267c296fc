//! Session start times at minute granularity.
//!
//! A capture session is identified by the civil UTC time at which it was
//! started; the formatted time names the session's output directory.  The
//! formatting is fixed-width, so distinct start times always name distinct
//! directories.

use vstd::prelude::*;
use vstd::string::StringExecFns;
use crate::text::digit_char;
use crate::text::digit_str;

verus! {

/// A session start instant, at the minute granularity that names the
/// session's output directory.
#[derive(Clone, Copy, Debug, PartialEq, Eq, Hash, Structural)]
pub struct StartTime {
    pub year: u16,
    pub month: u8,
    pub day: u8,
    pub hour: u8,
    pub minute: u8,
}

impl StartTime {
    /// The fields describe a civil time the formatting is defined for.
    pub open spec fn wf(self) -> bool {
        &&& self.year <= 9999
        &&& 1 <= self.month <= 12
        &&& 1 <= self.day <= 31
        &&& self.hour < 24
        &&& self.minute < 60
    }

    /// Builds a start time from raw civil-time parts, clamping each field
    /// into its calendar range.
    pub fn from_parts(year: i32, month: u32, day: u32, hour: u32, minute: u32) -> (t: StartTime)
        ensures
            t.wf(),
            t.year == clamp_i32(year, 0, 9999),
            t.month == clamp_u32(month, 1, 12),
            t.day == clamp_u32(day, 1, 31),
            t.hour == clamp_u32(hour, 0, 23),
            t.minute == clamp_u32(minute, 0, 59),
    {
        StartTime {
            year: clamp_year(year),
            month: clamp_field(month, 1, 12),
            day: clamp_field(day, 1, 31),
            hour: clamp_field(hour, 0, 23),
            minute: clamp_field(minute, 0, 59),
        }
    }

    /// Reads the clock: the current UTC civil time, as a start time.
    pub fn now() -> (t: StartTime)
        ensures
            t.wf(),
    {
        let (year, month, day, hour, minute) = utc_now_parts();
        StartTime::from_parts(year, month, day, hour, minute)
    }

    /// Formats the start time as its output directory name.
    pub fn formatted(&self) -> (s: String)
        requires
            self.wf(),
        ensures
            s@ == dir_chars(*self),
    {
        let mut s = String::new();
        append_pad4(&mut s, self.year as u32);
        append_dash(&mut s);
        append_pad2(&mut s, self.month as u32);
        append_dash(&mut s);
        append_pad2(&mut s, self.day as u32);
        append_underscore(&mut s);
        append_pad2(&mut s, self.hour as u32);
        append_dash(&mut s);
        append_pad2(&mut s, self.minute as u32);
        assert(s@ =~= dir_chars(*self));
        s
    }
}

pub open spec fn clamp_i32(x: i32, lo: i32, hi: i32) -> i32 {
    if x < lo {
        lo
    } else if x > hi {
        hi
    } else {
        x
    }
}

pub open spec fn clamp_u32(x: u32, lo: u32, hi: u32) -> u32 {
    if x < lo {
        lo
    } else if x > hi {
        hi
    } else {
        x
    }
}

fn clamp_year(x: i32) -> (r: u16)
    ensures
        r == clamp_i32(x, 0, 9999),
{
    if x < 0 {
        0
    } else if x > 9999 {
        9999
    } else {
        x as u16
    }
}

fn clamp_field(x: u32, lo: u32, hi: u32) -> (r: u8)
    requires
        lo <= hi < 256,
    ensures
        r == clamp_u32(x, lo, hi),
{
    if x < lo {
        lo as u8
    } else if x > hi {
        hi as u8
    } else {
        x as u8
    }
}

/// A two-digit zero-padded decimal field.
pub open spec fn pad2_chars(n: int) -> Seq<char> {
    seq![digit_char(n / 10), digit_char(n % 10)]
}

/// A four-digit zero-padded decimal field.
pub open spec fn pad4_chars(n: int) -> Seq<char> {
    seq![
        digit_char(n / 1000),
        digit_char((n / 100) % 10),
        digit_char((n / 10) % 10),
        digit_char(n % 10),
    ]
}

/// The directory name of a session: its start time, fixed-width, year down
/// to minute.
pub open spec fn dir_chars(t: StartTime) -> Seq<char> {
    pad4_chars(t.year as int) + seq!['-'] + pad2_chars(t.month as int) + seq!['-'] + pad2_chars(
        t.day as int,
    ) + seq!['_'] + pad2_chars(t.hour as int) + seq!['-'] + pad2_chars(t.minute as int)
}

fn append_dash(s: &mut String)
    ensures
        final(s)@ == old(s)@ + seq!['-'],
{
    s.append("-");
    proof {
        reveal_strlit("-");
        assert(s@ =~= old(s)@ + seq!['-']);
    }
}

fn append_underscore(s: &mut String)
    ensures
        final(s)@ == old(s)@ + seq!['_'],
{
    s.append("_");
    proof {
        reveal_strlit("_");
        assert(s@ =~= old(s)@ + seq!['_']);
    }
}

fn append_pad2(s: &mut String, n: u32)
    requires
        n < 100,
    ensures
        final(s)@ == old(s)@ + pad2_chars(n as int),
{
    s.append(digit_str(n / 10));
    s.append(digit_str(n % 10));
    assert(s@ =~= old(s)@ + pad2_chars(n as int));
}

fn append_pad4(s: &mut String, n: u32)
    requires
        n < 10000,
    ensures
        final(s)@ == old(s)@ + pad4_chars(n as int),
{
    s.append(digit_str(n / 1000));
    s.append(digit_str((n / 100) % 10));
    s.append(digit_str((n / 10) % 10));
    s.append(digit_str(n % 10));
    assert(s@ =~= old(s)@ + pad4_chars(n as int));
}

/// Relies on chrono::Utc::now and the chrono::Datelike / chrono::Timelike
/// accessors for the current UTC civil time.  chrono documents month in
/// 1..=12, day in 1..=31, hour in 0..=23 and minute in 0..=59; nothing more
/// can be promised of a clock reading.
#[verifier::external_body]
fn utc_now_parts() -> (r: (i32, u32, u32, u32, u32))
    ensures
        1 <= r.1 <= 12,
        1 <= r.2 <= 31,
        r.3 < 24,
        r.4 < 60,
{
    let t = chrono::Utc::now();
    (
        chrono::Datelike::year(&t),
        chrono::Datelike::month(&t),
        chrono::Datelike::day(&t),
        chrono::Timelike::hour(&t),
        chrono::Timelike::minute(&t),
    )
}

proof fn lemma_digit_char_injective(x: int, y: int)
    requires
        0 <= x < 10,
        0 <= y < 10,
        digit_char(x) == digit_char(y),
    ensures
        x == y,
{
}

proof fn lemma_pad2_injective(x: int, y: int)
    requires
        0 <= x < 100,
        0 <= y < 100,
        pad2_chars(x) == pad2_chars(y),
    ensures
        x == y,
{
    assert(pad2_chars(x)[0] == pad2_chars(y)[0]);
    assert(pad2_chars(x)[1] == pad2_chars(y)[1]);
    lemma_digit_char_injective(x / 10, y / 10);
    lemma_digit_char_injective(x % 10, y % 10);
    vstd::arithmetic::div_mod::lemma_fundamental_div_mod(x, 10);
    vstd::arithmetic::div_mod::lemma_fundamental_div_mod(y, 10);
}

proof fn lemma_pad4_injective(x: int, y: int)
    requires
        0 <= x < 10000,
        0 <= y < 10000,
        pad4_chars(x) == pad4_chars(y),
    ensures
        x == y,
{
    lemma_digit_char_injective(x / 1000, y / 1000);
    lemma_digit_char_injective((x / 100) % 10, (y / 100) % 10);
    lemma_digit_char_injective((x / 10) % 10, (y / 10) % 10);
    lemma_digit_char_injective(x % 10, y % 10);
    assert(x == y) by (nonlinear_arith)
        requires
            0 <= x < 10000,
            0 <= y < 10000,
            x / 1000 == y / 1000,
            (x / 100) % 10 == (y / 100) % 10,
            (x / 10) % 10 == (y / 10) % 10,
            x % 10 == y % 10,
    ;
}

/// Toggling capture off and on starts a new session under a new name: two
/// sessions with distinct start times write under distinct directory
/// names, so the second session never reuses the first one's files.
pub proof fn lemma_distinct_start_times_distinct_dirs(a: StartTime, b: StartTime)
    requires
        a.wf(),
        b.wf(),
        a != b,
    ensures
        dir_chars(a) != dir_chars(b),
{
    if dir_chars(a) == dir_chars(b) {
        let ca = dir_chars(a);
        let cb = dir_chars(b);
        assert(pad4_chars(a.year as int) =~= ca.subrange(0, 4));
        assert(pad4_chars(b.year as int) =~= cb.subrange(0, 4));
        assert(pad2_chars(a.month as int) =~= ca.subrange(5, 7));
        assert(pad2_chars(b.month as int) =~= cb.subrange(5, 7));
        assert(pad2_chars(a.day as int) =~= ca.subrange(8, 10));
        assert(pad2_chars(b.day as int) =~= cb.subrange(8, 10));
        assert(pad2_chars(a.hour as int) =~= ca.subrange(11, 13));
        assert(pad2_chars(b.hour as int) =~= cb.subrange(11, 13));
        assert(pad2_chars(a.minute as int) =~= ca.subrange(14, 16));
        assert(pad2_chars(b.minute as int) =~= cb.subrange(14, 16));
        lemma_pad4_injective(a.year as int, b.year as int);
        lemma_pad2_injective(a.month as int, b.month as int);
        lemma_pad2_injective(a.day as int, b.day as int);
        lemma_pad2_injective(a.hour as int, b.hour as int);
        lemma_pad2_injective(a.minute as int, b.minute as int);
        assert(false);
    }
}

} // verus!
