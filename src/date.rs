//! Calendar dates and their ISO `YYYY-MM-DD` rendering.
use vstd::prelude::*;
use vstd::string::{StrSliceExecFns, StringExecFns};
use crate::text::{decimal, push_char, push_decimal};

verus! {

/// A day of the proleptic Gregorian calendar.
#[derive(Debug, Clone, Copy, PartialEq, Eq)]
pub struct Date {
    pub year: i32,
    pub month: u8,
    pub day: u8,
}

/// `decimal(n)` with zeros in front, to at least `w` characters.
pub open spec fn padded(n: nat, w: nat) -> Seq<char> {
    let d = decimal(n);
    let z: nat = if d.len() < w { (w - d.len()) as nat } else { 0 };
    Seq::new(z, |i: int| '0') + d
}

/// Four digits for years 0 to 9999; otherwise a sign and at least four digits.
pub open spec fn year_text(y: int) -> Seq<char> {
    if y < 0 {
        "-"@ + padded((-y) as nat, 4)
    } else if y > 9999 {
        "+"@ + decimal(y as nat)
    } else {
        padded(y as nat, 4)
    }
}

pub open spec fn iso_date_of(d: Date) -> Seq<char> {
    year_text(d.year as int) + "-"@ + padded(d.month as nat, 2) + "-"@ + padded(d.day as nat, 2)
}

/// Appends `padded(n, w)` to `s`.
fn push_padded(s: &mut String, n: u64, w: usize)
    ensures
        final(s)@ == old(s)@ + padded(n as nat, w as nat),
{
    let mut digits = String::new();
    push_decimal(&mut digits, n);
    assert(digits@ =~= decimal(n as nat));
    let len = digits.as_str().unicode_len();
    let mut k: usize = len;
    let ghost z: nat = if len < w { (w - len) as nat } else { 0 };
    let ghost start = old(s)@;
    while k < w
        invariant
            len <= k,
            k <= w || k == len,
            z == if len < w { (w - len) as nat } else { 0 },
            s@ == start + Seq::new((k - len) as nat, |i: int| '0'),
        decreases w - k,
    {
        push_char(s, '0');
        k = k + 1;
        assert(s@ =~= start + Seq::new((k - len) as nat, |i: int| '0'));
    }
    assert(Seq::new((k - len) as nat, |i: int| '0') =~= Seq::new(z, |i: int| '0'));
    s.append(digits.as_str());
    assert(s@ =~= start + padded(n as nat, w as nat));
}

impl Date {
    /// Month 1 to 12, day 1 to 31.
    pub open spec fn wf(&self) -> bool {
        1 <= self.month <= 12 && 1 <= self.day <= 31
    }

    /// The date as `YYYY-MM-DD`.
    pub fn iso_date(&self) -> (r: String)
        ensures
            r@ == iso_date_of(*self),
    {
        let mut s = String::new();
        if self.year < 0 {
            s.append("-");
            let y: u64 = (0i64 - self.year as i64) as u64;
            push_padded(&mut s, y, 4);
        } else if self.year > 9999 {
            s.append("+");
            push_decimal(&mut s, self.year as u64);
        } else {
            push_padded(&mut s, self.year as u64, 4);
        }
        s.append("-");
        push_padded(&mut s, self.month as u64, 2);
        s.append("-");
        push_padded(&mut s, self.day as u64, 2);
        s
    }
}

/// The UTC calendar day (year, month, day) of a Unix timestamp, as chrono
/// computes it.
pub uninterp spec fn utc_day_of(secs: i64) -> Option<(i32, u32, u32)>;

/// Relies on `chrono::DateTime::from_timestamp` and `Datelike`: `None` for a
/// timestamp out of chrono's range, else the day, whose month is 1 to 12 and
/// day 1 to 31.
#[verifier::external_body]
fn utc_day(secs: i64) -> (r: Option<(i32, u32, u32)>)
    ensures
        r == utc_day_of(secs),
        r matches Some(t) ==> 1 <= t.1 <= 12 && 1 <= t.2 <= 31,
{
    chrono::DateTime::from_timestamp(secs, 0).map(
        |d| (chrono::Datelike::year(&d), chrono::Datelike::month(&d), chrono::Datelike::day(&d)),
    )
}

/// The UTC date of the Unix timestamp `secs`, when chrono can represent it.
pub fn date_of_timestamp(secs: i64) -> (r: Option<Date>)
    ensures
        match utc_day_of(secs) {
            Some(t) => r == Some(Date { year: t.0, month: t.1 as u8, day: t.2 as u8 }),
            None => r is None,
        },
        r matches Some(d) ==> d.wf(),
{
    match utc_day(secs) {
        Some((year, month, day)) => Some(Date { year, month: month as u8, day: day as u8 }),
        None => None,
    }
}

} // verus!
