//! Calendar dates as plain year/month/day values: ordering, text form, and
//! the current day read from the system clock.

use vstd::prelude::*;

use crate::digits::{append_nat, enc_nat};

verus! {

/// A calendar date held as plain numbers, so that comparison and rendering
/// are ordinary verified arithmetic.
#[derive(Clone, Copy, PartialEq, Eq, Structural, Debug)]
pub struct Date {
    pub year: u16,
    pub month: u8,
    pub day: u8,
}

impl Date {
    /// A date the rest of the library accepts: a four-digit year and
    /// month/day fields inside calendar bounds.
    pub open spec fn wf(self) -> bool {
        self.year <= 9999 && 1 <= self.month <= 12 && 1 <= self.day <= 31
    }

    /// Strict calendar order: by year, then month, then day.
    pub open spec fn spec_before(self, other: Date) -> bool {
        self.year < other.year || (self.year == other.year && (self.month < other.month || (
        self.month == other.month && self.day < other.day)))
    }

    pub fn before(&self, other: &Date) -> (r: bool)
        ensures
            r == self.spec_before(*other),
    {
        self.year < other.year || (self.year == other.year && (self.month < other.month || (
        self.month == other.month && self.day < other.day)))
    }
}

/// A number padded with `'0'` on the left to at least four characters.
pub open spec fn pad4(n: nat) -> Seq<char> {
    if n < 10 {
        "000"@ + enc_nat(n)
    } else if n < 100 {
        "00"@ + enc_nat(n)
    } else if n < 1000 {
        "0"@ + enc_nat(n)
    } else {
        enc_nat(n)
    }
}

/// A number padded with `'0'` on the left to at least two characters.
pub open spec fn pad2(n: nat) -> Seq<char> {
    if n < 10 {
        "0"@ + enc_nat(n)
    } else {
        enc_nat(n)
    }
}

/// The text form of a date: `YYYY-MM-DD`.
pub open spec fn date_text(d: Date) -> Seq<char> {
    pad4(d.year as nat) + "-"@ + pad2(d.month as nat) + "-"@ + pad2(d.day as nat)
}

fn append_pad4(out: &mut String, n: u64)
    ensures
        final(out)@ == old(out)@ + pad4(n as nat),
{
    if n < 10 {
        out.append("000");
    } else if n < 100 {
        out.append("00");
    } else if n < 1000 {
        out.append("0");
    }
    append_nat(out, n);
}

fn append_pad2(out: &mut String, n: u64)
    ensures
        final(out)@ == old(out)@ + pad2(n as nat),
{
    if n < 10 {
        out.append("0");
    }
    append_nat(out, n);
}

/// Appends the `YYYY-MM-DD` text of `d`.
pub fn append_date_text(out: &mut String, d: Date)
    ensures
        final(out)@ == old(out)@ + date_text(d),
{
    append_pad4(out, d.year as u64);
    out.append("-");
    append_pad2(out, d.month as u64);
    out.append("-");
    append_pad2(out, d.day as u64);
    proof {
        assert(out@ =~= old(out)@ + date_text(d));
    }
}

/// The text of `d` as its own string.
pub fn date_string(d: &Date) -> (r: String)
    ensures
        r@ == date_text(*d),
{
    let mut out = String::new();
    append_date_text(&mut out, *d);
    proof {
        assert(out@ =~= date_text(*d));
    }
    out
}

/// Relies on `chrono::Utc::now` and the `chrono::Datelike` accessors of the
/// resulting `NaiveDate`: `month()` is documented to lie in 1..=12 and
/// `day()` in 1..=31. Nothing more is claimed of the clock's reading.
#[verifier::external_body]
fn now_ymd() -> (r: (i64, u64, u64))
    ensures
        1 <= r.1 <= 12,
        1 <= r.2 <= 31,
{
    let d = chrono::Utc::now().naive_local().date();
    (
        chrono::Datelike::year(&d) as i64,
        chrono::Datelike::month(&d) as u64,
        chrono::Datelike::day(&d) as u64,
    )
}

/// The current day according to the system clock. A year outside the
/// library's four-digit range (never reached by a real clock) is clamped.
pub fn today() -> (d: Date)
    ensures
        d.wf(),
{
    let (y, m, dd) = now_ymd();
    let year: u16 = if y < 0 {
        0
    } else if y > 9999 {
        9999
    } else {
        y as u16
    };
    Date { year, month: m as u8, day: dd as u8 }
}

} // verus!
