//! Calendar timestamps as plain field values.
//!
//! The library keeps every timestamp as its six calendar fields so that all
//! logic over timestamps is ordinary verified arithmetic; only parsing text
//! into these fields is delegated to an outside crate.

use vstd::prelude::*;
use vstd::string::StringExecFns;

use crate::numbers::dec_text;
use crate::numbers::spec_zero_pad;
use crate::numbers::u64_text_padded;

verus! {

/// A wall-clock timestamp, second precision, no time zone.
#[derive(Clone, Copy, PartialEq, Eq, Structural, Debug)]
pub struct Timestamp {
    pub year: i64,
    pub month: u8,
    pub day: u8,
    pub hour: u8,
    pub minute: u8,
    pub second: u8,
}

impl Timestamp {
    /// Field ranges of a real calendar timestamp.
    pub open spec fn wf(self) -> bool {
        &&& i32::MIN <= self.year <= i32::MAX
        &&& 1 <= self.month <= 12
        &&& 1 <= self.day <= 31
        &&& self.hour <= 23
        &&& self.minute <= 59
        &&& self.second <= 59
    }

    /// The six calendar fields as plain integers.
    pub open spec fn as_fields(self) -> (int, int, int, int, int, int) {
        (
            self.year as int,
            self.month as int,
            self.day as int,
            self.hour as int,
            self.minute as int,
            self.second as int,
        )
    }

    /// The same day at 00:00:00.
    pub open spec fn spec_midnight(self) -> Timestamp {
        Timestamp { hour: 0, minute: 0, second: 0, ..self }
    }

    /// Start of the day that `self` falls on.
    pub fn midnight(&self) -> (r: Timestamp)
        ensures
            r == self.spec_midnight(),
            self.wf() ==> r.wf(),
    {
        Timestamp { hour: 0, minute: 0, second: 0, ..*self }
    }

    /// Text of `self` in the watermark format, `YYYY-MM-DD HH:MM:SS`.
    pub open spec fn spec_watermark_text(self) -> Seq<char> {
        spec_year_text(self.year as int) + "-"@ + pad2(self.month as int) + "-"@ + pad2(
            self.day as int,
        ) + " "@ + pad2(self.hour as int) + ":"@ + pad2(self.minute as int) + ":"@ + pad2(
            self.second as int,
        )
    }

    /// Renders `self` in the watermark format.
    pub fn watermark_text(&self) -> (s: String)
        requires
            self.wf(),
        ensures
            s@ == self.spec_watermark_text(),
    {
        let mut s = year_text(self.year);
        s.append("-");
        s.append(u64_text_padded(self.month as u64, 2).as_str());
        s.append("-");
        s.append(u64_text_padded(self.day as u64, 2).as_str());
        s.append(" ");
        s.append(u64_text_padded(self.hour as u64, 2).as_str());
        s.append(":");
        s.append(u64_text_padded(self.minute as u64, 2).as_str());
        s.append(":");
        s.append(u64_text_padded(self.second as u64, 2).as_str());
        proof {
            assert(s@ =~= self.spec_watermark_text());
        }
        s
    }

    /// Text of `self` in the short display form, `Mon-DD HH:MM`.
    pub open spec fn spec_brief_text(self) -> Seq<char> {
        month_abbrev(self.month as int) + "-"@ + pad2(self.day as int) + " "@ + pad2(
            self.hour as int,
        ) + ":"@ + pad2(self.minute as int)
    }

    /// Renders `self` in the short display form.
    pub fn brief_text(&self) -> (s: String)
        requires
            self.wf(),
        ensures
            s@ == self.spec_brief_text(),
    {
        let mut s = String::new();
        s.append(month_abbrev_str(self.month));
        s.append("-");
        s.append(u64_text_padded(self.day as u64, 2).as_str());
        s.append(" ");
        s.append(u64_text_padded(self.hour as u64, 2).as_str());
        s.append(":");
        s.append(u64_text_padded(self.minute as u64, 2).as_str());
        proof {
            assert(s@ =~= self.spec_brief_text());
        }
        s
    }
}

/// A decimal value zero-padded to two digits.
pub open spec fn pad2(n: int) -> Seq<char> {
    spec_zero_pad(dec_text(n), 2)
}

/// A year, zero-padded to four digits, with a sign in front of years before
/// year zero.
pub open spec fn spec_year_text(y: int) -> Seq<char> {
    if y < 0 {
        seq!['-'] + spec_zero_pad(dec_text(-y), 4)
    } else {
        spec_zero_pad(dec_text(y), 4)
    }
}

/// Renders a year, zero-padded to four digits.
fn year_text(y: i64) -> (s: String)
    requires
        i64::MIN < y,
    ensures
        s@ == spec_year_text(y as int),
{
    if y < 0 {
        let mut s = String::new();
        crate::text::push_char(&mut s, '-');
        s.append(u64_text_padded((-y) as u64, 4).as_str());
        proof {
            assert(s@ =~= spec_year_text(y as int));
        }
        s
    } else {
        u64_text_padded(y as u64, 4)
    }
}

/// Abbreviated English month name for month numbers 1 through 12; empty
/// elsewhere.
pub open spec fn month_abbrev(m: int) -> Seq<char> {
    if m == 1 {
        "Jan"@
    } else if m == 2 {
        "Feb"@
    } else if m == 3 {
        "Mar"@
    } else if m == 4 {
        "Apr"@
    } else if m == 5 {
        "May"@
    } else if m == 6 {
        "Jun"@
    } else if m == 7 {
        "Jul"@
    } else if m == 8 {
        "Aug"@
    } else if m == 9 {
        "Sep"@
    } else if m == 10 {
        "Oct"@
    } else if m == 11 {
        "Nov"@
    } else if m == 12 {
        "Dec"@
    } else {
        Seq::empty()
    }
}

/// Abbreviated English month name.
fn month_abbrev_str(m: u8) -> (s: &'static str)
    requires
        1 <= m <= 12,
    ensures
        s@ == month_abbrev(m as int),
{
    if m == 1 {
        "Jan"
    } else if m == 2 {
        "Feb"
    } else if m == 3 {
        "Mar"
    } else if m == 4 {
        "Apr"
    } else if m == 5 {
        "May"
    } else if m == 6 {
        "Jun"
    } else if m == 7 {
        "Jul"
    } else if m == 8 {
        "Aug"
    } else if m == 9 {
        "Sep"
    } else if m == 10 {
        "Oct"
    } else if m == 11 {
        "Nov"
    } else {
        "Dec"
    }
}

} // verus!
