//! A calendar timestamp held as plain fields, and its fixed-length HTTP
//! (RFC 1123) rendering, e.g. `Sun, 06 Nov 1994 08:49:37 GMT`.

use vstd::prelude::*;
use vstd::utf8::encode_utf8;
use crate::bytes_util::append_slice;
use crate::bytes_util::push_two_digits;
use crate::bytes_util::push_four_digits;
use crate::bytes_util::spec_two_digits;
use crate::bytes_util::spec_four_digits;

verus! {

/// A timestamp in UTC.  `weekday` counts from Sunday = 0; `month` from
/// January = 1.
pub struct HttpDate {
    pub year: u16,
    pub month: u8,
    pub day: u8,
    pub weekday: u8,
    pub hour: u8,
    pub minute: u8,
    pub second: u8,
}

/// The three-letter weekday name, Sunday first.
pub open spec fn spec_weekday_name(w: nat) -> Seq<u8> {
    if w == 0 {
        encode_utf8("Sun"@)
    } else if w == 1 {
        encode_utf8("Mon"@)
    } else if w == 2 {
        encode_utf8("Tue"@)
    } else if w == 3 {
        encode_utf8("Wed"@)
    } else if w == 4 {
        encode_utf8("Thu"@)
    } else if w == 5 {
        encode_utf8("Fri"@)
    } else {
        encode_utf8("Sat"@)
    }
}

/// The three-letter month name, January = 1.
pub open spec fn spec_month_name(m: nat) -> Seq<u8> {
    if m == 1 {
        encode_utf8("Jan"@)
    } else if m == 2 {
        encode_utf8("Feb"@)
    } else if m == 3 {
        encode_utf8("Mar"@)
    } else if m == 4 {
        encode_utf8("Apr"@)
    } else if m == 5 {
        encode_utf8("May"@)
    } else if m == 6 {
        encode_utf8("Jun"@)
    } else if m == 7 {
        encode_utf8("Jul"@)
    } else if m == 8 {
        encode_utf8("Aug"@)
    } else if m == 9 {
        encode_utf8("Sep"@)
    } else if m == 10 {
        encode_utf8("Oct"@)
    } else if m == 11 {
        encode_utf8("Nov"@)
    } else {
        encode_utf8("Dec"@)
    }
}

/// The RFC 1123 rendering of a date.
pub open spec fn spec_rfc1123(d: HttpDate) -> Seq<u8> {
    spec_weekday_name(d.weekday as nat) + encode_utf8(", "@) + spec_two_digits(d.day as nat)
        + encode_utf8(" "@) + spec_month_name(d.month as nat) + encode_utf8(" "@)
        + spec_four_digits(d.year as nat) + encode_utf8(" "@) + spec_two_digits(d.hour as nat)
        + encode_utf8(":"@) + spec_two_digits(d.minute as nat) + encode_utf8(":"@)
        + spec_two_digits(d.second as nat) + encode_utf8(" GMT"@)
}

fn push_weekday_name(out: &mut Vec<u8>, w: u8)
    requires
        w < 7,
    ensures
        final(out)@ == old(out)@ + spec_weekday_name(w as nat),
{
    if w == 0 {
        append_slice(out, "Sun".as_bytes());
    } else if w == 1 {
        append_slice(out, "Mon".as_bytes());
    } else if w == 2 {
        append_slice(out, "Tue".as_bytes());
    } else if w == 3 {
        append_slice(out, "Wed".as_bytes());
    } else if w == 4 {
        append_slice(out, "Thu".as_bytes());
    } else if w == 5 {
        append_slice(out, "Fri".as_bytes());
    } else {
        append_slice(out, "Sat".as_bytes());
    }
}

fn push_month_name(out: &mut Vec<u8>, m: u8)
    requires
        1 <= m <= 12,
    ensures
        final(out)@ == old(out)@ + spec_month_name(m as nat),
{
    if m == 1 {
        append_slice(out, "Jan".as_bytes());
    } else if m == 2 {
        append_slice(out, "Feb".as_bytes());
    } else if m == 3 {
        append_slice(out, "Mar".as_bytes());
    } else if m == 4 {
        append_slice(out, "Apr".as_bytes());
    } else if m == 5 {
        append_slice(out, "May".as_bytes());
    } else if m == 6 {
        append_slice(out, "Jun".as_bytes());
    } else if m == 7 {
        append_slice(out, "Jul".as_bytes());
    } else if m == 8 {
        append_slice(out, "Aug".as_bytes());
    } else if m == 9 {
        append_slice(out, "Sep".as_bytes());
    } else if m == 10 {
        append_slice(out, "Oct".as_bytes());
    } else if m == 11 {
        append_slice(out, "Nov".as_bytes());
    } else {
        append_slice(out, "Dec".as_bytes());
    }
}

impl HttpDate {
    /// Field ranges of a date this library will format.
    pub open spec fn wf(self) -> bool {
        &&& self.year < 10000
        &&& 1 <= self.month <= 12
        &&& 1 <= self.day <= 31
        &&& self.weekday < 7
        &&& self.hour < 24
        &&& self.minute < 60
        &&& self.second < 60
    }

    /// Builds a date, refusing out-of-range fields.
    pub fn new(
        year: u16,
        month: u8,
        day: u8,
        weekday: u8,
        hour: u8,
        minute: u8,
        second: u8,
    ) -> (r: Option<HttpDate>)
        ensures
            r is Some <==> (HttpDate { year, month, day, weekday, hour, minute, second }).wf(),
            r is Some ==> r.unwrap() == (HttpDate {
                year,
                month,
                day,
                weekday,
                hour,
                minute,
                second,
            }),
    {
        if year < 10000 && 1 <= month && month <= 12 && 1 <= day && day <= 31 && weekday < 7
            && hour < 24 && minute < 60 && second < 60 {
            Some(HttpDate { year, month, day, weekday, hour, minute, second })
        } else {
            None
        }
    }

    /// Formats the date in the fixed HTTP form.
    pub fn rfc1123(&self) -> (out: Vec<u8>)
        requires
            self.wf(),
        ensures
            out@ == spec_rfc1123(*self),
    {
        let mut out: Vec<u8> = Vec::new();
        push_weekday_name(&mut out, self.weekday);
        append_slice(&mut out, ", ".as_bytes());
        push_two_digits(&mut out, self.day);
        append_slice(&mut out, " ".as_bytes());
        push_month_name(&mut out, self.month);
        append_slice(&mut out, " ".as_bytes());
        push_four_digits(&mut out, self.year);
        append_slice(&mut out, " ".as_bytes());
        push_two_digits(&mut out, self.hour);
        append_slice(&mut out, ":".as_bytes());
        push_two_digits(&mut out, self.minute);
        append_slice(&mut out, ":".as_bytes());
        push_two_digits(&mut out, self.second);
        append_slice(&mut out, " GMT".as_bytes());
        proof {
            assert(out@ =~= spec_rfc1123(*self));
        }
        out
    }
}

} // verus!
