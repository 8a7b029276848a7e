//! GRiD dates: eleven bytes, the year and the day of the year little endian.
use vstd::prelude::*;

use crate::bytes::{spec_u16_le, spec_u16_le_bytes, u16_from_le, u16_to_le};

verus! {

pub const DATE_LENGTH: usize = 11;

#[derive(Clone, Copy, Debug, PartialEq, Eq)]
pub struct GRiDDate {
    pub year: u16,
    pub month: u8,
    pub day: u8,
    pub hour: u8,
    pub minute: u8,
    pub second: u8,
    pub tenth_of_second: u8,
    pub day_of_week: u8,
    pub day_of_year: u16,
}

/// The eleven bytes of `d`.
pub open spec fn spec_date_bytes(d: GRiDDate) -> Seq<u8> {
    spec_u16_le_bytes(d.year) + seq![
        d.month,
        d.day,
        d.hour,
        d.minute,
        d.second,
        d.tenth_of_second,
        d.day_of_week,
    ] + spec_u16_le_bytes(d.day_of_year)
}

/// The date eleven bytes hold, whatever they hold.
pub open spec fn spec_date_from(b: Seq<u8>) -> GRiDDate {
    GRiDDate {
        year: spec_u16_le(b[0], b[1]),
        month: b[2],
        day: b[3],
        hour: b[4],
        minute: b[5],
        second: b[6],
        tenth_of_second: b[7],
        day_of_week: b[8],
        day_of_year: spec_u16_le(b[9], b[10]),
    }
}

/// The date of a file that has none.
pub open spec fn spec_never() -> GRiDDate {
    GRiDDate {
        year: 0,
        month: 0,
        day: 0,
        hour: 0,
        minute: 0,
        second: 0,
        tenth_of_second: 0,
        day_of_week: 0,
        day_of_year: 0,
    }
}

impl GRiDDate {
    /// The date of a file that has none: every byte zero.
    pub fn never() -> (r: Self)
        ensures
            r == spec_never(),
            spec_date_bytes(r) == seq![0u8, 0u8, 0u8, 0u8, 0u8, 0u8, 0u8, 0u8, 0u8, 0u8, 0u8],
    {
        let r = GRiDDate {
            year: 0,
            month: 0,
            day: 0,
            hour: 0,
            minute: 0,
            second: 0,
            tenth_of_second: 0,
            day_of_week: 0,
            day_of_year: 0,
        };
        assert(spec_date_bytes(r) =~= seq![0u8, 0u8, 0u8, 0u8, 0u8, 0u8, 0u8, 0u8, 0u8, 0u8, 0u8]);
        r
    }

    /// Whether this is [`GRiDDate::never`].
    pub fn is_never(&self) -> (r: bool)
        ensures
            r == (spec_date_bytes(*self) == seq![0u8, 0u8, 0u8, 0u8, 0u8, 0u8, 0u8, 0u8, 0u8, 0u8, 0u8]),
    {
        let zero = self.year == 0 && self.month == 0 && self.day == 0 && self.hour == 0
            && self.minute == 0 && self.second == 0 && self.tenth_of_second == 0
            && self.day_of_week == 0 && self.day_of_year == 0;
        proof {
            let z = seq![0u8, 0u8, 0u8, 0u8, 0u8, 0u8, 0u8, 0u8, 0u8, 0u8, 0u8];
            crate::bytes::lemma_u16_le_roundtrip(self.year);
            crate::bytes::lemma_u16_le_roundtrip(self.day_of_year);
            if spec_date_bytes(*self) == z {
                assert(spec_date_bytes(*self)[0] == 0 && spec_date_bytes(*self)[1] == 0);
                assert(spec_date_bytes(*self)[9] == 0 && spec_date_bytes(*self)[10] == 0);
                assert(spec_date_bytes(*self)[2] == self.month);
                assert(spec_date_bytes(*self)[8] == self.day_of_week);
            }
            if zero {
                assert(spec_date_bytes(*self) =~= z);
            }
        }
        zero
    }

    /// The date the calendar fields of a civil time give: the year and the
    /// day of the year as they are, the tenth of a second from the
    /// nanoseconds, and the day of the week counted from Sunday as one.
    pub fn from_fields(
        year: i16,
        month: i8,
        day: i8,
        hour: i8,
        minute: i8,
        second: i8,
        subsec_nanosecond: i32,
        day_of_week: i8,
        day_of_year: i16,
    ) -> (r: Self)
        requires
            0 <= subsec_nanosecond <= 999_999_999,
        ensures
            r.year == year as u16,
            r.month == month as u8,
            r.day == day as u8,
            r.hour == hour as u8,
            r.minute == minute as u8,
            r.second == second as u8,
            r.tenth_of_second == subsec_nanosecond / 100_000_000,
            r.day_of_week == day_of_week as u8,
            r.day_of_year == day_of_year as u16,
    {
        GRiDDate {
            year: year as u16,
            month: month as u8,
            day: day as u8,
            hour: hour as u8,
            minute: minute as u8,
            second: second as u8,
            tenth_of_second: (subsec_nanosecond / 100_000_000) as u8,
            day_of_week: day_of_week as u8,
            day_of_year: day_of_year as u16,
        }
    }

    /// The eleven bytes of the date.
    pub fn to_bytes(&self) -> (r: [u8; 11])
        ensures
            r@ == spec_date_bytes(*self),
    {
        let y = u16_to_le(self.year);
        let d = u16_to_le(self.day_of_year);
        let r = [
            y[0],
            y[1],
            self.month,
            self.day,
            self.hour,
            self.minute,
            self.second,
            self.tenth_of_second,
            self.day_of_week,
            d[0],
            d[1],
        ];
        assert(r@ =~= spec_date_bytes(*self));
        r
    }

    /// The date eleven bytes hold; every value is taken as it is.
    pub fn from_bytes(b: &[u8; 11]) -> (r: Self)
        ensures
            r == spec_date_from(b@),
    {
        GRiDDate {
            year: u16_from_le(b[0], b[1]),
            month: b[2],
            day: b[3],
            hour: b[4],
            minute: b[5],
            second: b[6],
            tenth_of_second: b[7],
            day_of_week: b[8],
            day_of_year: u16_from_le(b[9], b[10]),
        }
    }
}

/// Writing a date and reading it back gives the same date.
pub proof fn lemma_date_roundtrip(d: GRiDDate)
    ensures
        spec_date_from(spec_date_bytes(d)) == d,
{
    crate::bytes::lemma_u16_le_roundtrip(d.year);
    crate::bytes::lemma_u16_le_roundtrip(d.day_of_year);
}

/// Reading eleven bytes as a date and writing it gives the same bytes.
pub proof fn lemma_bytes_roundtrip(b: Seq<u8>)
    requires
        b.len() == DATE_LENGTH,
    ensures
        spec_date_bytes(spec_date_from(b)) == b,
{
    crate::bytes::lemma_u16_le_bytes_roundtrip(b[0], b[1]);
    crate::bytes::lemma_u16_le_bytes_roundtrip(b[9], b[10]);
    assert(spec_date_bytes(spec_date_from(b)) =~= b);
}

} // verus!
