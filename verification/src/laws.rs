use vstd::prelude::*;

use crate::calendar::{day_ok, spec_is_leap_year};
use crate::split::{lemma_split_at_first, lemma_split_whole, split_slash};
use crate::text::{
    dec_digits, is_digit, lemma_dec_digits_val, lemma_pad_val, lemma_u32_of_dec_digits, pad2,
    pad4, str_val, u32_of_str,
};
use crate::ymd::{
    day_number_of, diff_message, iso_date, magnitude, parse_spec, weekday_name, year_of_str,
    ParseOutcome, Ymd,
};

verus! {

/// A (month, day, year) triple written out as `M/D/Y`, each number in
/// plain decimal.
pub open spec fn render_input(m: u32, d: u32, y: u32) -> Seq<char> {
    dec_digits(m as nat) + seq!['/'] + dec_digits(d as nat) + seq!['/'] + dec_digits(y as nat)
}

/// Law: parsing and reporting round-trip.  Any valid (month, day, year)
/// triple, written out as `M/D/Y`, parses back to exactly that date,
/// whatever today is; and the date the report prints for it shows the
/// same numbers: its `YYYY-MM-DD` part is the zero-padded rendering of
/// the triple, whose fields read back as the very month, day and year.
pub proof fn lemma_parse_report_round_trip(m: u32, d: u32, y: u32, today: Ymd)
    requires
        1 <= m <= 12,
        day_ok(m as int, d as int, spec_is_leap_year(y as int)),
        y <= i32::MAX as u32,
    ensures
        parse_spec(render_input(m, d, y), today) == (ParseOutcome::Parsed {
            year: y as i32,
            month: m,
            day: d,
        }),
        iso_date(Ymd { year: y as i32, month: m, day: d }) == pad4(y as nat) + "-"@ + pad2(
            m as nat,
        ) + "-"@ + pad2(d as nat),
        str_val(pad4(y as nat)) == y,
        str_val(pad2(m as nat)) == m,
        str_val(pad2(d as nat)) == d,
{
    let a = dec_digits(m as nat);
    let b = dec_digits(d as nat);
    let c = dec_digits(y as nat);
    let s = render_input(m, d, y);
    lemma_dec_digits_val(m as nat);
    lemma_dec_digits_val(d as nat);
    lemma_dec_digits_val(y as nat);
    let i1 = a.len() as int;
    assert(forall|j: int| 0 <= j < i1 ==> s[j] == a[j]);
    assert(forall|j: int| 0 <= j < i1 ==> #[trigger] s[j] != '/') by {
        assert(forall|j: int| 0 <= j < a.len() ==> is_digit(#[trigger] a[j]));
    }
    assert(s[i1] == '/');
    lemma_split_at_first(s, i1);
    let s2 = b + seq!['/'] + c;
    assert(s.take(i1) =~= a);
    assert(s.skip(i1 + 1) =~= s2);
    let i2 = b.len() as int;
    assert(forall|j: int| 0 <= j < i2 ==> s2[j] == b[j]);
    assert(forall|j: int| 0 <= j < i2 ==> #[trigger] s2[j] != '/') by {
        assert(forall|j: int| 0 <= j < b.len() ==> is_digit(#[trigger] b[j]));
    }
    assert(s2[i2] == '/');
    lemma_split_at_first(s2, i2);
    assert(s2.take(i2) =~= b);
    assert(s2.skip(i2 + 1) =~= c);
    assert(forall|j: int| 0 <= j < c.len() ==> #[trigger] c[j] != '/') by {
        assert(forall|j: int| 0 <= j < c.len() ==> is_digit(#[trigger] c[j]));
    }
    lemma_split_whole(c);
    let parts = split_slash(s);
    assert(parts =~= seq![a, b, c]);
    lemma_u32_of_dec_digits(m);
    lemma_u32_of_dec_digits(d);
    lemma_u32_of_dec_digits(y);
    assert(u32_of_str(parts[0]) == Some(m));
    assert(u32_of_str(parts[1]) == Some(d));
    assert(year_of_str(parts[2]) == Some(y as i32));
    lemma_pad_val(y as nat);
    lemma_pad_val(m as nat);
    lemma_pad_val(d as nat);
}

/// Law: direction phrasing.  A strictly positive offset is announced
/// with "days left until" and printed as itself; an offset of zero or
/// below is announced with "days has passed since" and printed negated,
/// so the printed number is never negative.
pub proof fn lemma_direction_phrase(offset: int, date: Ymd)
    ensures
        magnitude(offset) >= 0,
        offset > 0 ==> diff_message(offset, date) == dec_digits(offset as nat) + " "@
            + "days left until"@ + " "@ + iso_date(date) + ", "@ + weekday_name(
            (day_number_of(date) - 1) % 7,
        ) + "."@,
        offset <= 0 ==> diff_message(offset, date) == dec_digits((-offset) as nat) + " "@
            + "days has passed since"@ + " "@ + iso_date(date) + ", "@ + weekday_name(
            (day_number_of(date) - 1) % 7,
        ) + "."@,
{
}

} // verus!
