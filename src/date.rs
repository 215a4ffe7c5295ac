use vstd::prelude::*;
use vstd::string::*;
use chrono::Datelike;
use crate::text::append_int;

verus! {

/// The UTC calendar date `(year, month, day)` of an instant given in
/// nanoseconds since the Unix epoch.
pub uninterp spec fn civil_date_of(nanos: int) -> (int, int, int);

/// Relies on chrono's `DateTime::from_timestamp_nanos`, which is defined on
/// every `i64` and covers 1677-09-21 to 2262-04-11, and on `Datelike`'s
/// `year`, `month` (1 to 12) and `day` (1 to 31).
#[verifier::external_body]
fn civil_date(nanos: i64) -> (r: (i32, u32, u32))
    ensures
        r.0 as int == civil_date_of(nanos as int).0,
        r.1 as int == civil_date_of(nanos as int).1,
        r.2 as int == civil_date_of(nanos as int).2,
        1677 <= r.0 <= 2262,
        1 <= r.1 <= 12,
        1 <= r.2 <= 31,
{
    let d = chrono::DateTime::from_timestamp_nanos(nanos);
    (d.year(), d.month(), d.day())
}

/// A number of at most `width` digits, zero-padded on the left to `width`.
pub open spec fn padded(n: nat, width: nat) -> Seq<char> {
    Seq::new((width - nat_len(n)) as nat, |i: int| '0') + crate::text::nat_text(n)
}

/// The number of decimal digits of `n`.
pub open spec fn nat_len(n: nat) -> nat {
    crate::text::nat_text(n).len()
}

/// A date written as `YYYY-MM-DD`.
pub open spec fn date_text(year: nat, month: nat, day: nat) -> Seq<char> {
    padded(year, 4) + "-"@ + padded(month, 2) + "-"@ + padded(day, 2)
}

proof fn lemma_nat_text_len(n: nat)
    ensures
        n < 10 ==> crate::text::nat_text(n).len() == 1,
        10 <= n < 100 ==> crate::text::nat_text(n).len() == 2,
        1000 <= n < 10000 ==> crate::text::nat_text(n).len() == 4,
{
    if n >= 10 {
        if n < 100 {
            assert(crate::text::nat_text(n / 10).len() == 1);
        } else if 1000 <= n && n < 10000 {
            assert(100 <= n / 10 < 1000);
            assert(10 <= n / 100 < 100);
            assert(1 <= n / 1000 < 10);
            assert((n / 10) / 10 == n / 100) by (nonlinear_arith)
                requires
                    n >= 0,
            ;
            assert((n / 100) / 10 == n / 1000) by (nonlinear_arith)
                requires
                    n >= 0,
            ;
            assert(crate::text::nat_text(n / 1000).len() == 1);
            assert(crate::text::nat_text(n / 100).len() == 2);
            assert(crate::text::nat_text(n / 10).len() == 3);
        }
    }
}

fn append_two_digits(s: &mut String, n: u32)
    requires
        n < 100,
    ensures
        final(s)@ == old(s)@ + padded(n as nat, 2),
{
    proof {
        lemma_nat_text_len(n as nat);
        reveal_strlit("0");
    }
    if n < 10 {
        s.append("0");
        append_int(s, n as i64);
        assert(Seq::new(1, |i: int| '0') =~= "0"@);
    } else {
        append_int(s, n as i64);
        assert(Seq::new(0, |i: int| '0') =~= Seq::<char>::empty());
    }
    assert(final(s)@ =~= old(s)@ + padded(n as nat, 2));
}

/// Write a calendar date as `YYYY-MM-DD`.
pub fn format_date(year: i32, month: u32, day: u32) -> (r: String)
    requires
        1000 <= year <= 9999,
        1 <= month <= 12,
        1 <= day <= 31,
    ensures
        r@ == date_text(year as nat, month as nat, day as nat),
{
    let mut r = String::new();
    proof {
        lemma_nat_text_len(year as nat);
    }
    append_int(&mut r, year as i64);
    assert(Seq::new(0, |i: int| '0') =~= Seq::<char>::empty());
    assert(r@ =~= padded(year as nat, 4));
    r.append("-");
    append_two_digits(&mut r, month);
    r.append("-");
    append_two_digits(&mut r, day);
    r
}

/// The UTC date of an instant in nanoseconds, as `YYYY-MM-DD`.
pub fn timestamp_to_date_string(timestamp: i64) -> (r: String)
    ensures
        ({
            let (y, m, d) = civil_date_of(timestamp as int);
            r@ == date_text(y as nat, m as nat, d as nat)
        }),
{
    let (y, m, d) = civil_date(timestamp);
    format_date(y, m, d)
}

} // verus!
