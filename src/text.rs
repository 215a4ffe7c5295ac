use vstd::prelude::*;

verus! {

/// The view of an optional string.
pub open spec fn opt_str_view(o: Option<String>) -> Option<Seq<char>> {
    match o {
        Some(s) => Some(s@),
        None => None,
    }
}

/// The view of a list of strings.
pub open spec fn strs_view(v: Vec<String>) -> Seq<Seq<char>> {
    v@.map_values(|s: String| s@)
}

/// The view of an optional list of ids.
pub open spec fn opt_ids_view(o: Option<Vec<i32>>) -> Option<Seq<i32>> {
    match o {
        Some(v) => Some(v@),
        None => None,
    }
}

pub fn copy_opt_string(o: &Option<String>) -> (r: Option<String>)
    ensures
        opt_str_view(r) == opt_str_view(*o),
{
    match o {
        Some(s) => Some(s.clone()),
        None => None,
    }
}

pub fn copy_strings(v: &Vec<String>) -> (r: Vec<String>)
    ensures
        strs_view(r) == strs_view(*v),
{
    let mut r: Vec<String> = Vec::new();
    let mut i: usize = 0;
    while i < v.len()
        invariant
            i <= v@.len(),
            r@.len() == i,
            forall|j: int| 0 <= j < i ==> #[trigger] r@[j]@ == v@[j]@,
        decreases v@.len() - i,
    {
        r.push(v[i].clone());
        i = i + 1;
    }
    assert(strs_view(r) =~= strs_view(*v));
    r
}

pub fn copy_ids(v: &Vec<i32>) -> (r: Vec<i32>)
    ensures
        r@ == v@,
{
    let mut r: Vec<i32> = Vec::new();
    let mut i: usize = 0;
    while i < v.len()
        invariant
            i <= v@.len(),
            r@ == v@.subrange(0, i as int),
        decreases v@.len() - i,
    {
        r.push(v[i]);
        i = i + 1;
    }
    assert(r@ =~= v@);
    r
}

pub fn copy_opt_ids(o: &Option<Vec<i32>>) -> (r: Option<Vec<i32>>)
    ensures
        opt_ids_view(r) == opt_ids_view(*o),
{
    match o {
        Some(v) => Some(copy_ids(v)),
        None => None,
    }
}

} // verus!

verus! {

pub open spec fn is_digit(c: char) -> bool {
    '0' <= c && c <= '9'
}

pub open spec fn all_digits(s: Seq<char>) -> bool {
    s.len() > 0 && forall|i: int| 0 <= i < s.len() ==> is_digit(#[trigger] s[i])
}

/// The value of a run of decimal digits.
pub open spec fn digits_value(s: Seq<char>) -> int
    decreases s.len(),
{
    if s.len() == 0 {
        0
    } else {
        digits_value(s.drop_last()) * 10 + (s.last() as int - '0' as int)
    }
}

/// The value of an optionally signed decimal numeral, without bound.
pub open spec fn signed_decimal(s: Seq<char>) -> Option<int> {
    if s.len() > 0 && s[0] == '-' && all_digits(s.drop_first()) {
        Some(-digits_value(s.drop_first()))
    } else if s.len() > 0 && s[0] == '+' && all_digits(s.drop_first()) {
        Some(digits_value(s.drop_first()))
    } else if all_digits(s) {
        Some(digits_value(s))
    } else {
        None
    }
}

/// What `s` denotes as an `i64`: none where it is no numeral or out of range.
pub open spec fn parsed_i64(s: Seq<char>) -> Option<i64> {
    match signed_decimal(s) {
        Some(v) => if i64::MIN <= v <= i64::MAX {
            Some(v as i64)
        } else {
            None
        },
        None => None,
    }
}

/// What `s` denotes as an `i32`: none where it is no numeral or out of range.
pub open spec fn parsed_i32(s: Seq<char>) -> Option<i32> {
    match signed_decimal(s) {
        Some(v) => if i32::MIN <= v <= i32::MAX {
            Some(v as i32)
        } else {
            None
        },
        None => None,
    }
}

/// Beyond this magnitude no `i64` or `i32` lies.
pub const DECIMAL_CAP: i128 = 9_223_372_036_854_775_808;

proof fn lemma_digits_value_nonneg(s: Seq<char>)
    requires
        forall|i: int| 0 <= i < s.len() ==> is_digit(#[trigger] s[i]),
    ensures
        digits_value(s) >= 0,
    decreases s.len(),
{
    if s.len() > 0 {
        lemma_digits_value_nonneg(s.drop_last());
    }
}

/// The value of the digits of `s` from `start` on, held at one past
/// `DECIMAL_CAP`; none unless they are one or more ASCII digits.
fn digits_capped(s: &str, start: usize) -> (r: Option<i128>)
    requires
        start <= s@.len(),
    ensures
        r is Some <==> all_digits(s@.subrange(start as int, s@.len() as int)),
        r matches Some(x) ==> 0 <= x <= DECIMAL_CAP + 1,
        r matches Some(x) ==> {
            let v = digits_value(s@.subrange(start as int, s@.len() as int));
            (v <= DECIMAL_CAP && x == v) || (v > DECIMAL_CAP && x == DECIMAL_CAP + 1)
        },
{
    let n = s.unicode_len();
    if start == n {
        return None;
    }
    let ghost body = s@.subrange(start as int, n as int);
    let mut acc: i128 = 0;
    let mut over = false;
    let mut i: usize = start;
    assert(body.subrange(0, 0) =~= Seq::<char>::empty());
    while i < n
        invariant
            n == s@.len(),
            start < n,
            start <= i <= n,
            body == s@.subrange(start as int, n as int),
            forall|k: int| 0 <= k < i - start ==> is_digit(#[trigger] body[k]),
            !over ==> 0 <= acc <= DECIMAL_CAP && acc == digits_value(body.subrange(0, i - start)),
            over ==> acc == DECIMAL_CAP + 1 && digits_value(body.subrange(0, i - start))
                > DECIMAL_CAP,
        decreases n - i,
    {
        let c = s.get_char(i);
        if !('0' <= c && c <= '9') {
            assert(!is_digit(body[i - start]));
            return None;
        }
        let ghost pre = body.subrange(0, i - start);
        let ghost next = body.subrange(0, i - start + 1);
        proof {
            assert(next.drop_last() =~= pre);
            assert(next.last() == c);
            assert(digits_value(next) == digits_value(pre) * 10 + (c as int - '0' as int));
            lemma_digits_value_nonneg(pre);
        }
        if !over {
            acc = acc * 10 + (c as u32 - '0' as u32) as i128;
            if acc > DECIMAL_CAP {
                over = true;
                acc = DECIMAL_CAP + 1;
            }
        } else {
            proof {
                assert(digits_value(next) >= digits_value(pre) * 10) by (nonlinear_arith)
                    requires
                        digits_value(next) == digits_value(pre) * 10 + (c as int - '0' as int),
                        '0' <= c,
                ;
                assert(digits_value(pre) * 10 >= digits_value(pre)) by (nonlinear_arith)
                    requires
                        digits_value(pre) >= 0,
                ;
            }
        }
        i = i + 1;
    }
    assert(body.subrange(0, n - start) =~= body);
    Some(acc)
}

/// The value of an optionally signed numeral, held at one past `DECIMAL_CAP`
/// either way; none where `s` is no numeral.
fn signed_capped(s: &str) -> (r: Option<i128>)
    ensures
        r is Some <==> signed_decimal(s@) is Some,
        r matches Some(x) ==> {
            let v = signed_decimal(s@)->0;
            (-DECIMAL_CAP <= v <= DECIMAL_CAP && x == v) || (v > DECIMAL_CAP && x > DECIMAL_CAP) || (
            v < -DECIMAL_CAP && x < -DECIMAL_CAP)
        },
{
    let n = s.unicode_len();
    proof {
        assert(s@.subrange(0, s@.len() as int) =~= s@);
        if s@.len() > 0 {
            assert(s@.subrange(1, s@.len() as int) =~= s@.drop_first());
        }
    }
    if n > 0 && (s.get_char(0) == '-' || s.get_char(0) == '+') {
        let neg = s.get_char(0) == '-';
        match digits_capped(s, 1) {
            Some(x) => if neg {
                Some(-x)
            } else {
                Some(x)
            },
            None => {
                proof {
                    if all_digits(s@) {
                        assert(is_digit(s@[0]));
                    }
                }
                None
            },
        }
    } else {
        digits_capped(s, 0)
    }
}

/// Read an `i64` as `<i64 as FromStr>::from_str` does: an optional `+` or `-`,
/// then one or more ASCII digits, whose value fits.
pub fn parse_i64(s: &str) -> (r: Option<i64>)
    ensures
        r == parsed_i64(s@),
{
    match signed_capped(s) {
        Some(x) => if i64::MIN as i128 <= x && x <= i64::MAX as i128 {
            Some(x as i64)
        } else {
            None
        },
        None => None,
    }
}

/// Read an `i32` as `<i32 as FromStr>::from_str` does: an optional `+` or `-`,
/// then one or more ASCII digits, whose value fits.
pub fn parse_i32(s: &str) -> (r: Option<i32>)
    ensures
        r == parsed_i32(s@),
{
    match signed_capped(s) {
        Some(x) => if i32::MIN as i128 <= x && x <= i32::MAX as i128 {
            Some(x as i32)
        } else {
            None
        },
        None => None,
    }
}

} // verus!

verus! {

/// The decimal digit `d` as a character.
pub open spec fn digit_char(d: int) -> char {
    (('0' as int) + d) as char
}

/// The decimal numeral of a natural number, without leading zeros.
pub open spec fn nat_text(n: nat) -> Seq<char>
    decreases n,
{
    if n < 10 {
        seq![digit_char(n as int)]
    } else {
        nat_text(n / 10) + seq![digit_char((n % 10) as int)]
    }
}

/// The decimal numeral of an integer, with a leading `-` when negative.
pub open spec fn int_text(n: int) -> Seq<char> {
    if n < 0 {
        seq!['-'] + nat_text((-n) as nat)
    } else {
        nat_text(n as nat)
    }
}

fn digit_str(d: u64) -> (r: &'static str)
    requires
        d < 10,
    ensures
        r@ == seq![digit_char(d as int)],
{
    proof {
        reveal_strlit("0");
        reveal_strlit("1");
        reveal_strlit("2");
        reveal_strlit("3");
        reveal_strlit("4");
        reveal_strlit("5");
        reveal_strlit("6");
        reveal_strlit("7");
        reveal_strlit("8");
        reveal_strlit("9");
    }
    let r = if d == 0 {
        "0"
    } else if d == 1 {
        "1"
    } else if d == 2 {
        "2"
    } else if d == 3 {
        "3"
    } else if d == 4 {
        "4"
    } else if d == 5 {
        "5"
    } else if d == 6 {
        "6"
    } else if d == 7 {
        "7"
    } else if d == 8 {
        "8"
    } else {
        "9"
    };
    assert(r@ =~= seq![digit_char(d as int)]);
    r
}

fn append_nat(s: &mut String, n: u64)
    ensures
        final(s)@ == old(s)@ + nat_text(n as nat),
    decreases n,
{
    if n >= 10 {
        append_nat(s, n / 10);
    }
    s.append(digit_str(n % 10));
    assert(final(s)@ =~= old(s)@ + nat_text(n as nat)) by {
        if n >= 10 {
            assert(nat_text(n as nat) == nat_text((n / 10) as nat) + seq![digit_char((n % 10) as int)]);
        }
    }
}

/// Append the decimal numeral of `n`.
pub fn append_int(s: &mut String, n: i64)
    ensures
        final(s)@ == old(s)@ + int_text(n as int),
{
    if n < 0 {
        s.append("-");
        proof {
            reveal_strlit("-");
        }
        let m: u64 = (-(n as i128)) as u64;
        append_nat(s, m);
        assert(final(s)@ =~= old(s)@ + int_text(n as int));
    } else {
        append_nat(s, n as u64);
    }
}

} // verus!
