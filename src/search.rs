use vstd::prelude::*;
use vstd::string::*;
use crate::listing::contains_text;
use crate::text::{opt_str_view, parse_i32, parsed_i32};

verus! {

/// The leftmost run of decimal digits in a text, as the pattern `\d+` finds it.
pub uninterp spec fn number_match_of(s: Seq<char>) -> Option<Seq<char>>;

/// Unicode White_Space, the set that `char::is_whitespace` and `str::trim` use.
pub open spec fn is_white_space(c: char) -> bool {
    ('\u{9}' <= c && c <= '\u{d}') || c == ' ' || c == '\u{85}' || c == '\u{a0}' || c
        == '\u{1680}' || ('\u{2000}' <= c && c <= '\u{200a}') || c == '\u{2028}' || c == '\u{2029}'
        || c == '\u{202f}' || c == '\u{205f}' || c == '\u{3000}'
}

/// `s` without its leading white space.
pub open spec fn trim_start(s: Seq<char>) -> Seq<char>
    decreases s.len(),
{
    if s.len() > 0 && is_white_space(s[0]) {
        trim_start(s.drop_first())
    } else {
        s
    }
}

/// `s` without its trailing white space.
pub open spec fn trim_end(s: Seq<char>) -> Seq<char>
    decreases s.len(),
{
    if s.len() > 0 && is_white_space(s.last()) {
        trim_end(s.drop_last())
    } else {
        s
    }
}

/// A text without its leading and trailing white space.
pub open spec fn trimmed_of(s: Seq<char>) -> Seq<char> {
    trim_end(trim_start(s))
}

fn white_space(c: char) -> (r: bool)
    ensures
        r == is_white_space(c),
{
    ('\u{9}' <= c && c <= '\u{d}') || c == ' ' || c == '\u{85}' || c == '\u{a0}' || c
        == '\u{1680}' || ('\u{2000}' <= c && c <= '\u{200a}') || c == '\u{2028}' || c == '\u{2029}'
        || c == '\u{202f}' || c == '\u{205f}' || c == '\u{3000}'
}

/// Relies on regex: `Regex::new(r"\d+")` compiles (the pattern is fixed and
/// valid), and `find` returns the leftmost-first match, which depends on the text alone.
#[verifier::external_body]
fn first_number(s: &str) -> (r: Option<String>)
    ensures
        opt_str_view(r) == number_match_of(s@),
{
    regex::Regex::new(r"\d+").unwrap().find(s).map(|m| m.as_str().to_string())
}

/// Drop leading and trailing white space, as `str::trim` does.
pub fn trim_text(s: &str) -> (r: String)
    ensures
        r@ == trimmed_of(s@),
{
    let n = s.unicode_len();
    let mut lo: usize = 0;
    assert(s@.subrange(0, n as int) =~= s@);
    while lo < n && white_space(s.get_char(lo))
        invariant
            n == s@.len(),
            lo <= n,
            trim_start(s@) == trim_start(s@.subrange(lo as int, n as int)),
        decreases n - lo,
    {
        assert(s@.subrange(lo as int, n as int).drop_first() =~= s@.subrange(lo + 1, n as int));
        lo = lo + 1;
    }
    let ghost front = s@.subrange(lo as int, n as int);
    assert(trim_start(front) == front);
    let mut hi: usize = n;
    assert(front =~= s@.subrange(lo as int, hi as int));
    while hi > lo && white_space(s.get_char(hi - 1))
        invariant
            n == s@.len(),
            lo <= hi <= n,
            front == s@.subrange(lo as int, n as int),
            trim_end(front) == trim_end(s@.subrange(lo as int, hi as int)),
        decreases hi - lo,
    {
        assert(s@.subrange(lo as int, hi as int).drop_last() =~= s@.subrange(lo as int, hi - 1));
        hi = hi - 1;
    }
    assert(trim_end(s@.subrange(lo as int, hi as int)) == s@.subrange(lo as int, hi as int));
    String::from_str(s.substring_char(lo, hi))
}

/// `needle` starts at `i` in `hay`, and nowhere before.
pub open spec fn first_at(hay: Seq<char>, needle: Seq<char>, i: int) -> bool {
    &&& 0 <= i && i + needle.len() <= hay.len()
    &&& hay.subrange(i, i + needle.len()) == needle
    &&& forall|j: int|
        0 <= j < i ==> #[trigger] hay.subrange(j, j + needle.len()) != needle
}

/// `hay` with the first occurrence of `needle` taken out, if there is one.
pub open spec fn without_first(hay: Seq<char>, needle: Seq<char>) -> Seq<char> {
    if exists|i: int| first_at(hay, needle, i) {
        let i = choose|i: int| first_at(hay, needle, i);
        hay.subrange(0, i) + hay.subrange(i + needle.len(), hay.len() as int)
    } else {
        hay
    }
}

/// Where `needle` first occurs in `hay`.
pub fn find_text(hay: &str, needle: &str) -> (r: Option<usize>)
    ensures
        r matches Some(i) ==> first_at(hay@, needle@, i as int),
        r is None ==> !contains_text(hay@, needle@),
{
    let n = hay.unicode_len();
    let m = needle.unicode_len();
    if m > n {
        return None;
    }
    let mut i: usize = 0;
    while i <= n - m
        invariant
            n == hay@.len(),
            m == needle@.len(),
            m <= n,
            i <= n - m + 1,
            forall|a: int| 0 <= a < i ==> #[trigger] hay@.subrange(a, a + m) != needle@,
        decreases n - m + 1 - i,
    {
        let mut j: usize = 0;
        let mut same = true;
        while j < m
            invariant
                n == hay@.len(),
                m == needle@.len(),
                i + m <= n,
                j <= m,
                same == (forall|b: int| 0 <= b < j ==> hay@[i + b] == needle@[b]),
            decreases m - j,
        {
            if hay.get_char(i + j) != needle.get_char(j) {
                same = false;
            }
            j = j + 1;
        }
        if same {
            assert(hay@.subrange(i as int, i + m) =~= needle@);
            return Some(i);
        }
        assert(hay@.subrange(i as int, i + m) != needle@) by {
            let b = choose|b: int| 0 <= b < m && hay@[i + b] != needle@[b];
            assert(hay@.subrange(i as int, i + m)[b] == hay@[i + b]);
        }
        i = i + 1;
    }
    None
}

/// Take out the first occurrence of `needle`, as `replacen(needle, "", 1)` does.
pub fn remove_first(hay: &str, needle: &str) -> (r: String)
    ensures
        r@ == without_first(hay@, needle@),
{
    match find_text(hay, needle) {
        Some(i) => {
            proof {
                let c = choose|c: int| first_at(hay@, needle@, c);
                if c < i {
                    assert(hay@.subrange(c, c + needle@.len()) == needle@);
                } else if i < c {
                    assert(hay@.subrange(i as int, i + needle@.len()) == needle@);
                }
                assert(c == i);
            }
            let m = needle.unicode_len();
            let n = hay.unicode_len();
            let mut r = String::from_str(hay.substring_char(0, i));
            r.append(hay.substring_char(i + m, n));
            r
        },
        None => {
            proof {
                if exists|i: int| first_at(hay@, needle@, i) {
                    let c = choose|c: int| first_at(hay@, needle@, c);
                    assert(hay@.subrange(c, c + needle@.len()) == needle@);
                }
            }
            String::from_str(hay)
        },
    }
}

/// The number and the rest of a search input, given the input's first run of
/// digits: the run's value and the trimmed text without it, or, where there is
/// no run or it does not fit an `i32`, no number and the trimmed input.
pub open spec fn separated(s: Seq<char>, run: Option<Seq<char>>) -> (Option<i32>, Seq<char>) {
    match run {
        Some(d) => match parsed_i32(d) {
            Some(n) => (Some(n), trimmed_of(without_first(s, d))),
            None => (None, trimmed_of(s)),
        },
        None => (None, trimmed_of(s)),
    }
}

/// Split a search input at `run`, its first run of digits.
pub fn separate_at(s: &str, run: Option<String>) -> (r: (Option<i32>, String))
    ensures
        (r.0, r.1@) == separated(s@, opt_str_view(run)),
{
    match run {
        Some(d) => match parse_i32(d.as_str()) {
            Some(n) => {
                let rest = remove_first(s, d.as_str());
                (Some(n), trim_text(rest.as_str()))
            },
            None => (None, trim_text(s)),
        },
        None => (None, trim_text(s)),
    }
}

/// Split a search input into its first number and the rest of its text.
pub fn separate_number_and_text(s: &str) -> (r: (Option<i32>, String))
    ensures
        (r.0, r.1@) == separated(s@, number_match_of(s@)),
{
    let run = first_number(s);
    separate_at(s, run)
}

} // verus!

verus! {

/// The fields of `s` between commas, as `str::split(',')` yields them.
pub open spec fn comma_fields(s: Seq<char>) -> Seq<Seq<char>>
    decreases s.len(),
{
    if s.len() == 0 {
        seq![Seq::<char>::empty()]
    } else {
        let prev = comma_fields(s.drop_last());
        if s.last() == ',' {
            prev.push(Seq::<char>::empty())
        } else {
            prev.update(prev.len() - 1, prev.last().push(s.last()))
        }
    }
}

/// Every field is an `i32` numeral.
pub open spec fn all_ids(fields: Seq<Seq<char>>) -> bool {
    forall|k: int| 0 <= k < fields.len() ==> (#[trigger] parsed_i32(fields[k])) is Some
}

/// A list of proposal ids given as `1,2,3`.
pub struct ProposalIds(pub Vec<i32>);

impl ProposalIds {
    /// Read comma-separated ids; none unless every field is an `i32` numeral.
    pub fn from_param(param: &str) -> (r: Option<ProposalIds>)
        ensures
            r is Some <==> all_ids(comma_fields(param@)),
            r matches Some(ids) ==> ids.0@.len() == comma_fields(param@).len() && forall|k: int|
                0 <= k < ids.0@.len() ==> Some(#[trigger] ids.0@[k]) == parsed_i32(
                    comma_fields(param@)[k],
                ),
    {
        let n = param.unicode_len();
        let mut fields: Vec<String> = Vec::new();
        fields.push(String::new());
        let mut i: usize = 0;
        proof {
            assert(param@.subrange(0, 0) =~= Seq::<char>::empty());
            assert(crate::text::strs_view(fields) =~= comma_fields(param@.subrange(0, 0)));
        }
        while i < n
            invariant
                n == param@.len(),
                i <= n,
                fields@.len() > 0,
                crate::text::strs_view(fields) == comma_fields(param@.subrange(0, i as int)),
            decreases n - i,
        {
            let c = param.get_char(i);
            let ghost pre = param@.subrange(0, i as int);
            proof {
                assert(param@.subrange(0, i + 1).drop_last() =~= pre);
                assert(param@.subrange(0, i + 1).last() == c);
            }
            if c == ',' {
                fields.push(String::new());
                assert(crate::text::strs_view(fields) =~= comma_fields(param@.subrange(0, i + 1)));
            } else {
                let last = fields.len() - 1;
                let mut cur = fields.remove(last);
                crate::rpc::push_char(&mut cur, c);
                fields.push(cur);
                assert(crate::text::strs_view(fields) =~= comma_fields(param@.subrange(0, i + 1)));
            }
            i = i + 1;
        }
        assert(param@.subrange(0, n as int) =~= param@);
        let ghost fv = comma_fields(param@);
        assert(fv.len() == fields@.len());
        let mut ids: Vec<i32> = Vec::new();
        let mut k: usize = 0;
        while k < fields.len()
            invariant
                fv == comma_fields(param@),
                crate::text::strs_view(fields) == fv,
                fv.len() == fields@.len(),
                k <= fields@.len(),
                ids@.len() == k,
                forall|j: int| 0 <= j < k ==> Some(#[trigger] ids@[j]) == parsed_i32(fv[j]),
            decreases fields@.len() - k,
        {
            assert(fv[k as int] == fields@[k as int]@);
            match parse_i32(fields[k].as_str()) {
                Some(v) => ids.push(v),
                None => {
                    assert(!all_ids(fv)) by {
                        assert(parsed_i32(fv[k as int]) is None);
                    }
                    return None;
                },
            }
            k = k + 1;
        }
        assert(all_ids(fv)) by {
            assert forall|j: int| 0 <= j < fv.len() implies (#[trigger] parsed_i32(fv[j])) is Some by {
                assert(Some(ids@[j]) == parsed_i32(fv[j]));
            }
        }
        Some(ProposalIds(ids))
    }
}

} // verus!
