//! A calendar date modelled as plain year/month/day values, with validity,
//! day arithmetic and `YYYY-MM-DD` formatting and checking.

use vstd::prelude::*;
use crate::text::{chars_vec, string_from_chars, trimmed};
use crate::util::{dec_str, u64_zero_padded, zero_padded};

verus! {

pub open spec fn is_leap_year(y: int) -> bool {
    y % 4 == 0 && (y % 100 != 0 || y % 400 == 0)
}

pub open spec fn days_in_month(y: int, m: int) -> int {
    if m == 2 {
        if is_leap_year(y) {
            29
        } else {
            28
        }
    } else if m == 4 || m == 6 || m == 9 || m == 11 {
        30
    } else {
        31
    }
}

/// A real proleptic Gregorian date.
pub open spec fn valid_ymd(y: int, m: int, d: int) -> bool {
    1 <= m <= 12 && 1 <= d <= days_in_month(y, m)
}

/// The value of a decimal digit character.
pub open spec fn digit_val(c: char) -> int {
    c as int - 48
}

pub open spec fn is_digit_char(c: char) -> bool {
    '0' <= c && c <= '9'
}

/// The sequence spells a valid `YYYY-MM-DD` date.
pub open spec fn valid_date_seq(s: Seq<char>) -> bool {
    s.len() == 10 && is_digit_char(s[0]) && is_digit_char(s[1]) && is_digit_char(s[2])
        && is_digit_char(s[3]) && s[4] == '-' && is_digit_char(s[5]) && is_digit_char(s[6])
        && s[7] == '-' && is_digit_char(s[8]) && is_digit_char(s[9]) && valid_ymd(
        date_seq_year(s),
        date_seq_month(s),
        date_seq_day(s),
    )
}

pub open spec fn date_seq_year(s: Seq<char>) -> int {
    1000 * digit_val(s[0]) + 100 * digit_val(s[1]) + 10 * digit_val(s[2]) + digit_val(s[3])
}

pub open spec fn date_seq_month(s: Seq<char>) -> int {
    10 * digit_val(s[5]) + digit_val(s[6])
}

pub open spec fn date_seq_day(s: Seq<char>) -> int {
    10 * digit_val(s[8]) + digit_val(s[9])
}

fn exec_days_in_month(y: u64, m: u64) -> (r: u64)
    ensures
        r == days_in_month(y as int, m as int),
{
    if m == 2 {
        if y % 4 == 0 && (y % 100 != 0 || y % 400 == 0) {
            29
        } else {
            28
        }
    } else if m == 4 || m == 6 || m == 9 || m == 11 {
        30
    } else {
        31
    }
}

fn digit_of(c: char) -> (r: Option<u64>)
    ensures
        r is Some <==> is_digit_char(c),
        r matches Some(d) ==> d == digit_val(c),
{
    let u = c as u32;
    if 48 <= u && u <= 57 {
        Some((u - 48) as u64)
    } else {
        None
    }
}

/// Checks that a character buffer spells a valid `YYYY-MM-DD` date.
pub fn is_valid_date_chars(v: &Vec<char>) -> (r: bool)
    ensures
        r == valid_date_seq(v@),
{
    if v.len() != 10 {
        return false;
    }
    if v[4] != '-' || v[7] != '-' {
        return false;
    }
    let d0 = digit_of(v[0]);
    let d1 = digit_of(v[1]);
    let d2 = digit_of(v[2]);
    let d3 = digit_of(v[3]);
    let d5 = digit_of(v[5]);
    let d6 = digit_of(v[6]);
    let d8 = digit_of(v[8]);
    let d9 = digit_of(v[9]);
    match (d0, d1, d2, d3, d5, d6, d8, d9) {
        (
            Some(a),
            Some(b),
            Some(c),
            Some(d),
            Some(e),
            Some(f),
            Some(g),
            Some(h),
        ) => {
            let y = 1000 * a + 100 * b + 10 * c + d;
            let m = 10 * e + f;
            let day = 10 * g + h;
            1 <= m && m <= 12 && 1 <= day && day <= exec_days_in_month(y, m)
        },
        _ => false,
    }
}

/// Checks that a string spells a valid `YYYY-MM-DD` date.
pub fn is_valid_date_str(s: &str) -> (r: bool)
    ensures
        r == valid_date_seq(s@),
{
    let v = chars_vec(s);
    is_valid_date_chars(&v)
}

/// The first ten characters of a timestamp, when they spell a valid date.
pub fn extract_day(value: &str) -> (r: Option<String>)
    ensures
        r is Some <==> (value@.len() >= 10 && valid_date_seq(value@.subrange(0, 10))),
        r matches Some(d) ==> d@ == value@.subrange(0, 10),
{
    let v = chars_vec(value);
    if v.len() < 10 {
        return None;
    }
    let day = crate::util::copy_range(&v, 0, 10);
    if is_valid_date_chars(&day) {
        Some(string_from_chars(&day))
    } else {
        None
    }
}

/// A date filter is kept only when, trimmed, it is a valid ten-character
/// `YYYY-MM-DD` date.
pub fn sanitize_date_filter(value: Option<String>) -> (r: Option<String>)
    ensures
        match value {
            None => r is None,
            Some(s) => {
                if valid_date_seq(trimmed(s@)) {
                    r matches Some(t) && t@ == trimmed(s@)
                } else {
                    r is None
                }
            },
        },
{
    match value {
        None => None,
        Some(s) => {
            let v = chars_vec(s.as_str());
            let t = crate::text::trim_chars(&v);
            if is_valid_date_chars(&t) {
                Some(string_from_chars(&t))
            } else {
                None
            }
        },
    }
}

/// The day after a date.
pub open spec fn next_ymd(y: int, m: int, d: int) -> (int, int, int) {
    if d < days_in_month(y, m) {
        (y, m, d + 1)
    } else if m < 12 {
        (y, m + 1, 1)
    } else {
        (y + 1, 1, 1)
    }
}

/// The date `n` days after `(y, m, d)`.
pub open spec fn plus_days(y: int, m: int, d: int, n: nat) -> (int, int, int)
    decreases n,
{
    if n == 0 {
        (y, m, d)
    } else {
        let t = next_ymd(y, m, d);
        plus_days(t.0, t.1, t.2, (n - 1) as nat)
    }
}

pub proof fn lemma_plus_days_valid(y: int, m: int, d: int, n: nat)
    requires
        valid_ymd(y, m, d),
    ensures
        valid_ymd(plus_days(y, m, d, n).0, plus_days(y, m, d, n).1, plus_days(y, m, d, n).2),
        plus_days(y, m, d, n).0 <= y + 1 + n,
    decreases n,
{
    if n > 0 {
        let t = next_ymd(y, m, d);
        lemma_plus_days_valid(t.0, t.1, t.2, (n - 1) as nat);
    }
}

/// Steps a date forward by `n` days.
pub fn ymd_plus_days(y: u64, m: u64, d: u64, n: u64) -> (r: (u64, u64, u64))
    requires
        valid_ymd(y as int, m as int, d as int),
        y + n + 1 < 0xffff_ffff,
    ensures
        (r.0 as int, r.1 as int, r.2 as int) == plus_days(y as int, m as int, d as int, n as nat),
        valid_ymd(r.0 as int, r.1 as int, r.2 as int),
{
    let mut cy = y;
    let mut cm = m;
    let mut cd = d;
    let mut i: u64 = 0;
    while i < n
        invariant
            i <= n,
            valid_ymd(cy as int, cm as int, cd as int),
            cy <= y + 1 + i,
            y + n + 1 < 0xffff_ffff,
            plus_days(cy as int, cm as int, cd as int, (n - i) as nat) == plus_days(
                y as int,
                m as int,
                d as int,
                n as nat,
            ),
        decreases n - i,
    {
        let dim = exec_days_in_month(cy, cm);
        if cd < dim {
            cd = cd + 1;
        } else if cm < 12 {
            cm = cm + 1;
            cd = 1;
        } else {
            cy = cy + 1;
            cm = 1;
            cd = 1;
        }
        i = i + 1;
    }
    proof {
        lemma_plus_days_valid(y as int, m as int, d as int, n as nat);
    }
    (cy, cm, cd)
}

/// The `YYYY-MM-DD` rendering of a date.
pub open spec fn ymd_seq(y: nat, m: nat, d: nat) -> Seq<char> {
    zero_padded(y, 4) + seq!['-'] + zero_padded(m, 2) + seq!['-'] + zero_padded(d, 2)
}

proof fn lemma_dec_str_1(n: nat)
    requires
        n < 10,
    ensures
        dec_str(n) == seq![((48 + n) as u8) as char],
{
}

proof fn lemma_zero_padded_2(n: nat)
    requires
        n < 100,
    ensures
        zero_padded(n, 2) =~= seq![((48 + n / 10) as u8) as char, ((48 + n % 10) as u8) as char],
{
    if n < 10 {
        lemma_dec_str_1(n);
        assert(zero_padded(n, 2) =~= Seq::new(1, |k: int| '0') + dec_str(n));
        assert(n / 10 == 0);
    } else {
        lemma_dec_str_1(n / 10);
        assert(dec_str(n) == dec_str(n / 10).push(((48 + n % 10) as u8) as char));
    }
}

proof fn lemma_zero_padded_4(n: nat)
    requires
        n < 10000,
    ensures
        zero_padded(n, 4) =~= seq![
            ((48 + n / 1000) as u8) as char,
            ((48 + (n / 100) % 10) as u8) as char,
            ((48 + (n / 10) % 10) as u8) as char,
            ((48 + n % 10) as u8) as char,
        ],
{
    if n < 10 {
        lemma_dec_str_1(n);
    } else if n < 100 {
        lemma_dec_str_1(n / 10);
        assert(dec_str(n) == dec_str(n / 10).push(((48 + n % 10) as u8) as char));
    } else if n < 1000 {
        lemma_dec_str_1(n / 100);
        assert(dec_str(n / 10) == dec_str(n / 10 / 10).push(((48 + (n / 10) % 10) as u8) as char));
        assert(dec_str(n) == dec_str(n / 10).push(((48 + n % 10) as u8) as char));
        assert(n / 10 / 10 == n / 100) by (nonlinear_arith);
    } else {
        lemma_dec_str_1(n / 1000);
        assert(dec_str(n / 100) == dec_str(n / 100 / 10).push(
            ((48 + (n / 100) % 10) as u8) as char,
        ));
        assert(dec_str(n / 10) == dec_str(n / 10 / 10).push(((48 + (n / 10) % 10) as u8) as char));
        assert(dec_str(n) == dec_str(n / 10).push(((48 + n % 10) as u8) as char));
        assert(n / 10 / 10 == n / 100) by (nonlinear_arith);
        assert(n / 100 / 10 == n / 1000) by (nonlinear_arith);
    }
}

/// A formatted valid date parses back to itself.
pub proof fn lemma_ymd_seq_valid(y: nat, m: nat, d: nat)
    requires
        y < 10000,
        valid_ymd(y as int, m as int, d as int),
    ensures
        valid_date_seq(ymd_seq(y, m, d)),
        date_seq_year(ymd_seq(y, m, d)) == y,
        date_seq_month(ymd_seq(y, m, d)) == m,
        date_seq_day(ymd_seq(y, m, d)) == d,
{
    lemma_zero_padded_4(y);
    lemma_zero_padded_2(m);
    lemma_zero_padded_2(d);
    let s = ymd_seq(y, m, d);
    assert(s.len() == 10);
    assert(s[0] == ((48 + y / 1000) as u8) as char);
    assert(s[1] == ((48 + (y / 100) % 10) as u8) as char);
    assert(s[2] == ((48 + (y / 10) % 10) as u8) as char);
    assert(s[3] == ((48 + y % 10) as u8) as char);
    assert(s[4] == '-');
    assert(s[5] == ((48 + m / 10) as u8) as char);
    assert(s[6] == ((48 + m % 10) as u8) as char);
    assert(s[7] == '-');
    assert(s[8] == ((48 + d / 10) as u8) as char);
    assert(s[9] == ((48 + d % 10) as u8) as char);
    assert(y == 1000 * (y / 1000) + 100 * ((y / 100) % 10) + 10 * ((y / 10) % 10) + y % 10) by (
        nonlinear_arith
    );
    assert(m == 10 * (m / 10) + m % 10);
    assert(d == 10 * (d / 10) + d % 10);
}

/// Renders a date as `YYYY-MM-DD`.
pub fn format_ymd(y: u64, m: u64, d: u64) -> (r: String)
    requires
        m < 100,
        d < 100,
    ensures
        r@ == ymd_seq(y as nat, m as nat, d as nat),
{
    let mut v = u64_zero_padded(y, 4);
    v.push('-');
    let mv = u64_zero_padded(m, 2);
    let mut i: usize = 0;
    while i < mv.len()
        invariant
            i <= mv.len(),
            v@ == zero_padded(y as nat, 4) + seq!['-'] + mv@.subrange(0, i as int),
        decreases mv.len() - i,
    {
        v.push(mv[i]);
        i = i + 1;
        proof {
            assert(v@ =~= zero_padded(y as nat, 4) + seq!['-'] + mv@.subrange(0, i as int));
        }
    }
    v.push('-');
    let dv = u64_zero_padded(d, 2);
    let mut j: usize = 0;
    while j < dv.len()
        invariant
            j <= dv.len(),
            v@ == zero_padded(y as nat, 4) + seq!['-'] + zero_padded(m as nat, 2) + seq!['-']
                + dv@.subrange(0, j as int),
        decreases dv.len() - j,
    {
        v.push(dv[j]);
        j = j + 1;
        proof {
            assert(v@ =~= zero_padded(y as nat, 4) + seq!['-'] + zero_padded(m as nat, 2)
                + seq!['-'] + dv@.subrange(0, j as int));
        }
    }
    proof {
        assert(mv@.subrange(0, mv@.len() as int) =~= mv@);
        assert(dv@.subrange(0, dv@.len() as int) =~= dv@);
        assert(v@ =~= ymd_seq(y as nat, m as nat, d as nat));
    }
    string_from_chars(&v)
}

} // verus!
