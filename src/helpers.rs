//! Text helpers: decimal rendering, token and currency formatting, and the
//! reporting-period table.
use vstd::prelude::*;

verus! {

/// The character of a decimal digit.
pub open spec fn digit_char(d: nat) -> char {
    if d == 0 {
        '0'
    } else if d == 1 {
        '1'
    } else if d == 2 {
        '2'
    } else if d == 3 {
        '3'
    } else if d == 4 {
        '4'
    } else if d == 5 {
        '5'
    } else if d == 6 {
        '6'
    } else if d == 7 {
        '7'
    } else if d == 8 {
        '8'
    } else {
        '9'
    }
}

/// The decimal digits of `n`, most significant first, with no leading zeros.
pub open spec fn decimal(n: nat) -> Seq<char>
    decreases n,
{
    if n < 10 {
        seq![digit_char(n)]
    } else {
        decimal(n / 10).push(digit_char(n % 10))
    }
}

/// The decimal text of a signed integer.
pub open spec fn signed_decimal(i: int) -> Seq<char> {
    if i < 0 {
        seq!['-'] + decimal((-i) as nat)
    } else {
        decimal(i as nat)
    }
}

/// A count of hundredths written with exactly two decimal places.
pub open spec fn two_places(hundredths: nat) -> Seq<char> {
    decimal(hundredths / 100) + seq!['.', digit_char((hundredths / 10) % 10), digit_char(
        hundredths % 10,
    )]
}

/// `value / unit` in hundredths, rounded to the nearest hundredth with ties
/// going to the even neighbour.
pub open spec fn hundredths_of(value: nat, unit: nat) -> nat
    recommends
        unit > 0,
{
    let q = (value * 100) / unit;
    let r = (value * 100) % unit;
    if 2 * r > unit {
        q + 1
    } else if 2 * r < unit {
        q
    } else if q % 2 == 0 {
        q
    } else {
        q + 1
    }
}

/// How a token count is displayed: millions and thousands with two decimals
/// and an `M` or `K` suffix, smaller counts as plain integers.
pub open spec fn tokens_text(tokens: int) -> Seq<char> {
    if tokens >= 1_000_000 {
        two_places(hundredths_of(tokens as nat, 1_000_000)) + seq!['M']
    } else if tokens >= 1_000 {
        two_places(hundredths_of(tokens as nat, 1_000)) + seq!['K']
    } else {
        signed_decimal(tokens)
    }
}

/// How an amount of money given in cents is displayed: a dollar sign and two
/// decimal places.
pub open spec fn currency_text(cents: nat) -> Seq<char> {
    seq!['$'] + two_places(cents)
}

/// Number of days of look-back for a reporting period name; unknown names
/// fall back to a week.
pub open spec fn period_days(period: Seq<char>) -> int {
    if period == "24h"@ || period == "1d"@ {
        1
    } else if period == "7d"@ {
        7
    } else if period == "30d"@ {
        30
    } else if period == "90d"@ {
        90
    } else {
        7
    }
}

fn digit_str(d: u128) -> (r: &'static str)
    requires
        d < 10,
    ensures
        r@ == seq![digit_char(d as nat)],
{
    if d == 0 {
        proof { reveal_strlit("0"); }
        "0"
    } else if d == 1 {
        proof { reveal_strlit("1"); }
        "1"
    } else if d == 2 {
        proof { reveal_strlit("2"); }
        "2"
    } else if d == 3 {
        proof { reveal_strlit("3"); }
        "3"
    } else if d == 4 {
        proof { reveal_strlit("4"); }
        "4"
    } else if d == 5 {
        proof { reveal_strlit("5"); }
        "5"
    } else if d == 6 {
        proof { reveal_strlit("6"); }
        "6"
    } else if d == 7 {
        proof { reveal_strlit("7"); }
        "7"
    } else if d == 8 {
        proof { reveal_strlit("8"); }
        "8"
    } else {
        proof { reveal_strlit("9"); }
        "9"
    }
}

/// Appends the decimal digits of `n` to `out`.
pub fn push_decimal(out: &mut String, n: u128)
    ensures
        final(out)@ == old(out)@ + decimal(n as nat),
    decreases n,
{
    if n >= 10 {
        push_decimal(out, n / 10);
    }
    out.append(digit_str(n % 10));
    proof {
        if n >= 10 {
            assert(decimal(n as nat) == decimal((n / 10) as nat).push(digit_char((n % 10) as nat)));
        }
    }
    assert(out@ =~= old(out)@ + decimal(n as nat));
}

/// Appends a count of hundredths with exactly two decimal places.
pub fn push_two_places(out: &mut String, hundredths: u128)
    ensures
        final(out)@ == old(out)@ + two_places(hundredths as nat),
{
    push_decimal(out, hundredths / 100);
    proof { reveal_strlit("."); }
    out.append(".");
    out.append(digit_str((hundredths / 10) % 10));
    out.append(digit_str(hundredths % 10));
    assert(out@ =~= old(out)@ + two_places(hundredths as nat));
}

fn round_hundredths(value: u128, unit: u128) -> (r: u128)
    requires
        0 < unit <= 1_000_000,
        value <= i64::MAX,
    ensures
        r as nat == hundredths_of(value as nat, unit as nat),
{
    let q = (value * 100) / unit;
    let rem = (value * 100) % unit;
    if 2 * rem > unit {
        q + 1
    } else if 2 * rem < unit {
        q
    } else if q % 2 == 0 {
        q
    } else {
        q + 1
    }
}

/// Renders a token count for display: `1.50M`, `2.35K`, `999`.
pub fn format_tokens(tokens: i64) -> (r: String)
    ensures
        r@ == tokens_text(tokens as int),
{
    let mut out = String::new();
    if tokens >= 1_000_000 {
        push_two_places(&mut out, round_hundredths(tokens as u128, 1_000_000));
        proof { reveal_strlit("M"); }
        out.append("M");
    } else if tokens >= 1_000 {
        push_two_places(&mut out, round_hundredths(tokens as u128, 1_000));
        proof { reveal_strlit("K"); }
        out.append("K");
    } else if tokens < 0 {
        proof { reveal_strlit("-"); }
        out.append("-");
        let magnitude: u128 = ((-(tokens + 1)) as u128) + 1;
        push_decimal(&mut out, magnitude);
    } else {
        push_decimal(&mut out, tokens as u128);
    }
    assert(out@ =~= tokens_text(tokens as int));
    out
}

/// Renders an amount of money given in cents: `$12.34`.
pub fn format_currency(cents: u128) -> (r: String)
    ensures
        r@ == currency_text(cents as nat),
{
    let mut out = String::new();
    proof { reveal_strlit("$"); }
    out.append("$");
    push_two_places(&mut out, cents);
    assert(out@ =~= currency_text(cents as nat));
    out
}

/// Whether two strings hold the same characters.
pub fn same_text(a: &str, b: &str) -> (r: bool)
    ensures
        r == (a@ == b@),
{
    let n = a.unicode_len();
    if n != b.unicode_len() {
        return false;
    }
    let mut i: usize = 0;
    while i < n
        invariant
            n == a@.len(),
            n == b@.len(),
            i <= n,
            forall|j: int| 0 <= j < i ==> a@[j] == b@[j],
        decreases n - i,
    {
        if a.get_char(i) != b.get_char(i) {
            return false;
        }
        i = i + 1;
    }
    assert(a@ =~= b@);
    true
}

/// Look-back in days for a reporting period name: `24h` and `1d` give 1,
/// `7d` 7, `30d` 30, `90d` 90, and any other name 7.
pub fn parse_period_to_days(period: &str) -> (r: i64)
    ensures
        r == period_days(period@),
{
    if same_text(period, "24h") || same_text(period, "1d") {
        1
    } else if same_text(period, "7d") {
        7
    } else if same_text(period, "30d") {
        30
    } else if same_text(period, "90d") {
        90
    } else {
        7
    }
}

} // verus!
