//! Numbers as decimal text, written and read.

use crate::error::{ParseError, ParseErrorKind};
use crate::text::is_digit;
use vstd::arithmetic::div_mod::{lemma_fundamental_div_mod, lemma_fundamental_div_mod_converse};
use vstd::arithmetic::power::{lemma_pow_positive, pow};
use vstd::prelude::*;

verus! {

/// The character of a digit. What is no digit is written as `9`.
pub open spec fn digit_char(d: nat) -> char {
    if d == 0 {
        '0'
    } else if d == 1 {
        '1'
    } else if d == 2 {
        '2'
    } else if d == 3 {
        '3'
    } else if d == 4 {
        '4'
    } else if d == 5 {
        '5'
    } else if d == 6 {
        '6'
    } else if d == 7 {
        '7'
    } else if d == 8 {
        '8'
    } else {
        '9'
    }
}

/// The digit that a character stands for. What is no digit stands for 9.
pub open spec fn digit_value(c: char) -> nat {
    if c == '0' {
        0
    } else if c == '1' {
        1
    } else if c == '2' {
        2
    } else if c == '3' {
        3
    } else if c == '4' {
        4
    } else if c == '5' {
        5
    } else if c == '6' {
        6
    } else if c == '7' {
        7
    } else if c == '8' {
        8
    } else {
        9
    }
}

/// The decimal digits of a number, without leading zeros; `0` for zero.
pub open spec fn digits(n: nat) -> Seq<char>
    decreases n,
{
    if n < 10 {
        seq![digit_char(n)]
    } else {
        digits(n / 10).push(digit_char(n % 10))
    }
}

/// Ten to the power of `k`.
pub open spec fn pow10(k: nat) -> nat {
    pow(10, k) as nat
}

/// The whole number nearest to `n * 10^places / d`; where two are as near,
/// the even one.
pub open spec fn rounded_scaled(n: nat, d: nat, places: nat) -> nat {
    let scaled = n * pow10(places);
    let down = scaled / d;
    let rest = scaled % d;
    if 2 * rest > d || (2 * rest == d && down % 2 == 1) {
        down + 1
    } else {
        down
    }
}

/// The last `width` decimal digits of a number, with zeros in front where it
/// has fewer.
pub open spec fn padded_digits(v: nat, width: nat) -> Seq<char>
    decreases width,
{
    if width == 0 {
        Seq::<char>::empty()
    } else {
        padded_digits(v / 10, (width - 1) as nat).push(digit_char(v % 10))
    }
}

/// The fraction `n / d` as decimal text with `places` digits behind the
/// point, rounded to the nearest such number, and to the even one of two
/// that are as near. Without places there is no point.
pub open spec fn decimal_text(n: nat, d: nat, places: nat) -> Seq<char> {
    if places == 0 {
        digits(rounded_scaled(n, d, 0))
    } else {
        digits(rounded_scaled(n, d, places) / pow10(places)) + seq!['.'] + padded_digits(
            rounded_scaled(n, d, places) % pow10(places),
            places,
        )
    }
}

/// A run of one character.
pub open spec fn run(c: char, m: nat) -> Seq<char> {
    Seq::new(m, |i: int| c)
}

/// The number that a text of digits stands for; 0 for the empty text.
pub open spec fn digits_value(s: Seq<char>) -> nat
    decreases s.len(),
{
    if s.len() == 0 {
        0
    } else {
        digits_value(s.drop_last()) * 10 + digit_value(s.last())
    }
}

/// Whether every character of the text is a digit.
pub open spec fn all_digits(s: Seq<char>) -> bool {
    forall|i: int| 0 <= i < s.len() ==> is_digit(#[trigger] s[i])
}

/// A digit's character is a digit and stands for it.
pub proof fn lemma_digit_char(d: nat)
    requires
        d < 10,
    ensures
        is_digit(digit_char(d)),
        digit_value(digit_char(d)) == d,
{
}

/// The digits of a number are digits, at least one of them, and stand for
/// the number.
pub proof fn lemma_digits(n: nat)
    ensures
        digits(n).len() > 0,
        all_digits(digits(n)),
        digits_value(digits(n)) == n,
    decreases n,
{
    reveal_with_fuel(digits_value, 2);
    if n < 10 {
        lemma_digit_char(n);
        assert(digits(n).drop_last() =~= Seq::<char>::empty());
    } else {
        lemma_digits(n / 10);
        lemma_digit_char(n % 10);
        let head = digits(n / 10);
        let all = digits(n);
        assert(all.drop_last() =~= head);
        assert forall|i: int| 0 <= i < all.len() implies is_digit(#[trigger] all[i]) by {
            if i < head.len() {
                assert(all[i] == head[i]);
            }
        }
    }
}

/// The character of a digit.
pub(crate) fn digit(d: u8) -> (c: char)
    requires
        d < 10,
    ensures
        c == digit_char(d as nat),
{
    if d == 0 {
        '0'
    } else if d == 1 {
        '1'
    } else if d == 2 {
        '2'
    } else if d == 3 {
        '3'
    } else if d == 4 {
        '4'
    } else if d == 5 {
        '5'
    } else if d == 6 {
        '6'
    } else if d == 7 {
        '7'
    } else if d == 8 {
        '8'
    } else {
        '9'
    }
}

/// The digit that a character stands for, where it is a digit.
pub(crate) fn digit_of(c: char) -> (d: Option<u8>)
    ensures
        d is Some <==> is_digit(c),
        d matches Some(v) ==> v == digit_value(c) && v < 10,
{
    if c == '0' {
        Some(0)
    } else if c == '1' {
        Some(1)
    } else if c == '2' {
        Some(2)
    } else if c == '3' {
        Some(3)
    } else if c == '4' {
        Some(4)
    } else if c == '5' {
        Some(5)
    } else if c == '6' {
        Some(6)
    } else if c == '7' {
        Some(7)
    } else if c == '8' {
        Some(8)
    } else if c == '9' {
        Some(9)
    } else {
        None
    }
}

/// Appends the decimal digits of a number.
pub(crate) fn push_digits(out: &mut Vec<char>, n: u128)
    ensures
        final(out)@ == old(out)@ + digits(n as nat),
    decreases n,
{
    if n >= 10 {
        push_digits(out, n / 10);
    }
    let last: u8 = (n % 10) as u8;
    out.push(digit(last));
    proof {
        if n < 10 {
            assert(final(out)@ =~= old(out)@ + digits(n as nat));
        } else {
            assert(final(out)@ =~= old(out)@ + digits(n as nat));
        }
    }
}

/// One step of long division: the next digit of `r / d` behind the point,
/// and what is left over. Ten times `r` is never formed, so nothing leaves
/// `u128` however large `d` is.
pub(crate) fn next_digit(r: u128, d: u128) -> (step: (u8, u128))
    requires
        r < d,
    ensures
        step.0 == (r * 10) / (d as int),
        step.1 == (r * 10) % (d as int),
        step.0 < 10,
        step.1 < d,
{
    let mut quotient: u8 = 0;
    let mut rest: u128 = 0;
    let mut i: u8 = 0;
    while i < 10
        invariant
            i <= 10,
            r < d,
            rest < d,
            quotient <= i,
            rest + quotient * d == i * r,
        decreases 10 - i,
    {
        let ghost before = rest + quotient * d;
        if rest >= d - r {
            rest = rest - (d - r);
            quotient += 1;
            assert(rest + quotient * d == before + r) by (nonlinear_arith)
                requires
                    rest + (quotient - 1) * d + d - r == before,
            ;
        } else {
            rest = rest + r;
        }
        i += 1;
        assert(i * r == (i - 1) * r + r) by (nonlinear_arith);
    }
    proof {
        assert(quotient * d == d * quotient) by (nonlinear_arith);
        lemma_fundamental_div_mod_converse(r * 10, d as int, quotient as int, rest as int);
        assert(quotient < 10) by (nonlinear_arith)
            requires
                rest + quotient * d == 10 * r,
                r < d,
                rest >= 0,
                quotient <= 10,
        ;
    }
    (quotient, rest)
}

/// Ten times a power of ten is the next power of ten, and none is 0.
pub proof fn lemma_pow10(k: nat)
    ensures
        pow10(0) == 1,
        pow10(k + 1) == 10 * pow10(k),
        pow10(k) >= 1,
{
    reveal_with_fuel(pow, 2);
    lemma_pow_positive(10, k);
    lemma_pow_positive(10, k + 1);
}

/// A text of digits of some width is the padded digits of its value, which
/// is below ten to the power of the width.
pub proof fn lemma_padded_digits(s: Seq<char>)
    requires
        all_digits(s),
    ensures
        padded_digits(digits_value(s), s.len()) == s,
        digits_value(s) < pow10(s.len()),
    decreases s.len(),
{
    lemma_pow10(s.len());
    if s.len() > 0 {
        let head = s.drop_last();
        assert forall|i: int| 0 <= i < head.len() implies is_digit(#[trigger] head[i]) by {
            assert(head[i] == s[i]);
        }
        lemma_padded_digits(head);
        lemma_pow10(head.len());
        let v = digits_value(head);
        let last = digit_value(s.last());
        assert(is_digit(s[s.len() - 1]));
        assert((v * 10 + last) / 10 == v && (v * 10 + last) % 10 == last);
        assert(head.push(s.last()) =~= s);
        assert(digits_value(s) < pow10(s.len())) by (nonlinear_arith)
            requires
                digits_value(s) == v * 10 + last,
                last < 10,
                v < pow10(head.len()),
                pow10(s.len()) == 10 * pow10(head.len()),
        ;
    }
}

/// A run of zeros stands for 0, and a run of nines for one less than the
/// power of ten of its length.
pub proof fn lemma_runs(m: nat)
    ensures
        all_digits(run('0', m)),
        all_digits(run('9', m)),
        digits_value(run('0', m)) == 0,
        digits_value(run('9', m)) + 1 == pow10(m),
    decreases m,
{
    lemma_pow10(m);
    if m > 0 {
        lemma_runs((m - 1) as nat);
        lemma_pow10((m - 1) as nat);
        assert(run('0', m).drop_last() =~= run('0', (m - 1) as nat));
        assert(run('9', m).drop_last() =~= run('9', (m - 1) as nat));
    }
}

/// Counting one up behind a digit that is no nine: the nines behind it turn
/// to zeros, and the digit becomes the next.
pub proof fn lemma_count_up(head: Seq<char>, digit: nat, m: nat)
    requires
        digit < 9,
    ensures
        digits_value(head.push(digit_char(digit + 1)) + run('0', m)) == digits_value(
            head.push(digit_char(digit)) + run('9', m),
        ) + 1,
    decreases m,
{
    let up = head.push(digit_char(digit + 1));
    let down = head.push(digit_char(digit));
    if m == 0 {
        assert(up + run('0', 0) =~= up);
        assert(down + run('9', 0) =~= down);
        assert(up.drop_last() =~= head);
        assert(down.drop_last() =~= head);
    } else {
        lemma_count_up(head, digit, (m - 1) as nat);
        assert((up + run('0', m)).drop_last() =~= up + run('0', (m - 1) as nat));
        assert((down + run('9', m)).drop_last() =~= down + run('9', (m - 1) as nat));
    }
}

/// The first `places` digits of `r / d` behind the point, by long division,
/// and what is left over behind them.
pub(crate) fn divide_digits(r: u128, d: u128, places: usize) -> (out: (Vec<char>, u128))
    requires
        r < d,
    ensures
        out.0@.len() == places,
        all_digits(out.0@),
        out.1 < d,
        digits_value(out.0@) * d + out.1 == r * pow10(places as nat),
{
    let mut behind: Vec<char> = Vec::new();
    let mut rest = r;
    proof {
        lemma_pow10(0);
        assert(r * pow10(0) == r) by (nonlinear_arith)
            requires
                pow10(0) == 1,
        ;
        assert(digits_value(behind@) == 0);
        assert(digits_value(behind@) * d == 0) by (nonlinear_arith)
            requires
                digits_value(behind@) == 0,
        ;
    }
    while behind.len() < places
        invariant
            behind@.len() <= places,
            all_digits(behind@),
            rest < d,
            digits_value(behind@) * d + rest == r * pow10(behind@.len()),
        decreases places - behind@.len(),
    {
        let ghost before = behind@;
        let ghost was = rest;
        let (q, next) = next_digit(rest, d);
        behind.push(digit(q));
        rest = next;
        proof {
            lemma_digit_char(q as nat);
            lemma_digits_value_push(before, digit_char(q as nat));
            lemma_pow10(before.len());
            assert forall|i: int| 0 <= i < behind@.len() implies is_digit(
                #[trigger] behind@[i],
            ) by {
                if i < before.len() {
                    assert(behind@[i] == before[i]);
                }
            }
            let v = digits_value(before);
            lemma_fundamental_div_mod(was * 10, d as int);
            assert((v * 10 + q) * d + rest == r * (10 * pow10(before.len()))) by (nonlinear_arith)
                requires
                    v * d + was == r * pow10(before.len()),
                    d * q + rest == was * 10,
            ;
        }
    }
    (behind, rest)
}

/// Counts a text of digits up by one. Where all its digits are nines the
/// text becomes all zeros and the one is carried out.
pub(crate) fn count_up(text: &mut Vec<char>) -> (carry: bool)
    requires
        all_digits(old(text)@),
    ensures
        final(text)@.len() == old(text)@.len(),
        all_digits(final(text)@),
        digits_value(final(text)@) + (if carry {
            pow10(old(text)@.len())
        } else {
            0
        }) == digits_value(old(text)@) + 1,
{
    let len = text.len();
    let mut i: usize = len;
    proof {
        assert(old(text)@.subrange(0, i as int) + run('0', 0) =~= old(text)@);
        assert(old(text)@.subrange(i as int, len as int) =~= run('9', 0));
    }
    while i > 0
        invariant
            i <= len,
            len == old(text)@.len(),
            all_digits(old(text)@),
            text@ == old(text)@.subrange(0, i as int) + run('0', (len - i) as nat),
            old(text)@.subrange(i as int, len as int) == run('9', (len - i) as nat),
        decreases i,
    {
        let c = text[i - 1];
        proof {
            assert(c == old(text)@[i - 1]);
            assert(is_digit(old(text)@[i - 1]));
        }
        let v = match digit_of(c) {
            Some(v) => v,
            None => 0,
        };
        if v < 9 {
            text.set(i - 1, digit(v + 1));
            proof {
                let m = (len - i) as nat;
                let head = old(text)@.subrange(0, i - 1);
                lemma_count_up(head, v as nat, m);
                assert(digit_char(v as nat) == c);
                assert(text@ =~= head.push(digit_char((v + 1) as nat)) + run('0', m));
                assert(old(text)@ =~= head.push(c) + run('9', m)) by {
                    assert forall|j: int| 0 <= j < len implies old(text)@[j] == (head.push(c)
                        + run('9', m))[j] by {
                        if j >= i {
                            assert(old(text)@.subrange(i as int, len as int)[j - i] == '9');
                        }
                    }
                }
                lemma_runs(m);
                lemma_digit_char((v + 1) as nat);
                assert forall|j: int| 0 <= j < text@.len() implies is_digit(#[trigger] text@[j]) by {
                    if j < i - 1 {
                        assert(text@[j] == old(text)@[j]);
                    } else if j >= i {
                        assert(text@[j] == '0');
                    }
                }
            }
            return false;
        }
        text.set(i - 1, '0');
        i -= 1;
        proof {
            assert(c == '9');
            assert(text@ =~= old(text)@.subrange(0, i as int) + run('0', (len - i) as nat));
            assert(old(text)@.subrange(i as int, len as int) =~= run('9', (len - i) as nat)) by {
                assert forall|j: int| 0 <= j < len - i implies old(text)@.subrange(
                    i as int,
                    len as int,
                )[j] == '9' by {
                    if j > 0 {
                        assert(old(text)@.subrange(i + 1, len as int)[j - 1] == '9');
                    }
                }
            }
        }
    }
    proof {
        lemma_runs(len as nat);
        assert(text@ =~= run('0', len as nat));
        assert(old(text)@ =~= run('9', len as nat));
    }
    true
}

/// The fraction `n / d` rounded to `places` digits behind the point: its
/// whole part as a number, and the digits behind the point as text.
pub(crate) fn round_decimal(n: u128, d: u128, places: usize) -> (out: (u128, Vec<char>))
    requires
        d > 0,
    ensures
        out.0 == rounded_scaled(n as nat, d as nat, places as nat) / pow10(places as nat),
        out.1@ == padded_digits(
            rounded_scaled(n as nat, d as nat, places as nat) % pow10(places as nat),
            places as nat,
        ),
{
    let whole = n / d;
    let (behind, rest) = divide_digits(n % d, d, places);
    let mut behind = behind;
    let ghost width = places as nat;
    let ghost value = digits_value(behind@);
    let ghost down = whole * pow10(width) + value;
    proof {
        lemma_pow10(width);
        lemma_padded_digits(behind@);
        lemma_fundamental_div_mod(n as int, d as int);
        assert(n * pow10(width) == d * down + rest) by (nonlinear_arith)
            requires
                n == d * whole + n % d,
                value * d + rest == (n % d) * pow10(width),
                down == whole * pow10(width) + value,
        ;
        lemma_fundamental_div_mod_converse(
            n * pow10(width),
            d as int,
            down as int,
            rest as int,
        );
    }
    let last_is_odd = if places == 0 {
        whole % 2 == 1
    } else {
        match digit_of(behind[places - 1]) {
            Some(v) => v % 2 == 1,
            None => false,
        }
    };
    proof {
        if places == 0 {
            assert(behind@ =~= Seq::<char>::empty());
            assert(down == whole) by (nonlinear_arith)
                requires
                    down == whole * pow10(width) + value,
                    pow10(width) == 1,
                    value == 0,
            ;
        } else {
            let last = digit_value(behind@.last());
            assert(is_digit(behind@[places - 1]));
            lemma_pow10((width - 1) as nat);
            let head = digits_value(behind@.drop_last());
            assert(down == 2 * (whole * (5 * pow10((width - 1) as nat)) + head * 5) + last)
                by (nonlinear_arith)
                requires
                    down == whole * pow10(width) + value,
                    value == head * 10 + last,
                    pow10(width) == 10 * pow10((width - 1) as nat),
            ;
        }
        assert(last_is_odd == (down % 2 == 1));
    }
    let up = rest > d - rest || (rest == d - rest && last_is_odd);
    if !up {
        proof {
            lemma_fundamental_div_mod_converse(
                down as int,
                pow10(width) as int,
                whole as int,
                value as int,
            );
            assert(pow10(width) * whole == whole * pow10(width)) by (nonlinear_arith);
        }
        return (whole, behind);
    }
    let carry = count_up(&mut behind);
    let counted = behind;
    proof {
        lemma_padded_digits(counted@);
        assert(n % d > 0) by (nonlinear_arith)
            requires
                value * d + rest == (n % d) * pow10(width),
                rest > 0,
                value >= 0,
                n % d >= 0,
        ;
        assert(d >= 2);
        assert(whole <= n / 2) by (nonlinear_arith)
            requires
                n == d * whole + n % d,
                d >= 2,
                n % d >= 0,
                whole >= 0,
        ;
    }
    let whole_up = if carry {
        whole + 1
    } else {
        whole
    };
    proof {
        let now = digits_value(counted@);
        assert(down + 1 == pow10(width) * whole_up + now) by (nonlinear_arith)
            requires
                down == whole * pow10(width) + value,
                now + (if carry {
                    pow10(width)
                } else {
                    0
                }) == value + 1,
                whole_up == (if carry {
                    whole + 1
                } else {
                    whole as int
                }),
        ;
        lemma_fundamental_div_mod_converse(
            down + 1,
            pow10(width) as int,
            whole_up as int,
            now as int,
        );
    }
    (whole_up, counted)
}

/// Appends `n / d` as decimal text with `places` digits behind the point.
pub(crate) fn push_decimal(out: &mut Vec<char>, n: u128, d: u128, places: usize)
    requires
        d > 0,
    ensures
        final(out)@ == old(out)@ + decimal_text(n as nat, d as nat, places as nat),
{
    let (whole, behind) = round_decimal(n, d, places);
    push_digits(out, whole);
    proof {
        lemma_pow10(0);
        if places == 0 {
            assert(rounded_scaled(n as nat, d as nat, 0) / 1 == rounded_scaled(
                n as nat,
                d as nat,
                0,
            ));
        }
    }
    if places > 0 {
        out.push('.');
        let ghost before = out@;
        let mut i: usize = 0;
        while i < behind.len()
            invariant
                i <= behind.len(),
                out@ == before + behind@.subrange(0, i as int),
            decreases behind.len() - i,
        {
            out.push(behind[i]);
            i += 1;
            assert(out@ =~= before + behind@.subrange(0, i as int));
        }
        proof {
            assert(behind@.subrange(0, i as int) =~= behind@);
            assert(out@ =~= old(out)@ + (digits(whole as nat) + seq!['.'] + behind@));
        }
    }
}

/// Where the first point stands in a text at or after `from`; the length of
/// the text where there is none.
pub open spec fn find_dot(s: Seq<char>, from: int) -> int
    decreases s.len() - from,
{
    if from >= s.len() {
        s.len() as int
    } else if s[from] == '.' {
        from
    } else {
        find_dot(s, from + 1)
    }
}

/// `find_dot` gives the first point at or after `from`.
pub proof fn lemma_find_dot(s: Seq<char>, from: int)
    requires
        0 <= from <= s.len(),
    ensures
        from <= find_dot(s, from) <= s.len(),
        find_dot(s, from) < s.len() ==> s[find_dot(s, from)] == '.',
        forall|i: int| from <= i < find_dot(s, from) ==> s[i] != '.',
    decreases s.len() - from,
{
    if from < s.len() && s[from] != '.' {
        lemma_find_dot(s, from + 1);
    }
}

/// The length of the sign that a number starts with: 1 or 0.
pub open spec fn sign_len(s: Seq<char>) -> int {
    if s.len() > 0 && (s[0] == '+' || s[0] == '-') {
        1
    } else {
        0
    }
}

/// Whether the text starts with a minus sign.
pub open spec fn has_minus(s: Seq<char>) -> bool {
    s.len() > 0 && s[0] == '-'
}

/// What stands between the sign and the first point, or the end.
pub open spec fn whole_part(s: Seq<char>) -> Seq<char> {
    s.subrange(sign_len(s), find_dot(s, sign_len(s)))
}

/// What stands behind the first point; nothing where there is no point.
pub open spec fn behind_part(s: Seq<char>) -> Seq<char> {
    if find_dot(s, sign_len(s)) < s.len() {
        s.subrange(find_dot(s, sign_len(s)) + 1, s.len() as int)
    } else {
        Seq::<char>::empty()
    }
}

/// Whether the text is a decimal number: an optional sign, then digits with
/// at most one point among them, before them or behind them, and at least
/// one digit.
pub open spec fn is_number(s: Seq<char>) -> bool {
    &&& all_digits(whole_part(s))
    &&& all_digits(behind_part(s))
    &&& whole_part(s).len() + behind_part(s).len() > 0
}

/// What a text reads as: the number as a fraction over a power of ten, with
/// all its digits in the numerator. A text that is no number gives
/// `InvalidValue`. A number gives `ValueOverflow` where a part of that
/// fraction leaves `u128`, and where it is below zero.
pub open spec fn spec_read_number(s: Seq<char>) -> Result<(u128, u128), ParseError> {
    if !is_number(s) {
        Err(ParseError { kind: ParseErrorKind::InvalidValue })
    } else {
        let numer = digits_value(whole_part(s) + behind_part(s));
        let denom = pow(10, behind_part(s).len());
        if numer > u128::MAX || denom > u128::MAX || (has_minus(s) && numer > 0) {
            Err(ParseError { kind: ParseErrorKind::ValueOverflow })
        } else {
            Ok((numer as u128, denom as u128))
        }
    }
}

/// The value of digits with one more digit behind them.
pub proof fn lemma_digits_value_push(s: Seq<char>, c: char)
    ensures
        digits_value(s.push(c)) == digits_value(s) * 10 + digit_value(c),
{
    assert(s.push(c).drop_last() =~= s);
}

/// Reads a decimal number as a fraction over a power of ten.
pub(crate) fn read_number(s: &Vec<char>) -> (r: Result<(u128, u128), ParseError>)
    ensures
        r == spec_read_number(s@),
        r matches Ok(parts) ==> parts.1 > 0,
{
    let len = s.len();
    let start: usize = if len > 0 && (s[0] == '+' || s[0] == '-') {
        1
    } else {
        0
    };
    let minus = len > 0 && s[0] == '-';
    let mut numer: u128 = 0;
    let mut denom: u128 = 1;
    let mut numer_over = false;
    let mut denom_over = false;
    let mut seen_dot = false;
    let mut count: usize = 0;
    let ghost mut dot: int = 0;
    let ghost mut text: Seq<char> = Seq::<char>::empty();
    let ghost mut behind: nat = 0;
    let mut i: usize = start;
    proof {
        lemma_find_dot(s@, start as int);
        reveal_with_fuel(pow, 2);
        assert(s@.subrange(start as int, start as int) =~= Seq::<char>::empty());
    }
    while i < len
        invariant
            len == s.len(),
            start == sign_len(s@),
            start <= i <= len,
            count == text.len(),
            count <= i,
            !seen_dot ==> find_dot(s@, start as int) == find_dot(s@, i as int) && all_digits(
                s@.subrange(start as int, i as int),
            ) && text == s@.subrange(start as int, i as int) && behind == 0,
            seen_dot ==> start <= dot < i && find_dot(s@, start as int) == dot && all_digits(
                s@.subrange(start as int, dot),
            ) && all_digits(s@.subrange(dot + 1, i as int)) && text == s@.subrange(
                start as int,
                dot,
            ) + s@.subrange(dot + 1, i as int) && behind == i - dot - 1,
            !numer_over ==> numer == digits_value(text),
            numer_over ==> digits_value(text) > u128::MAX,
            !denom_over ==> denom == pow(10, behind),
            denom_over ==> pow(10, behind) > u128::MAX,
            denom > 0,
        decreases len - i,
    {
        let c = s[i];
        proof {
            lemma_find_dot(s@, i as int);
            lemma_find_dot(s@, i + 1);
            lemma_find_dot(s@, start as int);
        }
        if c == '.' && !seen_dot {
            seen_dot = true;
            proof {
                dot = i as int;
                assert(s@.subrange(dot + 1, i + 1) =~= Seq::<char>::empty());
                assert(s@.subrange(start as int, dot) + s@.subrange(dot + 1, i + 1) =~= text);
            }
        } else {
            match digit_of(c) {
                Some(v) => {
                    proof {
                        lemma_digits_value_push(text, c);
                        reveal_with_fuel(pow, 2);
                        if seen_dot {
                            let tail = s@.subrange(dot + 1, i as int);
                            let grown = s@.subrange(dot + 1, i + 1);
                            assert(grown =~= tail.push(c));
                            assert(s@.subrange(start as int, dot) + grown =~= text.push(c));
                            assert forall|j: int| 0 <= j < grown.len() implies is_digit(
                                #[trigger] grown[j],
                            ) by {
                                if j < tail.len() {
                                    assert(grown[j] == tail[j]);
                                }
                            }
                        } else {
                            let head = s@.subrange(start as int, i as int);
                            let grown = s@.subrange(start as int, i + 1);
                            assert(grown =~= head.push(c));
                            assert forall|j: int| 0 <= j < grown.len() implies is_digit(
                                #[trigger] grown[j],
                            ) by {
                                if j < head.len() {
                                    assert(grown[j] == head[j]);
                                }
                            }
                        }
                        text = text.push(c);
                    }
                    if !numer_over {
                        if numer > (u128::MAX - (v as u128)) / 10 {
                            numer_over = true;
                        } else {
                            numer = numer * 10 + (v as u128);
                        }
                    }
                    if seen_dot {
                        proof {
                            behind = behind + 1;
                        }
                        if !denom_over {
                            if denom > u128::MAX / 10 {
                                denom_over = true;
                            } else {
                                denom = denom * 10;
                            }
                        }
                    }
                    count += 1;
                },
                None => {
                    proof {
                        if seen_dot {
                            let part = behind_part(s@);
                            assert(part[i - dot - 1] == c);
                        } else {
                            let part = whole_part(s@);
                            assert(part[i - start] == c);
                        }
                    }
                    return Err(ParseError { kind: ParseErrorKind::InvalidValue });
                },
            }
        }
        i += 1;
    }
    proof {
        lemma_find_dot(s@, i as int);
        if seen_dot {
            assert(text =~= whole_part(s@) + behind_part(s@));
        } else {
            assert(behind_part(s@) =~= Seq::<char>::empty());
            assert(text =~= whole_part(s@) + behind_part(s@));
        }
    }
    if count == 0 {
        return Err(ParseError { kind: ParseErrorKind::InvalidValue });
    }
    if numer_over || denom_over || (minus && numer > 0) {
        return Err(ParseError { kind: ParseErrorKind::ValueOverflow });
    }
    Ok((numer, denom))
}

} // verus!
