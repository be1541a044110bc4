//! What holds of the times of media files: reading is exact, and what is written
//! is read back.
use crate::media_time;
use crate::media_time::lemma_pow_values;
use crate::text;
use vstd::arithmetic::power::{lemma_pow0, lemma_pow1, lemma_pow_adds, lemma_pow_positive};
use vstd::prelude::*;

verus! {

/// The number of units of 10^-n seconds that a decimal number with `n` digits
/// after the point spells.
pub open spec fn scaled_value(s: Seq<char>) -> int {
    media_time::digits_value(media_time::whole_part(s)) * vstd::arithmetic::power::pow(
        10,
        media_time::fraction_part(s).len(),
    ) + media_time::digits_value(media_time::fraction_part(s))
}

proof fn lemma_digits_bound(s: Seq<char>)
    requires
        media_time::all_digits(s),
    ensures
        0 <= media_time::digits_value(s) < vstd::arithmetic::power::pow(10, s.len()),
    decreases s.len(),
{
    reveal(vstd::arithmetic::power::pow);
    if s.len() > 0 {
        lemma_digits_bound(s.drop_last());
        assert(media_time::is_digit(s.last()));
    }
}

/// A number of digits is 0 only if all digits are.
proof fn lemma_digits_zero(s: Seq<char>)
    requires
        media_time::all_digits(s),
    ensures
        media_time::digits_value(s) > 0 <==> exists|i: int|
            0 <= i < s.len() && #[trigger] s[i] != '0',
    decreases s.len(),
{
    if s.len() > 0 {
        let front = s.drop_last();
        lemma_digits_zero(front);
        lemma_digits_bound(front);
        assert(media_time::is_digit(s.last()));
        if s.last() != '0' {
            assert(s[s.len() - 1] != '0');
        } else {
            if media_time::digits_value(front) > 0 {
                let i = choose|i: int| 0 <= i < front.len() && #[trigger] front[i] != '0';
                assert(s[i] != '0');
            }
            if exists|i: int| 0 <= i < s.len() && #[trigger] s[i] != '0' {
                let i = choose|i: int| 0 <= i < s.len() && #[trigger] s[i] != '0';
                assert(front[i] != '0');
            }
        }
    }
}

/// The first places of a fraction are the number of its first digits.
proof fn lemma_places_take(fraction: Seq<char>, k: nat)
    requires
        k <= fraction.len(),
    ensures
        media_time::first_places(fraction, k) == media_time::digits_value(
            fraction.take(k as int),
        ),
    decreases k,
{
    if k > 0 {
        lemma_places_take(fraction, (k - 1) as nat);
        assert(fraction.take(k as int).drop_last() =~= fraction.take(k - 1));
        assert(fraction.take(k as int).last() == fraction[k - 1]);
    } else {
        assert(fraction.take(0).len() == 0);
    }
}

/// Places beyond the digits are zeros.
proof fn lemma_places_past(fraction: Seq<char>, k: nat)
    requires
        fraction.len() <= k,
    ensures
        media_time::first_places(fraction, k) == media_time::digits_value(fraction)
            * vstd::arithmetic::power::pow(10, (k - fraction.len()) as nat),
    decreases k,
{
    let n = fraction.len();
    if k == n {
        lemma_places_take(fraction, k);
        assert(fraction.take(k as int) =~= fraction);
        lemma_pow0(10);
    } else {
        lemma_places_past(fraction, (k - 1) as nat);
        lemma_pow_adds(10, (k - 1 - n) as nat, 1);
        lemma_pow1(10);
        let d = media_time::digits_value(fraction);
        let p = vstd::arithmetic::power::pow(10, (k - 1 - n) as nat);
        assert((d * p) * 10 == d * (p * 10)) by (nonlinear_arith);
    }
}

/// A number of digits is that of its front, shifted, and that of its rest.
proof fn lemma_digits_split(s: Seq<char>, k: int)
    requires
        0 <= k <= s.len(),
    ensures
        media_time::digits_value(s) == media_time::digits_value(s.take(k))
            * vstd::arithmetic::power::pow(10, (s.len() - k) as nat) + media_time::digits_value(
            s.skip(k),
        ),
    decreases s.len(),
{
    if k == s.len() {
        assert(s.take(k) =~= s);
        assert(s.skip(k).len() == 0);
        lemma_pow0(10);
    } else {
        let front = s.drop_last();
        lemma_digits_split(front, k);
        assert(front.take(k) =~= s.take(k));
        assert(s.skip(k).drop_last() =~= front.skip(k));
        assert(s.skip(k).last() == s.last());
        lemma_pow_adds(10, (front.len() - k) as nat, 1);
        lemma_pow1(10);
        let a = media_time::digits_value(s.take(k));
        let p = vstd::arithmetic::power::pow(10, (front.len() - k) as nat);
        let b = media_time::digits_value(front.skip(k));
        assert((a * p + b) * 10 == a * (p * 10) + b * 10) by (nonlinear_arith);
    }
}

/// The first `k` places of a fraction, against the fraction itself: what is
/// left out is less than a unit of the last place, and is nothing exactly if no
/// digit other than 0 follows.
proof fn lemma_places(fraction: Seq<char>, k: nat)
    requires
        media_time::all_digits(fraction),
    ensures
        ({
            let n = fraction.len();
            let rest = media_time::digits_value(fraction) * vstd::arithmetic::power::pow(10, k)
                - media_time::first_places(fraction, k) * vstd::arithmetic::power::pow(10, n);
            &&& 0 <= rest < vstd::arithmetic::power::pow(10, n)
            &&& rest > 0 <==> media_time::more_places(fraction, k)
        }),
{
    let n = fraction.len();
    let d = media_time::digits_value(fraction);
    let f = media_time::first_places(fraction, k);
    let ten_k = vstd::arithmetic::power::pow(10, k);
    let ten_n = vstd::arithmetic::power::pow(10, n);
    lemma_pow_positive(10, n);
    lemma_pow_positive(10, k);
    if k <= n {
        let left = fraction.skip(k as int);
        let ten_r = vstd::arithmetic::power::pow(10, (n - k) as nat);
        let r = media_time::digits_value(left);
        lemma_places_take(fraction, k);
        lemma_digits_split(fraction, k as int);
        assert forall|i: int| 0 <= i < left.len() implies media_time::is_digit(
            #[trigger] left[i],
        ) by {
            assert(left[i] == fraction[k + i]);
        }
        lemma_digits_bound(left);
        lemma_digits_zero(left);
        lemma_pow_adds(10, k, (n - k) as nat);
        assert(d * ten_k - f * ten_n == r * ten_k) by (nonlinear_arith)
            requires
                d == f * ten_r + r,
                ten_n == ten_k * ten_r,
        ;
        assert(0 <= r * ten_k < ten_n) by (nonlinear_arith)
            requires
                0 <= r < ten_r,
                ten_n == ten_k * ten_r,
                ten_k > 0,
        ;
        assert(r * ten_k > 0 <==> r > 0) by (nonlinear_arith)
            requires
                0 <= r,
                ten_k > 0,
        ;
        if media_time::more_places(fraction, k) {
            let i = choose|i: int| k <= i < fraction.len() && #[trigger] fraction[i] != '0';
            assert(left[i - k] != '0');
        }
        if r > 0 {
            let i = choose|i: int| 0 <= i < left.len() && #[trigger] left[i] != '0';
            assert(fraction[k + i] != '0');
        }
    } else {
        let p = vstd::arithmetic::power::pow(10, (k - n) as nat);
        lemma_places_past(fraction, k);
        lemma_pow_adds(10, n, (k - n) as nat);
        assert(d * ten_k - f * ten_n == 0) by (nonlinear_arith)
            requires
                f == d * p,
                ten_k == ten_n * p,
        ;
    }
}

/// A duration is the least number of milliseconds that covers the seconds that
/// were printed: exact where they are whole milliseconds, and less than one
/// millisecond more where they are not.
pub proof fn law_durations_round_up_exactly(s: Seq<char>)
    requires
        media_time::is_decimal(s),
    ensures
        ({
            let ten_n = vstd::arithmetic::power::pow(10, media_time::fraction_part(s).len());
            (media_time::millis_up(s) - 1) * ten_n < scaled_value(s) * 1000
                <= media_time::millis_up(s) * ten_n
        }),
{
    let fraction = media_time::fraction_part(s);
    let w = media_time::digits_value(media_time::whole_part(s));
    let d = media_time::digits_value(fraction);
    let f = media_time::first_places(fraction, 3);
    let m = media_time::millis_up(s);
    let ten_n = vstd::arithmetic::power::pow(10, fraction.len());
    lemma_pow_values();
    lemma_places(fraction, 3);
    lemma_pow_positive(10, fraction.len());
    let up = m - w * 1000 - f;
    assert(m * ten_n == w * 1000 * ten_n + f * ten_n + up * ten_n) by (nonlinear_arith)
        requires
            m == w * 1000 + f + up,
    ;
    assert((m - 1) * ten_n == m * ten_n - ten_n) by (nonlinear_arith);
    assert((w * ten_n + d) * 1000 == w * 1000 * ten_n + d * 1000) by (nonlinear_arith);
    assert(up == 0 ==> up * ten_n == 0) by (nonlinear_arith);
    assert(up == 1 ==> up * ten_n == ten_n) by (nonlinear_arith);
}

/// A moment keeps the microseconds of the seconds that were printed, and drops
/// less than one microsecond.
pub proof fn law_moments_round_down_exactly(s: Seq<char>)
    requires
        media_time::is_decimal(s),
    ensures
        ({
            let ten_n = vstd::arithmetic::power::pow(10, media_time::fraction_part(s).len());
            media_time::micros_down(s) * ten_n <= scaled_value(s) * 1_000_000 < (
            media_time::micros_down(s) + 1) * ten_n
        }),
{
    let fraction = media_time::fraction_part(s);
    let w = media_time::digits_value(media_time::whole_part(s));
    let d = media_time::digits_value(fraction);
    let f = media_time::first_places(fraction, 6);
    let m = media_time::micros_down(s);
    let ten_n = vstd::arithmetic::power::pow(10, fraction.len());
    lemma_pow_values();
    lemma_places(fraction, 6);
    assert(m * ten_n == w * 1_000_000 * ten_n + f * ten_n) by (nonlinear_arith)
        requires
            m == w * 1_000_000 + f,
    ;
    assert((m + 1) * ten_n == m * ten_n + ten_n) by (nonlinear_arith);
    assert((w * ten_n + d) * 1_000_000 == w * 1_000_000 * ten_n + d * 1_000_000)
        by (nonlinear_arith);
}

proof fn lemma_decimal_digits(n: nat)
    ensures
        text::decimal(n).len() > 0,
        media_time::all_digits(text::decimal(n)),
        media_time::digits_value(text::decimal(n)) == n,
    decreases n,
{
    if n < 10 {
        let one = text::decimal(n);
        assert(one.len() == 1);
        assert(media_time::digits_value(one.drop_last()) == 0);
        assert(one.last() == text::digit_char(n as int));
    } else {
        lemma_decimal_digits(n / 10);
        let s = text::decimal(n);
        let front = text::decimal(n / 10);
        assert(s.drop_last() =~= front);
        assert(s.last() == text::digit_char((n % 10) as int));
        assert forall|i: int| 0 <= i < s.len() implies media_time::is_digit(#[trigger] s[i]) by {
            if i < front.len() {
                assert(s[i] == front[i]);
            }
        }
    }
}

proof fn lemma_decimal_len(n: nat, width: nat)
    requires
        n < vstd::arithmetic::power::pow(10, width),
        width > 0,
    ensures
        text::decimal(n).len() <= width,
    decreases width,
{
    reveal(vstd::arithmetic::power::pow);
    if n >= 10 {
        assert(width > 1) by {
            lemma_pow1(10);
        }
        lemma_decimal_len(n / 10, (width - 1) as nat);
    }
}

proof fn lemma_padded_digits(n: nat, width: nat)
    requires
        n < vstd::arithmetic::power::pow(10, width),
        width > 0,
    ensures
        text::padded(n, width).len() == width,
        media_time::all_digits(text::padded(n, width)),
        media_time::digits_value(text::padded(n, width)) == n,
{
    lemma_decimal_len(n, width);
    lemma_decimal_digits(n);
    let numeral = text::decimal(n);
    let fill = (width - numeral.len()) as nat;
    let s = text::padded(n, width);
    let zeros = text::zeros(fill);
    assert(s =~= zeros + numeral);
    lemma_digits_split(s, fill as int);
    assert(s.take(fill as int) =~= zeros);
    assert(s.skip(fill as int) =~= numeral);
    assert forall|i: int| 0 <= i < s.len() implies media_time::is_digit(#[trigger] s[i]) by {
        if i >= fill {
            assert(s[i] == numeral[i - fill]);
        } else {
            assert(s[i] == zeros[i]);
        }
    }
    assert(media_time::all_digits(zeros));
    lemma_digits_zero(zeros);
    lemma_digits_bound(zeros);
    assert(media_time::digits_value(zeros) == 0) by {
        if media_time::digits_value(zeros) > 0 {
            let i = choose|i: int| 0 <= i < zeros.len() && #[trigger] zeros[i] != '0';
            assert(zeros[i] == '0');
        }
    }
    let p = vstd::arithmetic::power::pow(10, numeral.len());
    assert(0 * p == 0) by (nonlinear_arith);
}

/// The parts of digits, a point and more digits.
proof fn lemma_parts(whole: Seq<char>, fraction: Seq<char>)
    requires
        media_time::all_digits(whole),
    ensures
        media_time::whole_part(whole + seq!['.'] + fraction) == whole,
        media_time::fraction_part(whole + seq!['.'] + fraction) == fraction,
    decreases whole.len(),
{
    let s = whole + seq!['.'] + fraction;
    lemma_whole_len(whole, fraction);
    assert(s.take(whole.len() as int) =~= whole);
    assert(s.skip(whole.len() as int + 1) =~= fraction);
}

proof fn lemma_whole_len(whole: Seq<char>, fraction: Seq<char>)
    requires
        media_time::all_digits(whole),
    ensures
        media_time::whole_len(whole + seq!['.'] + fraction) == whole.len(),
    decreases whole.len(),
{
    let s = whole + seq!['.'] + fraction;
    if whole.len() > 0 {
        let rest = whole.drop_first();
        assert(media_time::is_digit(whole[0]));
        assert(s[0] == whole[0]);
        assert(s.drop_first() =~= rest + seq!['.'] + fraction);
        assert forall|i: int| 0 <= i < rest.len() implies media_time::is_digit(
            #[trigger] rest[i],
        ) by {
            assert(rest[i] == whole[i + 1]);
        }
        lemma_whole_len(rest, fraction);
    } else {
        assert(s[0] == '.');
    }
}

/// A duration that is written as decimal seconds is read back as it was.
pub proof fn law_seconds_read_back(millis: u64)
    requires
        millis > 0,
    ensures
        media_time::duration(media_time::seconds_text(millis)) == Some(millis),
{
    let s = media_time::seconds_text(millis);
    let whole = text::decimal(millis as nat / 1000);
    let fraction = text::padded(millis as nat % 1000, 3);
    reveal_strlit(".");
    lemma_pow_values();
    lemma_decimal_digits(millis as nat / 1000);
    lemma_padded_digits(millis as nat % 1000, 3);
    assert("."@ =~= seq!['.']);
    lemma_parts(whole, fraction);
    lemma_places_take(fraction, 3);
    assert(fraction.take(3) =~= fraction);
    assert(!media_time::more_places(fraction, 3));
}

/// A moment that is written as decimal seconds is read back as it was.
pub proof fn law_micros_read_back(micros: u64)
    requires
        micros <= i64::MAX,
    ensures
        media_time::moment(media_time::micros_text(micros)) == Some(micros as i64),
{
    let s = media_time::micros_text(micros);
    let whole = text::decimal(micros as nat / 1_000_000);
    let fraction = text::padded(micros as nat % 1_000_000, 6);
    reveal_strlit(".");
    lemma_pow_values();
    lemma_decimal_digits(micros as nat / 1_000_000);
    lemma_padded_digits(micros as nat % 1_000_000, 6);
    assert("."@ =~= seq!['.']);
    lemma_parts(whole, fraction);
    lemma_places_take(fraction, 6);
    assert(fraction.take(6) =~= fraction);
    assert(s[0] == whole[0]);
    assert(media_time::is_digit(whole[0]));
}

/// The number that a numeral spells, read digit by digit from the left.
pub open spec fn spelled(s: Seq<char>) -> int {
    s.fold_left(0int, |n: int, c: char| n * 10 + (c as int - 48))
}

/// A numeral: every character is one of the ten digits.
pub open spec fn numeral(s: Seq<char>) -> bool {
    forall|i: int| 0 <= i < s.len() ==> 48 <= #[trigger] s[i] as int <= 57
}

/// A numeral that has at least `width` digits, and no more than are needed.
pub open spec fn shortest(s: Seq<char>, width: nat) -> bool {
    s.len() == width || (s.len() > width && s[0] != '0')
}

proof fn lemma_spelled(s: Seq<char>)
    ensures
        spelled(s) == media_time::digits_value(s),
    decreases s.len(),
{
    if s.len() > 0 {
        lemma_spelled(s.drop_last());
    }
}

proof fn lemma_numeral(s: Seq<char>)
    ensures
        numeral(s) == media_time::all_digits(s),
{
    if media_time::all_digits(s) {
        assert forall|i: int| 0 <= i < s.len() implies 48 <= #[trigger] s[i] as int <= 57 by {
            assert(media_time::is_digit(s[i]));
        }
    }
    if numeral(s) {
        assert forall|i: int| 0 <= i < s.len() implies media_time::is_digit(#[trigger] s[i]) by {
            assert(48 <= s[i] as int <= 57);
        }
    }
}

proof fn lemma_first_digit(n: nat)
    requires
        n > 0,
    ensures
        text::decimal(n)[0] != '0',
    decreases n,
{
    if n >= 10 {
        lemma_first_digit(n / 10);
        lemma_decimal_digits(n / 10);
        assert(text::decimal(n)[0] == text::decimal(n / 10)[0]);
    }
}

/// A number that is written in decimal is spelled by what is written, without
/// needless zeros.
pub proof fn law_decimal_spells_its_number(n: nat)
    ensures
        numeral(text::decimal(n)),
        spelled(text::decimal(n)) == n,
        shortest(text::decimal(n), 1),
{
    lemma_decimal_digits(n);
    lemma_numeral(text::decimal(n));
    lemma_spelled(text::decimal(n));
    if n > 0 {
        lemma_first_digit(n);
    }
}

/// A number that is filled up with zeros is still spelled by what is written,
/// which is as wide as asked for, and wider only where the number needs it.
pub proof fn law_padding_keeps_the_number(n: nat, width: nat)
    requires
        width > 0,
    ensures
        numeral(text::padded(n, width)),
        spelled(text::padded(n, width)) == n,
        shortest(text::padded(n, width), width),
{
    lemma_decimal_digits(n);
    let digits = text::decimal(n);
    let s = text::padded(n, width);
    if digits.len() < width {
        let fill = (width - digits.len()) as nat;
        let zeros = text::zeros(fill);
        lemma_digits_split(s, fill as int);
        assert(s.take(fill as int) =~= zeros);
        assert(s.skip(fill as int) =~= digits);
        assert forall|i: int| 0 <= i < s.len() implies media_time::is_digit(#[trigger] s[i]) by {
            if i >= fill {
                assert(s[i] == digits[i - fill]);
            } else {
                assert(s[i] == zeros[i]);
            }
        }
        assert(media_time::all_digits(zeros));
        lemma_digits_zero(zeros);
        lemma_digits_bound(zeros);
        assert(media_time::digits_value(zeros) == 0) by {
            if media_time::digits_value(zeros) > 0 {
                let i = choose|i: int| 0 <= i < zeros.len() && #[trigger] zeros[i] != '0';
                assert(zeros[i] == '0');
            }
        }
        let p = vstd::arithmetic::power::pow(10, digits.len());
        assert(0 * p == 0) by (nonlinear_arith);
    } else if n > 0 {
        lemma_first_digit(n);
    }
    lemma_numeral(s);
    lemma_spelled(s);
}

/// A time stamp is read back as the moment it was written for: its four fields
/// spell hours, minutes, seconds and milliseconds that add up to that moment.
/// Minutes and seconds stay below 60, and only the hours are ever wider.
pub proof fn law_timestamps_read_back(millis: u64)
    ensures
        ({
            let s = media_time::timestamp_text(millis);
            let n = s.len() as int;
            let hours = s.subrange(0, n - 10);
            let minutes = s.subrange(n - 9, n - 7);
            let seconds = s.subrange(n - 6, n - 4);
            let rest = s.subrange(n - 3, n);
            &&& n >= 12
            &&& s[n - 10] == ':' && s[n - 7] == ':' && s[n - 4] == '.'
            &&& numeral(hours) && numeral(minutes) && numeral(seconds) && numeral(rest)
            &&& shortest(hours, 2)
            &&& spelled(minutes) < 60
            &&& spelled(seconds) < 60
            &&& spelled(hours) * 3_600_000 + spelled(minutes) * 60_000 + spelled(seconds) * 1000
                + spelled(rest) == millis
        }),
{
    let total = millis as nat / 1000;
    let h = text::padded(total / 3600, 2);
    let m = text::padded((total / 60) % 60, 2);
    let sec = text::padded(total % 60, 2);
    let r = text::padded(millis as nat % 1000, 3);
    let s = media_time::timestamp_text(millis);
    let n = s.len() as int;
    reveal_strlit(":");
    reveal_strlit(".");
    lemma_pow_values();
    lemma_pow1(10);
    lemma_pow_adds(10, 1, 1);
    law_padding_keeps_the_number(total / 3600, 2);
    law_padding_keeps_the_number((total / 60) % 60, 2);
    law_padding_keeps_the_number(total % 60, 2);
    law_padding_keeps_the_number(millis as nat % 1000, 3);
    lemma_padded_digits((total / 60) % 60, 2);
    lemma_padded_digits(total % 60, 2);
    lemma_padded_digits(millis as nat % 1000, 3);
    assert(s.subrange(0, n - 10) =~= h);
    assert(s.subrange(n - 9, n - 7) =~= m);
    assert(s.subrange(n - 6, n - 4) =~= sec);
    assert(s.subrange(n - 3, n) =~= r);
    assert(s[n - 10] == ":"@[0]);
    assert(s[n - 7] == ":"@[0]);
    assert(s[n - 4] == "."@[0]);
}

/// Different moments have different time stamps.
pub proof fn law_timestamps_tell_moments_apart(a: u64, b: u64)
    requires
        media_time::timestamp_text(a) == media_time::timestamp_text(b),
    ensures
        a == b,
{
    law_timestamps_read_back(a);
    law_timestamps_read_back(b);
}

/// Milliseconds that are written as decimal seconds have three digits after the
/// point, and without the point they spell the milliseconds.
pub proof fn law_written_seconds_spell_millis(millis: u64)
    ensures
        ({
            let s = media_time::seconds_text(millis);
            let n = s.len() as int;
            &&& n >= 5
            &&& s[n - 4] == '.'
            &&& numeral(s.take(n - 4)) && numeral(s.skip(n - 3))
            &&& shortest(s.take(n - 4), 1)
            &&& spelled(s.take(n - 4)) * 1000 + spelled(s.skip(n - 3)) == millis
        }),
{
    let s = media_time::seconds_text(millis);
    let n = s.len() as int;
    reveal_strlit(".");
    lemma_pow_values();
    law_decimal_spells_its_number(millis as nat / 1000);
    law_padding_keeps_the_number(millis as nat % 1000, 3);
    lemma_padded_digits(millis as nat % 1000, 3);
    assert(s.take(n - 4) =~= text::decimal(millis as nat / 1000));
    assert(s.skip(n - 3) =~= text::padded(millis as nat % 1000, 3));
    assert(s[n - 4] == "."@[0]);
}

/// Microseconds that are written as decimal seconds have six digits after the
/// point, and without the point they spell the microseconds.
pub proof fn law_written_seconds_spell_micros(micros: u64)
    ensures
        ({
            let s = media_time::micros_text(micros);
            let n = s.len() as int;
            &&& n >= 8
            &&& s[n - 7] == '.'
            &&& numeral(s.take(n - 7)) && numeral(s.skip(n - 6))
            &&& shortest(s.take(n - 7), 1)
            &&& spelled(s.take(n - 7)) * 1_000_000 + spelled(s.skip(n - 6)) == micros
        }),
{
    let s = media_time::micros_text(micros);
    let n = s.len() as int;
    reveal_strlit(".");
    lemma_pow_values();
    law_decimal_spells_its_number(micros as nat / 1_000_000);
    law_padding_keeps_the_number(micros as nat % 1_000_000, 6);
    lemma_padded_digits(micros as nat % 1_000_000, 6);
    assert(s.take(n - 7) =~= text::decimal(micros as nat / 1_000_000));
    assert(s.skip(n - 6) =~= text::padded(micros as nat % 1_000_000, 6));
    assert(s[n - 7] == "."@[0]);
}

proof fn lemma_decimal_form(whole: Seq<char>, fraction: Seq<char>)
    requires
        whole.len() > 0,
        numeral(whole),
        numeral(fraction),
    ensures
        media_time::is_decimal(whole + seq!['.'] + fraction),
        scaled_value(whole + seq!['.'] + fraction) == spelled(whole + fraction),
        media_time::fraction_part(whole + seq!['.'] + fraction) == fraction,
        spelled(whole + fraction) >= 0,
{
    lemma_numeral(whole);
    lemma_numeral(fraction);
    lemma_parts(whole, fraction);
    let joined = whole + fraction;
    lemma_spelled(joined);
    lemma_digits_split(joined, whole.len() as int);
    assert(joined.take(whole.len() as int) =~= whole);
    assert(joined.skip(whole.len() as int) =~= fraction);
    assert(media_time::all_digits(joined)) by {
        assert forall|i: int| 0 <= i < joined.len() implies media_time::is_digit(
            #[trigger] joined[i],
        ) by {
            if i < whole.len() {
                assert(joined[i] == whole[i]);
            } else {
                assert(joined[i] == fraction[i - whole.len()]);
            }
        }
    }
    lemma_digits_bound(joined);
}

/// A whole number has no fraction.
proof fn lemma_whole_form(whole: Seq<char>)
    requires
        media_time::all_digits(whole),
    ensures
        media_time::whole_len(whole) == whole.len(),
        media_time::whole_part(whole) == whole,
        media_time::fraction_part(whole) == Seq::<char>::empty(),
    decreases whole.len(),
{
    if whole.len() > 0 {
        let rest = whole.drop_first();
        assert(media_time::is_digit(whole[0]));
        assert forall|i: int| 0 <= i < rest.len() implies media_time::is_digit(
            #[trigger] rest[i],
        ) by {
            assert(rest[i] == whole[i + 1]);
        }
        lemma_whole_form(rest);
    }
    assert(whole.take(whole.len() as int) =~= whole);
}

/// Decimal seconds are read as the least number of milliseconds that is not less
/// than they are, whatever the number of digits after the point. Only 0, and what
/// does not fit in 64 bits, is no duration.
pub proof fn law_durations_are_read(whole: Seq<char>, fraction: Seq<char>)
    requires
        whole.len() > 0,
        numeral(whole),
        numeral(fraction),
    ensures
        ({
            let units = spelled(whole + fraction);
            let unit = vstd::arithmetic::power::pow(10, fraction.len());
            match media_time::duration(whole + seq!['.'] + fraction) {
                Some(m) => m > 0 && (m - 1) * unit < units * 1000 <= m * unit,
                None => units == 0 || units * 1000 > u64::MAX * unit,
            }
        }),
        media_time::duration(whole) == if 0 < spelled(whole) * 1000 <= u64::MAX {
            Some((spelled(whole) * 1000) as u64)
        } else {
            None::<u64>
        },
{
    let s = whole + seq!['.'] + fraction;
    let unit = vstd::arithmetic::power::pow(10, fraction.len());
    lemma_decimal_form(whole, fraction);
    law_durations_round_up_exactly(s);
    lemma_pow_positive(10, fraction.len());
    let m = media_time::millis_up(s);
    if m <= 0 {
        assert(m * unit <= 0) by (nonlinear_arith)
            requires
                m <= 0,
                unit > 0,
        ;
    } else if m > u64::MAX {
        assert((m - 1) * unit >= u64::MAX * unit) by (nonlinear_arith)
            requires
                m - 1 >= u64::MAX,
                unit > 0,
        ;
    }
    lemma_numeral(whole);
    lemma_whole_form(whole);
    lemma_spelled(whole);
    lemma_places_past(Seq::empty(), 3);
    assert(!media_time::more_places(Seq::<char>::empty(), 3));
    let p = vstd::arithmetic::power::pow(10, 3);
    assert(0 * p == 0) by (nonlinear_arith);
}

/// Decimal seconds are read as the greatest number of microseconds that is not
/// more than they are; a minus sign makes it negative. Only what does not fit in
/// 64 bits is no moment.
pub proof fn law_moments_are_read(whole: Seq<char>, fraction: Seq<char>)
    requires
        whole.len() > 0,
        numeral(whole),
        numeral(fraction),
    ensures
        ({
            let units = spelled(whole + fraction);
            let unit = vstd::arithmetic::power::pow(10, fraction.len());
            match media_time::moment(whole + seq!['.'] + fraction) {
                Some(v) => v >= 0 && v * unit <= units * 1_000_000 < (v + 1) * unit,
                None => units * 1_000_000 > i64::MAX * unit,
            }
        }),
        media_time::moment(whole) == if spelled(whole) * 1_000_000 <= i64::MAX {
            Some((spelled(whole) * 1_000_000) as i64)
        } else {
            None::<i64>
        },
        match media_time::moment(whole + seq!['.'] + fraction) {
            Some(v) => media_time::moment(seq!['-'] + (whole + seq!['.'] + fraction)) == Some(
                (-v) as i64,
            ),
            None => media_time::moment(seq!['-'] + (whole + seq!['.'] + fraction)) is None,
        },
        match media_time::moment(whole) {
            Some(v) => media_time::moment(seq!['-'] + whole) == Some((-v) as i64),
            None => media_time::moment(seq!['-'] + whole) is None,
        },
{
    let s = whole + seq!['.'] + fraction;
    let unit = vstd::arithmetic::power::pow(10, fraction.len());
    lemma_decimal_form(whole, fraction);
    law_moments_round_down_exactly(s);
    lemma_pow_positive(10, fraction.len());
    lemma_numeral(whole);
    assert(media_time::is_digit(whole[0]));
    assert(s[0] == whole[0]);
    let m = media_time::micros_down(s);
    let units = spelled(whole + fraction);
    if m < 0 {
        assert((m + 1) * unit <= 0) by (nonlinear_arith)
            requires
                m < 0,
                unit > 0,
        ;
    } else if m > i64::MAX {
        assert(m * unit > i64::MAX * unit) by (nonlinear_arith)
            requires
                m > i64::MAX,
                unit > 0,
        ;
    }
    lemma_whole_form(whole);
    lemma_spelled(whole);
    lemma_digits_bound(whole);
    lemma_places_past(Seq::empty(), 6);
    let p = vstd::arithmetic::power::pow(10, 6);
    assert(0 * p == 0) by (nonlinear_arith);
    assert((seq!['-'] + s).drop_first() =~= s);
    assert((seq!['-'] + whole).drop_first() =~= whole);
}

/// Digits, or digits, a point and perhaps more digits.
pub open spec fn decimal_form(s: Seq<char>) -> bool {
    exists|k: int| #[trigger] splits_at(s, k)
}

/// Digits before `k`, and after it, where a point stands if `k` is not the end.
pub open spec fn splits_at(s: Seq<char>, k: int) -> bool {
    &&& 0 < k <= s.len()
    &&& numeral(s.take(k))
    &&& k < s.len() ==> s[k] == '.' && numeral(s.skip(k + 1))
}

proof fn lemma_is_decimal_form(s: Seq<char>)
    requires
        media_time::is_decimal(s),
    ensures
        decimal_form(s),
{
    let k = media_time::whole_len(s) as int;
    lemma_whole_len_bound(s);
    lemma_numeral(s.take(k));
    if k < s.len() {
        lemma_numeral(s.skip(k + 1));
    }
    assert(splits_at(s, k));
}

proof fn lemma_whole_len_bound(s: Seq<char>)
    ensures
        media_time::whole_len(s) <= s.len(),
        media_time::whole_len(s) < s.len() ==> s[media_time::whole_len(s) as int] == '.',
    decreases s.len(),
{
    if s.len() > 0 && s[0] != '.' {
        lemma_whole_len_bound(s.drop_first());
    }
}

/// Nothing but decimal seconds is read: not a sign on a duration, not a letter,
/// not a second point, and not a point without digits before it.
pub proof fn law_only_decimals_are_read(s: Seq<char>)
    ensures
        media_time::duration(s) is Some ==> decimal_form(s),
        media_time::moment(s) is Some ==> decimal_form(s) || (s.len() > 0 && s[0] == '-'
            && decimal_form(s.skip(1))),
{
    if media_time::duration(s) is Some {
        lemma_is_decimal_form(s);
    }
    if media_time::moment(s) is Some {
        lemma_is_decimal_form(media_time::unsigned_part(s));
        if s.len() > 0 && s[0] == '-' {
            assert(s.drop_first() =~= s.skip(1));
        }
    }
}

/// A count is the number that its digits spell; a plus sign before them changes
/// nothing. Only what does not fit in 64 bits, or is not digits, is no count.
pub proof fn law_counts_are_read(digits: Seq<char>, s: Seq<char>)
    requires
        digits.len() > 0,
        numeral(digits),
    ensures
        media_time::count(digits) == if spelled(digits) <= u64::MAX {
            Some(spelled(digits) as u64)
        } else {
            None::<u64>
        },
        media_time::count(seq!['+'] + digits) == media_time::count(digits),
        media_time::count(s) is Some ==> s.len() > 0 && (numeral(s) || (s[0] == '+' && s.len() > 1
            && numeral(s.skip(1)))),
{
    lemma_numeral(digits);
    lemma_spelled(digits);
    assert(media_time::is_digit(digits[0]));
    assert((seq!['+'] + digits).drop_first() =~= digits);
    if media_time::count(s) is Some {
        lemma_numeral(media_time::unplussed(s));
        if s[0] == '+' {
            assert(s.drop_first() =~= s.skip(1));
        }
    }
}

} // verus!
