//! Times of media files: reading the decimal seconds that `ffprobe` prints, and
//! writing time stamps and the decimal seconds that `ffmpeg` takes.
use crate::text;
use crate::text::{chars_of, decimal_text, padded_text};
use vstd::prelude::*;
use vstd::string::StringExecFns;

verus! {

/// A decimal digit.
pub open spec fn is_digit(c: char) -> bool {
    '0' <= c <= '9'
}

/// The value of a decimal digit.
pub open spec fn digit_value(c: char) -> int {
    c as int - '0' as int
}

/// Every character is a decimal digit.
pub open spec fn all_digits(s: Seq<char>) -> bool {
    forall|i: int| 0 <= i < s.len() ==> is_digit(#[trigger] s[i])
}

/// The number that a series of decimal digits spells.
pub open spec fn digits_value(s: Seq<char>) -> int
    decreases s.len(),
{
    if s.len() == 0 {
        0
    } else {
        digits_value(s.drop_last()) * 10 + digit_value(s.last())
    }
}

/// How many characters stand before the first point, or in all if there is none.
pub open spec fn whole_len(s: Seq<char>) -> nat
    decreases s.len(),
{
    if s.len() == 0 || s[0] == '.' {
        0
    } else {
        1 + whole_len(s.drop_first())
    }
}

/// What stands before the first point.
pub open spec fn whole_part(s: Seq<char>) -> Seq<char> {
    s.take(whole_len(s) as int)
}

/// What stands after the first point.
pub open spec fn fraction_part(s: Seq<char>) -> Seq<char> {
    if whole_len(s) < s.len() {
        s.skip(whole_len(s) as int + 1)
    } else {
        Seq::empty()
    }
}

/// Digits, and perhaps a point and more digits.
pub open spec fn is_decimal(s: Seq<char>) -> bool {
    &&& whole_part(s).len() > 0
    &&& all_digits(whole_part(s))
    &&& all_digits(fraction_part(s))
}

/// The number that the first `n` digits of a fraction spell, with zeros for
/// those that are missing.
pub open spec fn first_places(fraction: Seq<char>, n: nat) -> int
    decreases n,
{
    if n == 0 {
        0
    } else {
        first_places(fraction, (n - 1) as nat) * 10 + if n <= fraction.len() {
            digit_value(fraction[n - 1])
        } else {
            0
        }
    }
}

/// A digit other than 0 stands after the first `n` digits of a fraction.
pub open spec fn more_places(fraction: Seq<char>, n: nat) -> bool {
    exists|i: int| n <= i < fraction.len() && #[trigger] fraction[i] != '0'
}

/// The milliseconds of a decimal number of seconds, a fractional millisecond
/// being rounded up.
pub open spec fn millis_up(s: Seq<char>) -> int {
    digits_value(whole_part(s)) * 1000 + first_places(fraction_part(s), 3) + if more_places(
        fraction_part(s),
        3,
    ) {
        1int
    } else {
        0
    }
}

/// The microseconds of a decimal number of seconds, without a fractional microsecond.
pub open spec fn micros_down(s: Seq<char>) -> int {
    digits_value(whole_part(s)) * 1_000_000 + first_places(fraction_part(s), 6)
}

/// The duration in milliseconds that a decimal number of seconds gives. It has
/// to be positive, and to fit in 64 bits.
pub open spec fn duration(s: Seq<char>) -> Option<u64> {
    if is_decimal(s) && 0 < millis_up(s) <= u64::MAX {
        Some(millis_up(s) as u64)
    } else {
        None
    }
}

/// The digits of a time without its sign.
pub open spec fn unsigned_part(s: Seq<char>) -> Seq<char> {
    if s.len() > 0 && s[0] == '-' {
        s.drop_first()
    } else {
        s
    }
}

/// The moment in microseconds that a decimal number of seconds, perhaps
/// negative, gives. It has to fit in 64 bits.
pub open spec fn moment(s: Seq<char>) -> Option<i64> {
    let magnitude = micros_down(unsigned_part(s));
    if is_decimal(unsigned_part(s)) && magnitude <= i64::MAX {
        if s.len() > 0 && s[0] == '-' {
            Some((-magnitude) as i64)
        } else {
            Some(magnitude as i64)
        }
    } else {
        None
    }
}

proof fn lemma_digits_value_grows(s: Seq<char>, n: int)
    requires
        all_digits(s),
        0 <= n <= s.len(),
    ensures
        0 <= digits_value(s.take(n)) <= digits_value(s),
    decreases s.len(),
{
    if n == s.len() {
        assert(s.take(n) =~= s);
        if s.len() > 0 {
            lemma_digits_value_grows(s.drop_last(), n - 1);
            assert(is_digit(s.last()));
        }
    } else {
        lemma_digits_value_grows(s.drop_last(), n);
        assert(s.drop_last().take(n) =~= s.take(n));
        assert(is_digit(s.last()));
    }
}

fn digit_number(c: char) -> (d: u64)
    requires
        is_digit(c),
    ensures
        d == digit_value(c),
        d < 10,
{
    c as u64 - 48
}

fn is_digit_char(c: char) -> (yes: bool)
    ensures
        yes == is_digit(c),
{
    '0' <= c && c <= '9'
}

fn all_digit_chars(chars: &Vec<char>, from: usize, to: usize) -> (yes: bool)
    requires
        from <= to <= chars@.len(),
    ensures
        yes == all_digits(chars@.subrange(from as int, to as int)),
{
    let ghost s = chars@.subrange(from as int, to as int);
    let mut i: usize = from;
    while i < to
        invariant
            from <= i <= to <= chars@.len(),
            s == chars@.subrange(from as int, to as int),
            forall|j: int| 0 <= j < i - from ==> is_digit(#[trigger] s[j]),
        decreases to - i,
    {
        assert(s[i - from] == chars@[i as int]);
        if !is_digit_char(chars[i]) {
            return false;
        }
        i += 1;
    }
    true
}

/// Reads digits as a number, if it fits in 64 bits.
fn digits_number(chars: &Vec<char>, to: usize) -> (n: Option<u64>)
    requires
        to <= chars@.len(),
        all_digits(chars@.take(to as int)),
    ensures
        n == if digits_value(chars@.take(to as int)) <= u64::MAX {
            Some(digits_value(chars@.take(to as int)) as u64)
        } else {
            None
        },
{
    let ghost s = chars@.take(to as int);
    let mut n: u64 = 0;
    let mut i: usize = 0;
    assert(s.take(0).len() == 0);
    while i < to
        invariant
            i <= to <= chars@.len(),
            s == chars@.take(to as int),
            all_digits(s),
            n == digits_value(s.take(i as int)),
        decreases to - i,
    {
        assert(s[i as int] == chars@[i as int]);
        let d: u64 = digit_number(chars[i]);
        proof {
            assert(s.take(i + 1).drop_last() =~= s.take(i as int));
            assert(s.take(i + 1).last() == s[i as int]);
            lemma_digits_value_grows(s, i + 1);
        }
        match n.checked_mul(10) {
            Some(tens) => match tens.checked_add(d) {
                Some(sum) => {
                    n = sum;
                },
                None => {
                    return None;
                },
            },
            None => {
                return None;
            },
        }
        i += 1;
    }
    assert(s.take(to as int) =~= s);
    Some(n)
}

proof fn lemma_first_places_bound(fraction: Seq<char>, n: nat)
    requires
        all_digits(fraction),
    ensures
        0 <= first_places(fraction, n) < vstd::arithmetic::power::pow(10, n),
    decreases n,
{
    reveal(vstd::arithmetic::power::pow);
    if n > 0 {
        lemma_first_places_bound(fraction, (n - 1) as nat);
        if n <= fraction.len() {
            assert(is_digit(fraction[n - 1]));
        }
    }
}

/// Reads the first `n` digits of the fraction that begins at `from`.
fn places_number(chars: &Vec<char>, from: usize, n: usize) -> (number: u64)
    requires
        from <= chars@.len(),
        n <= 6,
        all_digits(chars@.skip(from as int)),
    ensures
        number == first_places(chars@.skip(from as int), n as nat),
        number < 1_000_000,
{
    let ghost fraction = chars@.skip(from as int);
    let mut number: u64 = 0;
    let mut i: usize = 0;
    let total: usize = chars.len();
    proof {
        lemma_pow_values();
        lemma_first_places_bound(fraction, n as nat);
    }
    while i < n
        invariant
            i <= n <= 6,
            from <= total == chars@.len(),
            fraction == chars@.skip(from as int),
            all_digits(fraction),
            number == first_places(fraction, i as nat),
            vstd::arithmetic::power::pow(10, n as nat) <= 1_000_000,
        decreases n - i,
    {
        let left: usize = total - from;
        let d: u64 = if i < left {
            assert(fraction[i as int] == chars@[from + i]);
            digit_number(chars[from + i])
        } else {
            0
        };
        proof {
            lemma_first_places_bound(fraction, i as nat);
            lemma_pow_values();
            vstd::arithmetic::power::lemma_pow_increases(10, i as nat, 6);
        }
        number = number * 10 + d;
        i += 1;
    }
    proof {
        vstd::arithmetic::power::lemma_pow_increases(10, n as nat, 6);
    }
    number
}

/// The powers of ten up to a million.
pub(crate) proof fn lemma_pow_values()
    ensures
        vstd::arithmetic::power::pow(10, 3) == 1000,
        vstd::arithmetic::power::pow(10, 6) == 1_000_000,
        forall|n: nat| n <= 6 ==> #[trigger] vstd::arithmetic::power::pow(10, n) <= 1_000_000,
{
    reveal_with_fuel(vstd::arithmetic::power::pow, 8);
    assert(vstd::arithmetic::power::pow(10, 0) == 1);
    assert(vstd::arithmetic::power::pow(10, 1) == 10);
    assert(vstd::arithmetic::power::pow(10, 2) == 100);
    assert(vstd::arithmetic::power::pow(10, 3) == 1000);
    assert(vstd::arithmetic::power::pow(10, 4) == 10000);
    assert(vstd::arithmetic::power::pow(10, 5) == 100000);
    assert(vstd::arithmetic::power::pow(10, 6) == 1000000);
    assert forall|n: nat| n <= 6 implies #[trigger] vstd::arithmetic::power::pow(10, n)
        <= 1_000_000 by {
        vstd::arithmetic::power::lemma_pow_increases(10, n, 6);
    }
}

/// Whether a digit other than 0 stands at or after `from`.
fn nonzero_from(chars: &Vec<char>, from: usize) -> (found: bool)
    ensures
        found == exists|i: int| from <= i < chars@.len() && #[trigger] chars@[i] != '0',
{
    let total: usize = chars.len();
    let mut i: usize = from;
    while i < total
        invariant
            from <= i,
            total == chars@.len(),
            forall|j: int| from <= j < i && j < total ==> chars@[j] == '0',
        decreases total - i,
    {
        if chars[i] != '0' {
            return true;
        }
        i += 1;
    }
    false
}

/// Finds the end of what stands before the first point.
fn find_point(chars: &Vec<char>) -> (at: usize)
    ensures
        at == whole_len(chars@),
        at <= chars@.len(),
{
    let total: usize = chars.len();
    let mut at: usize = 0;
    assert(chars@.skip(0) =~= chars@);
    while at < total && chars[at] != '.'
        invariant
            at <= total == chars@.len(),
            whole_len(chars@) == at + whole_len(chars@.skip(at as int)),
        decreases total - at,
    {
        assert(chars@.skip(at as int).drop_first() =~= chars@.skip(at + 1));
        at += 1;
    }
    at
}

/// The parts of a decimal number: where the whole part ends, and where the fraction begins.
fn decimal_parts(chars: &Vec<char>) -> (parts: Option<(usize, usize)>)
    ensures
        parts is Some <==> is_decimal(chars@),
        parts matches Some((end, from)) ==> {
            &&& end <= chars@.len()
            &&& from <= chars@.len()
            &&& whole_part(chars@) == chars@.take(end as int)
            &&& fraction_part(chars@) == chars@.skip(from as int)
        },
{
    let total: usize = chars.len();
    let end: usize = find_point(chars);
    let from: usize = if end < total {
        end + 1
    } else {
        total
    };
    proof {
        assert(chars@.subrange(0, end as int) =~= whole_part(chars@));
        assert(chars@.subrange(from as int, total as int) =~= fraction_part(chars@));
        assert(chars@.skip(from as int) =~= fraction_part(chars@));
    }
    if end > 0 && all_digit_chars(chars, 0, end) && all_digit_chars(chars, from, total) {
        Some((end, from))
    } else {
        None
    }
}

/// Reads the decimal seconds that `ffprobe` prints as a duration in
/// milliseconds. Only a nonzero fractional millisecond is rounded upward.
pub fn duration_millis(value: &str) -> (millis: Option<u64>)
    ensures
        millis == duration(value@),
{
    let chars = chars_of(value);
    let (end, from) = decimal_parts(&chars)?;
    let ghost whole = digits_value(whole_part(value@));
    let ghost fraction = fraction_part(value@);
    proof {
        lemma_digits_value_grows(whole_part(value@), 0);
        lemma_first_places_bound(fraction, 3);
        assert(whole_part(value@).take(0).len() == 0);
    }
    let seconds: u64 = digits_number(&chars, end)?;
    let mut total: u64 = seconds.checked_mul(1000)?;
    total = total.checked_add(places_number(&chars, from, 3))?;
    let left: usize = chars.len() - from;
    let more = if left > 3 {
        nonzero_from(&chars, from + 3)
    } else {
        false
    };
    proof {
        if more {
            let i = choose|i: int| from + 3 <= i < chars@.len() && #[trigger] chars@[i] != '0';
            assert(fraction[i - from] == chars@[i]);
        }
        if more_places(fraction, 3) {
            let i = choose|i: int| 3 <= i < fraction.len() && #[trigger] fraction[i] != '0';
            assert(chars@[from + i] == fraction[i]);
        }
        assert(more == more_places(fraction, 3));
    }
    if more {
        total = total.checked_add(1)?;
    }
    if total > 0 {
        Some(total)
    } else {
        None
    }
}

/// The characters without the first.
fn without_first(all: &Vec<char>) -> (rest: Vec<char>)
    requires
        all@.len() > 0,
    ensures
        rest@ == all@.drop_first(),
{
    let mut rest: Vec<char> = Vec::new();
    let total: usize = all.len();
    let mut i: usize = 1;
    while i < total
        invariant
            1 <= i <= total == all@.len(),
            rest@ =~= all@.subrange(1, i as int),
        decreases total - i,
    {
        rest.push(all[i]);
        i += 1;
    }
    assert(rest@ =~= all@.drop_first());
    rest
}

/// Reads the decimal seconds that `ffprobe` prints as a moment in microseconds.
pub fn time_micros(value: &str) -> (micros: Option<i64>)
    ensures
        micros == moment(value@),
{
    let all = chars_of(value);
    let negative = all.len() > 0 && all[0] == '-';
    let chars = if negative {
        without_first(&all)
    } else {
        all
    };
    assert(chars@ =~= unsigned_part(value@));
    let (end, from) = decimal_parts(&chars)?;
    let ghost fraction = fraction_part(chars@);
    proof {
        lemma_digits_value_grows(whole_part(chars@), 0);
        assert(whole_part(chars@).take(0).len() == 0);
        lemma_first_places_bound(fraction, 6);
    }
    let seconds: u64 = digits_number(&chars, end)?;
    let whole: u64 = seconds.checked_mul(1_000_000)?;
    let total: u64 = whole.checked_add(places_number(&chars, from, 6))?;
    if total > i64::MAX as u64 {
        None
    } else if negative {
        Some(-(total as i64))
    } else {
        Some(total as i64)
    }
}

/// The digits of a count without its sign.
pub open spec fn unplussed(s: Seq<char>) -> Seq<char> {
    if s.len() > 0 && s[0] == '+' {
        s.drop_first()
    } else {
        s
    }
}

/// The number that a text of digits, perhaps after a plus sign, spells. It has to
/// fit in 64 bits.
pub open spec fn count(s: Seq<char>) -> Option<u64> {
    let digits = unplussed(s);
    if digits.len() > 0 && all_digits(digits) && digits_value(digits) <= u64::MAX {
        Some(digits_value(digits) as u64)
    } else {
        None
    }
}

/// Reads a whole number without a minus sign.
pub fn whole_number(value: &str) -> (n: Option<u64>)
    ensures
        n == count(value@),
{
    let all = chars_of(value);
    let signed = all.len() > 0 && all[0] == '+';
    let chars = if signed {
        without_first(&all)
    } else {
        all
    };
    let total: usize = chars.len();
    proof {
        assert(chars@ =~= unplussed(value@));
        assert(chars@.subrange(0, total as int) =~= chars@);
        assert(chars@.take(total as int) =~= chars@);
    }
    if total > 0 && all_digit_chars(&chars, 0, total) {
        proof {
            lemma_digits_value_grows(chars@, 0);
            assert(chars@.take(0).len() == 0);
        }
        digits_number(&chars, total)
    } else {
        None
    }
}

/// The time stamp of a moment: hours, minutes, seconds and milliseconds.
pub open spec fn timestamp_text(millis: u64) -> Seq<char> {
    let seconds = millis as nat / 1000;
    text::padded(seconds / 3600, 2) + ":"@ + text::padded((seconds / 60) % 60, 2) + ":"@
        + text::padded(seconds % 60, 2) + "."@ + text::padded(millis as nat % 1000, 3)
}

/// Writes a time stamp: hours, minutes, seconds and milliseconds.
pub fn timestamp(millis: u64) -> (stamp: String)
    ensures
        stamp@ == timestamp_text(millis),
{
    let seconds: u64 = millis / 1000;
    let mut stamp = padded_text(seconds / 3600, 2);
    stamp.append(":");
    stamp.append(padded_text((seconds / 60) % 60, 2).as_str());
    stamp.append(":");
    stamp.append(padded_text(seconds % 60, 2).as_str());
    stamp.append(".");
    stamp.append(padded_text(millis % 1000, 3).as_str());
    stamp
}

/// Milliseconds as decimal seconds.
pub open spec fn seconds_text(millis: u64) -> Seq<char> {
    text::decimal(millis as nat / 1000) + "."@ + text::padded(millis as nat % 1000, 3)
}

/// Writes milliseconds as the decimal seconds that `ffmpeg` takes.
pub fn seconds_argument(millis: u64) -> (argument: String)
    ensures
        argument@ == seconds_text(millis),
{
    let mut argument = decimal_text(millis / 1000);
    argument.append(".");
    argument.append(padded_text(millis % 1000, 3).as_str());
    argument
}

/// Microseconds as decimal seconds.
pub open spec fn micros_text(micros: u64) -> Seq<char> {
    text::decimal(micros as nat / 1_000_000) + "."@ + text::padded(micros as nat % 1_000_000, 6)
}

/// Writes microseconds as the decimal seconds that `ffmpeg` takes.
pub fn micros_argument(micros: u64) -> (argument: String)
    ensures
        argument@ == micros_text(micros),
{
    let mut argument = decimal_text(micros / 1_000_000);
    argument.append(".");
    argument.append(padded_text(micros % 1_000_000, 6).as_str());
    argument
}

} // verus!
