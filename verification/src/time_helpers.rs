//! The leap-year rule, the offset of the Unix epoch, and the format engine: a
//! template in which each token stands for one field of a date or a duration.
//!
//! | token | field | form |
//! |---|---|---|
//! | `%Y` | year | decimal, not padded |
//! | `%m` | month | two digits |
//! | `%D` | whole days | decimal, not padded; left out when zero |
//! | `%d` | day of the month | two digits |
//! | `%H` | hour | two digits |
//! | `%M` | minute | two digits |
//! | `%S` | second | two digits |
//! | `%f` | fraction of the second | three digits of milliseconds, or nine of nanoseconds |
//!
//! The tokens are filled in in the order of the table, each in every place where
//! it stands. Everything else in the template is kept.

use crate::calendar::{
    day_in_month, day_of_month_of_day_of_year, day_of_year_of_days, days_of, hour_of,
    leap_year_wide, lemma_days_before_month_table, lemma_fields_of_time,
    lemma_quotient_and_rest, lemma_time_of_day, lemma_year_of_days, millisecond_of,
    milliseconds_from_fields, minute_of, month_in_year, month_of_day_of_year, second_of,
    spec_is_leap_year, year_and_day_of_days, year_of_days,
};
use crate::text::{
    all_digits, chars_of, contains, contains_token, decimal, decimal_chars, lemma_decimal_digits,
    lemma_digits_hold_no_token, lemma_replace_absent, occurs_at, replace_all, replace_token,
    string_of, token, trim, trim_chars, zero_padded, zero_padded_chars,
};
use vstd::prelude::*;

verus! {

/// The milliseconds from the start of year 0 to the Unix epoch, 1970-01-01T00:00:00.
pub const EPOCH_START: i64 = 62_167_132_800_000;

/// The offset of the Unix epoch is the instant that the calendar gives to
/// 1 January 1970, 00:00:00.
pub proof fn lemma_epoch_start()
    ensures
        EPOCH_START == milliseconds_from_fields(1970, 1, 1, 0, 0, 0),
{
    lemma_days_before_month_table(spec_is_leap_year(1970));
}

/// Whether `year` is a leap year: divisible by 4, and not by 100 unless also by 400.
/// Year 0 is one.
pub fn is_leap_year(year: u16) -> (leap: bool)
    ensures
        leap == spec_is_leap_year(year as int),
{
    year % 4 == 0 && (year % 100 != 0 || year % 400 == 0)
}

/// `text` with the token `%D` filled in. A count above zero is written in
/// decimal. With a count of zero the token is taken out and the whitespace at both
/// ends of the text is dropped, so that a template such as `%D %H` leaves no gap
/// in front. A text without the token is kept as it is.
pub open spec fn days_filled(text: Seq<char>, days: int) -> Seq<char> {
    if !contains(text, token('D')) {
        text
    } else if days > 0 {
        replace_all(text, token('D'), decimal(days as nat))
    } else {
        trim(replace_all(text, token('D'), Seq::empty()))
    }
}

/// The template with every token filled in. `days` is the count of whole days; the
/// year, the month and the day of the month are those of the day that lies so many
/// days after the start of year 0. The fraction of the second is written with
/// `fraction_width` digits.
pub open spec fn rendered(
    template: Seq<char>,
    days: int,
    hour: int,
    minute: int,
    second: int,
    fraction: int,
    fraction_width: nat,
) -> Seq<char> {
    let year = year_of_days(days);
    let leap = spec_is_leap_year(year);
    let day_of_year = day_of_year_of_days(days);
    let month = month_of_day_of_year(leap, day_of_year);
    let day = day_of_month_of_day_of_year(leap, day_of_year);
    let text = replace_all(template, token('Y'), decimal(year as nat));
    let text = replace_all(text, token('m'), zero_padded(month as nat, 2));
    let text = days_filled(text, days);
    let text = replace_all(text, token('d'), zero_padded(day as nat, 2));
    let text = replace_all(text, token('H'), zero_padded(hour as nat, 2));
    let text = replace_all(text, token('M'), zero_padded(minute as nat, 2));
    let text = replace_all(text, token('S'), zero_padded(second as nat, 2));
    replace_all(text, token('f'), zero_padded(fraction as nat, fraction_width))
}

/// The template filled in for the instant `milliseconds` after the start of year
/// 0, with the milliseconds of the second as the fraction.
pub open spec fn time_format_text(milliseconds: int, template: Seq<char>) -> Seq<char> {
    rendered(
        template,
        days_of(milliseconds),
        hour_of(milliseconds),
        minute_of(milliseconds),
        second_of(milliseconds),
        millisecond_of(milliseconds),
        3,
    )
}

/// The template filled in for a count of nanoseconds: the fields are those of its
/// whole milliseconds, the fraction its nanoseconds of the second.
pub open spec fn precise_time_format_text(nanoseconds: int, template: Seq<char>) -> Seq<char> {
    let milliseconds = nanoseconds / 1_000_000;
    rendered(
        template,
        days_of(milliseconds),
        hour_of(milliseconds),
        minute_of(milliseconds),
        second_of(milliseconds),
        nanoseconds % 1_000_000_000,
        9,
    )
}

/// A template without the tokens of the date is filled in from the time of day
/// alone: whatever the count of days, and with it the year, the month and the day,
/// the result is the same.
pub proof fn lemma_time_tokens_only(
    template: Seq<char>,
    days: int,
    other_days: int,
    hour: int,
    minute: int,
    second: int,
    fraction: int,
    fraction_width: nat,
)
    requires
        !contains(template, token('Y')),
        !contains(template, token('m')),
        !contains(template, token('D')),
        !contains(template, token('d')),
    ensures
        rendered(template, days, hour, minute, second, fraction, fraction_width) == rendered(
            template,
            other_days,
            hour,
            minute,
            second,
            fraction,
            fraction_width,
        ),
{
    lemma_date_tokens_absent(template, days);
    lemma_date_tokens_absent(template, other_days);
}

/// Two instants at the same time of day are formatted alike by a template
/// without the tokens of the date.
pub proof fn lemma_time_of_day_only(milliseconds: int, other: int, template: Seq<char>)
    requires
        0 <= milliseconds,
        0 <= other,
        milliseconds % 86_400_000 == other % 86_400_000,
        !contains(template, token('Y')),
        !contains(template, token('m')),
        !contains(template, token('D')),
        !contains(template, token('d')),
    ensures
        time_format_text(milliseconds, template) == time_format_text(other, template),
{
    lemma_time_of_day_is_rest(milliseconds);
    lemma_time_of_day_is_rest(other);
    lemma_time_tokens_only(
        template,
        days_of(milliseconds),
        days_of(other),
        hour_of(milliseconds),
        minute_of(milliseconds),
        second_of(milliseconds),
        millisecond_of(milliseconds),
        3,
    );
}

/// The fields of the time of day are those of what is left of the instant when
/// the whole days are taken off.
proof fn lemma_time_of_day_is_rest(milliseconds: int)
    requires
        0 <= milliseconds,
    ensures
        hour_of(milliseconds) == hour_of(milliseconds % 86_400_000),
        minute_of(milliseconds) == minute_of(milliseconds % 86_400_000),
        second_of(milliseconds) == second_of(milliseconds % 86_400_000),
        millisecond_of(milliseconds) == millisecond_of(milliseconds % 86_400_000),
{
    lemma_fields_of_time(milliseconds);
    let hour = hour_of(milliseconds);
    let minute = minute_of(milliseconds);
    let second = second_of(milliseconds);
    let millisecond = millisecond_of(milliseconds);
    let rest = hour * 3_600_000 + minute * 60_000 + second * 1_000 + millisecond;
    lemma_quotient_and_rest(milliseconds, 86_400_000, days_of(milliseconds), rest);
    lemma_time_of_day(0, hour, minute, second, millisecond);
}

/// What is no token is kept: a template in which none of the eight tokens stands
/// comes out as it went in.
pub proof fn lemma_no_token_no_change(
    template: Seq<char>,
    days: int,
    hour: int,
    minute: int,
    second: int,
    fraction: int,
    fraction_width: nat,
)
    requires
        !contains(template, token('Y')),
        !contains(template, token('m')),
        !contains(template, token('D')),
        !contains(template, token('d')),
        !contains(template, token('H')),
        !contains(template, token('M')),
        !contains(template, token('S')),
        !contains(template, token('f')),
    ensures
        rendered(template, days, hour, minute, second, fraction, fraction_width) == template,
{
    lemma_date_tokens_absent(template, days);
    lemma_replace_absent(template, token('H'), zero_padded(hour as nat, 2));
    lemma_replace_absent(template, token('M'), zero_padded(minute as nat, 2));
    lemma_replace_absent(template, token('S'), zero_padded(second as nat, 2));
    lemma_replace_absent(template, token('f'), zero_padded(fraction as nat, fraction_width));
}

/// In a template without the tokens of the date, the four steps that fill them in
/// change nothing.
proof fn lemma_date_tokens_absent(template: Seq<char>, days: int)
    requires
        !contains(template, token('Y')),
        !contains(template, token('m')),
        !contains(template, token('D')),
        !contains(template, token('d')),
    ensures
        ({
            let year = year_of_days(days);
            let leap = spec_is_leap_year(year);
            let day_of_year = day_of_year_of_days(days);
            let month = month_of_day_of_year(leap, day_of_year);
            let day = day_of_month_of_day_of_year(leap, day_of_year);
            let text = replace_all(template, token('Y'), decimal(year as nat));
            let text = replace_all(text, token('m'), zero_padded(month as nat, 2));
            let text = days_filled(text, days);
            replace_all(text, token('d'), zero_padded(day as nat, 2)) == template
        }),
{
    let year = year_of_days(days);
    let leap = spec_is_leap_year(year);
    let day_of_year = day_of_year_of_days(days);
    let month = month_of_day_of_year(leap, day_of_year);
    let day = day_of_month_of_day_of_year(leap, day_of_year);
    lemma_replace_absent(template, token('Y'), decimal(year as nat));
    lemma_replace_absent(template, token('m'), zero_padded(month as nat, 2));
    lemma_replace_absent(template, token('d'), zero_padded(day as nat, 2));
}

/// A text of digits, or an empty one, goes through all the steps unchanged.
proof fn lemma_digits_stay(text: Seq<char>, letter: char, with: Seq<char>)
    requires
        all_digits(text),
    ensures
        replace_all(text, token(letter), with) == text,
{
    lemma_digits_hold_no_token(text, letter);
    lemma_replace_absent(text, token(letter), with);
}

/// The token of one letter does not hold the token of another.
proof fn lemma_other_token_absent(letter: char, other: char)
    requires
        letter != other,
    ensures
        !contains(token(letter), token(other)),
{
    if contains(token(letter), token(other)) {
        let at = choose|at: int| occurs_at(token(letter), token(other), at);
        assert(token(letter).subrange(at, at + 2)[1] == other);
    }
}

/// A text that is one token becomes what the token is replaced with.
proof fn lemma_token_replaced(letter: char, with: Seq<char>)
    ensures
        contains(token(letter), token(letter)),
        replace_all(token(letter), token(letter), with) == with,
{
    let text = token(letter);
    assert(text.subrange(0, 2) == text);
    assert(occurs_at(text, text, 0));
    assert(text.skip(2) == Seq::<char>::empty());
    assert(replace_all(text.skip(2), text, with) == Seq::<char>::empty());
    assert(with + Seq::<char>::empty() == with);
}

/// The template `%D` alone gives the count of days in decimal, and the empty text
/// for a count of zero.
pub proof fn lemma_days_token_alone(
    days: int,
    hour: int,
    minute: int,
    second: int,
    fraction: int,
    fraction_width: nat,
)
    requires
        0 <= days,
    ensures
        rendered(token('D'), days, hour, minute, second, fraction, fraction_width) == if days > 0 {
            decimal(days as nat)
        } else {
            Seq::<char>::empty()
        },
{
    let template = token('D');
    let year = year_of_days(days);
    let leap = spec_is_leap_year(year);
    let day_of_year = day_of_year_of_days(days);
    let month = month_of_day_of_year(leap, day_of_year);
    let day = day_of_month_of_day_of_year(leap, day_of_year);
    let with_year = replace_all(template, token('Y'), decimal(year as nat));
    assert(with_year == template) by {
        lemma_other_token_absent('D', 'Y');
        lemma_replace_absent(template, token('Y'), decimal(year as nat));
    }
    let with_month = replace_all(with_year, token('m'), zero_padded(month as nat, 2));
    assert(with_month == template) by {
        lemma_other_token_absent('D', 'm');
        lemma_replace_absent(template, token('m'), zero_padded(month as nat, 2));
    }
    let with_days = days_filled(with_month, days);
    let expected = if days > 0 {
        decimal(days as nat)
    } else {
        Seq::<char>::empty()
    };
    assert(with_days == expected) by {
        if days > 0 {
            lemma_token_replaced('D', decimal(days as nat));
        } else {
            lemma_token_replaced('D', Seq::<char>::empty());
            assert(trim(Seq::<char>::empty()) == Seq::<char>::empty());
        }
    }
    assert(all_digits(expected)) by {
        lemma_decimal_digits(days as nat);
    }
    let with_day = replace_all(with_days, token('d'), zero_padded(day as nat, 2));
    assert(with_day == expected) by {
        lemma_digits_stay(expected, 'd', zero_padded(day as nat, 2));
    }
    let with_hour = replace_all(with_day, token('H'), zero_padded(hour as nat, 2));
    assert(with_hour == expected) by {
        lemma_digits_stay(expected, 'H', zero_padded(hour as nat, 2));
    }
    let with_minute = replace_all(with_hour, token('M'), zero_padded(minute as nat, 2));
    assert(with_minute == expected) by {
        lemma_digits_stay(expected, 'M', zero_padded(minute as nat, 2));
    }
    let with_second = replace_all(with_minute, token('S'), zero_padded(second as nat, 2));
    assert(with_second == expected) by {
        lemma_digits_stay(expected, 'S', zero_padded(second as nat, 2));
    }
    assert(replace_all(with_second, token('f'), zero_padded(fraction as nat, fraction_width))
        == expected) by {
        lemma_digits_stay(expected, 'f', zero_padded(fraction as nat, fraction_width));
    }
}

/// The year and the day of the year of a day: what is `known` of them, or else what
/// the walk through the years finds.
fn date_of_days(days: u128, known: Option<(u128, u16)>) -> (date: (u128, u16))
    requires
        known matches Some(date) ==> date.0 == year_of_days(days as int) && date.1
            == day_of_year_of_days(days as int),
    ensures
        date.0 == year_of_days(days as int),
        date.1 == day_of_year_of_days(days as int),
        1 <= date.1 <= 365 + if spec_is_leap_year(date.0 as int) { 1int } else { 0 },
{
    match known {
        Some(date) => {
            proof {
                lemma_year_of_days(days as int);
            }
            date
        },
        None => year_and_day_of_days(days),
    }
}

/// `text` with the token of `letter` filled in with `value`, zero padded to `width`
/// digits.
fn fill(text: Vec<char>, letter: char, value: u128, width: usize) -> (out: Vec<char>)
    ensures
        out@ == replace_all(text@, token(letter), zero_padded(value as nat, width as nat)),
{
    if contains_token(&text, letter) {
        let with = zero_padded_chars(value, width);
        replace_token(&text, letter, &with)
    } else {
        proof {
            lemma_replace_absent(
                text@,
                token(letter),
                zero_padded(value as nat, width as nat),
            );
        }
        text
    }
}

/// Fills in a template. `days` is the count of whole days, from which the year, the
/// month and the day of the month are taken where the template asks for them; the
/// fraction of the second is written with `fraction_width` digits.
pub fn render(
    format: &str,
    days: u128,
    hour: u8,
    minute: u8,
    second: u8,
    fraction: u32,
    fraction_width: usize,
) -> (out: String)
    ensures
        out@ == rendered(
            format@,
            days as int,
            hour as int,
            minute as int,
            second as int,
            fraction as int,
            fraction_width as nat,
        ),
{
    let ghost year = year_of_days(days as int);
    let ghost leap = spec_is_leap_year(year);
    let ghost day_of_year = day_of_year_of_days(days as int);
    let ghost month = month_of_day_of_year(leap, day_of_year);
    let ghost day = day_of_month_of_day_of_year(leap, day_of_year);
    proof {
        lemma_year_of_days(days as int);
    }
    let mut text = chars_of(format);
    let mut known: Option<(u128, u16)> = None;
    if contains_token(&text, 'Y') {
        let date = date_of_days(days, known);
        known = Some(date);
        let with = decimal_chars(date.0);
        text = replace_token(&text, 'Y', &with);
    } else {
        proof {
            lemma_replace_absent(text@, token('Y'), decimal(year as nat));
        }
    }
    if contains_token(&text, 'm') {
        let date = date_of_days(days, known);
        known = Some(date);
        let found = month_in_year(leap_year_wide(date.0), date.1);
        text = fill(text, 'm', found as u128, 2);
    } else {
        proof {
            lemma_replace_absent(text@, token('m'), zero_padded(month as nat, 2));
        }
    }
    if contains_token(&text, 'D') {
        if days > 0 {
            let with = decimal_chars(days);
            text = replace_token(&text, 'D', &with);
        } else {
            let with: Vec<char> = Vec::new();
            let cut = replace_token(&text, 'D', &with);
            text = trim_chars(&cut);
        }
    }
    if contains_token(&text, 'd') {
        let date = date_of_days(days, known);
        let found = day_in_month(leap_year_wide(date.0), date.1);
        text = fill(text, 'd', found as u128, 2);
    } else {
        proof {
            lemma_replace_absent(text@, token('d'), zero_padded(day as nat, 2));
        }
    }
    text = fill(text, 'H', hour as u128, 2);
    text = fill(text, 'M', minute as u128, 2);
    text = fill(text, 'S', second as u128, 2);
    text = fill(text, 'f', fraction as u128, fraction_width);
    string_of(&text)
}

/// Formats the instant that lies `milliseconds_since_ad_zero` milliseconds after
/// the start of year 0. The fraction `%f` is the milliseconds of the second, in
/// three digits; `%D` is the count of whole days since the start of year 0. A
/// negative count is no instant and is not accepted.
pub fn time_format(milliseconds_since_ad_zero: i64, format: &str) -> (out: String)
    requires
        milliseconds_since_ad_zero >= 0,
    ensures
        out@ == time_format_text(milliseconds_since_ad_zero as int, format@),
{
    let milliseconds = milliseconds_since_ad_zero;
    render(
        format,
        (milliseconds / 86_400_000) as u128,
        ((milliseconds / 3_600_000) % 24) as u8,
        ((milliseconds / 60_000) % 60) as u8,
        ((milliseconds / 1_000) % 60) as u8,
        (milliseconds % 1_000) as u32,
        3,
    )
}

/// Formats the instant that lies `milliseconds_since_epoch` milliseconds after the
/// Unix epoch. The instant may lie before the epoch, but not before year 0.
pub fn time_format_from_unix_epoch(milliseconds_since_epoch: i64, format: &str) -> (out: String)
    requires
        0 <= EPOCH_START + milliseconds_since_epoch <= i64::MAX,
    ensures
        out@ == time_format_text(EPOCH_START + milliseconds_since_epoch, format@),
{
    time_format(EPOCH_START + milliseconds_since_epoch, format)
}

/// Formats a count of nanoseconds. The fields are those of its whole
/// milliseconds; the fraction `%f` is the nanoseconds of the second, in nine
/// digits.
pub fn precise_time_format(nanoseconds: u128, format: &str) -> (out: String)
    ensures
        out@ == precise_time_format_text(nanoseconds as int, format@),
{
    let milliseconds: u128 = nanoseconds / 1_000_000;
    render(
        format,
        milliseconds / 86_400_000,
        ((milliseconds / 3_600_000) % 24) as u8,
        ((milliseconds / 60_000) % 60) as u8,
        ((milliseconds / 1_000) % 60) as u8,
        (nanoseconds % 1_000_000_000) as u32,
        9,
    )
}

} // verus!
