//! What holds of texts, of numbers and dates that are written, and of moments.

use vstd::prelude::*;

use crate::clock;
use crate::clock::{CalendarDate, Timestamp};
use crate::table;
use crate::text;

verus! {

// ---------------------------------------------------------------------------
// Order
// ---------------------------------------------------------------------------

/// Texts are ordered by the first character in which they differ, by code point; a text comes before
/// every longer one that it begins.
pub proof fn first_difference_orders(
    shared: Seq<char>,
    left: char,
    right: char,
    behind_left: Seq<char>,
    behind_right: Seq<char>,
)
    ensures
        text::text_less(
            (shared.push(left)) + behind_left,
            (shared.push(right)) + behind_right,
        ) <==> (left as u32) < (right as u32) || (left == right && text::text_less(
            behind_left,
            behind_right,
        )),
        text::text_less(shared, shared.push(right) + behind_right),
        !text::text_less(shared.push(right) + behind_right, shared),
    decreases shared.len(),
{
    let a = shared.push(left) + behind_left;
    let b = shared.push(right) + behind_right;
    if shared.len() == 0 {
        assert(a.drop_first() =~= behind_left);
        assert(b.drop_first() =~= behind_right);
    } else {
        let rest = shared.drop_first();
        first_difference_orders(rest, left, right, behind_left, behind_right);
        assert(a.drop_first() =~= rest.push(left) + behind_left);
        assert(b.drop_first() =~= rest.push(right) + behind_right);
        assert(a[0] == shared[0]);
        assert(b[0] == shared[0]);
    }
}

/// The members of a finite set can be put in order in one way: each before all that are greater.
pub proof fn members_are_put_in_order(keys: Set<Seq<char>>, key: Seq<char>, i: int, j: int)
    requires
        keys.finite(),
    ensures
        table::in_order(keys).contains(key) <==> keys.contains(key),
        table::in_order(keys).len() == keys.len(),
        0 <= i < j < table::in_order(keys).len() ==> text::text_less(
            table::in_order(keys)[i],
            table::in_order(keys)[j],
        ),
{
    table::in_order_holds(keys);
    let names = table::in_order(keys);
    names.unique_seq_to_set();
    assert(names.to_set().contains(key) == keys.contains(key));
}

// ---------------------------------------------------------------------------
// Trimming
// ---------------------------------------------------------------------------

/// Whether a text is made of white space alone.
pub open spec fn is_blank(string: Seq<char>) -> bool {
    forall|i: int| 0 <= i < string.len() ==> text::is_white(#[trigger] string[i])
}

/// White space is what Unicode calls so: these code points and no others.
pub proof fn white_space_is_of_unicode(c: char)
    ensures
        text::is_white(c) <==> ({
            let n = c as u32;
            ||| n == 0x9
            ||| n == 0xa
            ||| n == 0xb
            ||| n == 0xc
            ||| n == 0xd
            ||| n == 0x20
            ||| n == 0x85
            ||| n == 0xa0
            ||| n == 0x1680
            ||| 0x2000 <= n <= 0x200a
            ||| n == 0x2028
            ||| n == 0x2029
            ||| n == 0x202f
            ||| n == 0x205f
            ||| n == 0x3000
        }),
{
}

proof fn start_is_taken_off(lead: Seq<char>, rest: Seq<char>)
    requires
        is_blank(lead),
        rest.len() > 0 ==> !text::is_white(rest[0]),
    ensures
        text::trimmed_start(lead + rest) == rest,
    decreases lead.len(),
{
    let whole = lead + rest;
    if lead.len() == 0 {
        assert(whole =~= rest);
    } else {
        assert(whole[0] == lead[0]);
        assert(whole.drop_first() =~= lead.drop_first() + rest);
        assert forall|i: int| 0 <= i < lead.drop_first().len() implies text::is_white(
            #[trigger] lead.drop_first()[i],
        ) by {
            assert(lead.drop_first()[i] == lead[i + 1]);
        }
        start_is_taken_off(lead.drop_first(), rest);
    }
}

proof fn end_is_taken_off(rest: Seq<char>, trail: Seq<char>)
    requires
        is_blank(trail),
        rest.len() > 0 ==> !text::is_white(rest.last()),
    ensures
        text::trimmed_end(rest + trail) == rest,
    decreases trail.len(),
{
    let whole = rest + trail;
    if trail.len() == 0 {
        assert(whole =~= rest);
    } else {
        assert(whole.last() == trail.last());
        assert(text::is_white(trail[trail.len() - 1]));
        assert(whole.drop_last() =~= rest + trail.drop_last());
        assert forall|i: int| 0 <= i < trail.drop_last().len() implies text::is_white(
            #[trigger] trail.drop_last()[i],
        ) by {
            assert(trail.drop_last()[i] == trail[i]);
        }
        end_is_taken_off(rest, trail.drop_last());
    }
}

/// A text with white space around it is trimmed to the text; one of white space alone, to nothing.
pub proof fn trimming_takes_off_white_space(lead: Seq<char>, core: Seq<char>, trail: Seq<char>)
    requires
        is_blank(lead),
        is_blank(trail),
        core.len() > 0 ==> !text::is_white(core[0]) && !text::is_white(core.last()),
    ensures
        text::trimmed(lead + core + trail) == core,
{
    if core.len() > 0 {
        assert((core + trail)[0] == core[0]);
        start_is_taken_off(lead, core + trail);
        assert(lead + (core + trail) =~= lead + core + trail);
        end_is_taken_off(core, trail);
    } else {
        let whole = lead + core + trail;
        assert forall|i: int| 0 <= i < whole.len() implies text::is_white(#[trigger] whole[i]) by {
            if i < lead.len() {
                assert(whole[i] == lead[i]);
            } else {
                assert(whole[i] == trail[i - lead.len()]);
            }
        }
        start_is_taken_off(whole, Seq::empty());
        assert(whole + Seq::<char>::empty() =~= whole);
        assert(core =~= Seq::<char>::empty());
    }
}

/// A text is trimmed to nothing exactly where it is blank.
pub proof fn only_blank_texts_are_trimmed_to_nothing(string: Seq<char>)
    ensures
        text::trimmed(string).len() == 0 <==> is_blank(string),
    decreases string.len(),
{
    if is_blank(string) {
        start_is_taken_off(string, Seq::empty());
        assert(string + Seq::<char>::empty() =~= string);
    } else if text::is_white(string[0]) {
        let rest = string.drop_first();
        only_blank_texts_are_trimmed_to_nothing(rest);
        assert(!is_blank(rest)) by {
            if is_blank(rest) {
                assert forall|i: int| 0 <= i < string.len() implies text::is_white(
                    #[trigger] string[i],
                ) by {
                    if i > 0 {
                        assert(string[i] == rest[i - 1]);
                    }
                }
            }
        }
    } else {
        text::solid_start_is_not_blank(string);
    }
}

// ---------------------------------------------------------------------------
// Parts
// ---------------------------------------------------------------------------

/// A text begins with what stands before the rest, ends with what stands behind it, and holds what
/// stands between.
pub proof fn parts_are_found(string: Seq<char>, part: Seq<char>)
    ensures
        text::begins_with(string, part) <==> exists|rest: Seq<char>|
            string == #[trigger] (part + rest),
        text::finishes_with(string, part) <==> exists|rest: Seq<char>|
            string == #[trigger] (rest + part),
        text::holds_part(string, part) <==> exists|before: Seq<char>, behind: Seq<char>|
            string == #[trigger] (before + part + behind),
{
    if text::begins_with(string, part) {
        assert(string =~= part + string.skip(part.len() as int));
    }
    if exists|rest: Seq<char>| string == #[trigger] (part + rest) {
        let rest = choose|rest: Seq<char>| string == #[trigger] (part + rest);
        assert(string.take(part.len() as int) =~= part);
    }
    if text::finishes_with(string, part) {
        assert(string =~= string.take(string.len() - part.len()) + part);
    }
    if exists|rest: Seq<char>| string == #[trigger] (rest + part) {
        let rest = choose|rest: Seq<char>| string == #[trigger] (rest + part);
        assert(string.skip(string.len() - part.len()) =~= part);
    }
    if text::holds_part(string, part) {
        let i = choose|i: int| #[trigger] text::part_at(string, part, i);
        assert(string =~= string.take(i) + part + string.skip(i + part.len()));
    }
    if exists|before: Seq<char>, behind: Seq<char>| string == #[trigger] (before + part + behind) {
        let (before, behind) = choose|before: Seq<char>, behind: Seq<char>|
            string == #[trigger] (before + part + behind);
        let i = before.len() as int;
        assert(string.subrange(i, i + part.len()) =~= part);
        assert(text::part_at(string, part, i));
    }
}

// ---------------------------------------------------------------------------
// Characters
// ---------------------------------------------------------------------------

/// In lower case the letters from A to Z are those from a to z, and every other character is itself;
/// no character comes or goes.
pub proof fn lower_case_is_of_ascii(string: Seq<char>, i: int)
    ensures
        text::lowered_ascii(string).len() == string.len(),
        0 <= i < string.len() ==> ({
            let c = string[i];
            let lower = text::lowered_ascii(string)[i];
            &&& 0x41 <= c as u32 <= 0x5a ==> lower as u32 == c as u32 + 0x20
            &&& !(0x41 <= c as u32 <= 0x5a) ==> lower == c
        }),
{
}

/// The characters of words and of hexadecimal numbers are these and no others.
pub proof fn words_and_digits_are_of_ascii(c: char)
    ensures
        text::is_ascii_word(c) <==> 0x30 <= c as u32 <= 0x39 || 0x41 <= c as u32 <= 0x5a || 0x61
            <= c as u32 <= 0x7a,
        text::is_hex_digit(c) <==> 0x30 <= c as u32 <= 0x39 || 0x41 <= c as u32 <= 0x46 || 0x61
            <= c as u32 <= 0x66,
{
}

// ---------------------------------------------------------------------------
// Numbers
// ---------------------------------------------------------------------------

/// Whether a text is digits alone.
pub open spec fn all_digits(string: Seq<char>) -> bool {
    forall|i: int| 0 <= i < string.len() ==> '0' <= #[trigger] string[i] <= '9'
}

/// A number is written in digits, at least one, the first of several not zero, and each counts ten
/// times the one behind it.
pub proof fn numbers_are_written_in_base_ten(n: nat)
    ensures
        text::decimal(n).len() > 0,
        all_digits(text::decimal(n)),
        text::decimal(n).len() > 1 ==> text::decimal(n)[0] != '0',
        n < 10 ==> text::decimal(n).len() == 1 && text::decimal(n)[0] as u32 == 0x30 + n,
        n >= 10 ==> text::decimal(n).drop_last() == text::decimal(n / 10)
            && text::decimal(n).last() as u32 == 0x30 + n % 10,
    decreases n,
{
    if n >= 10 {
        numbers_are_written_in_base_ten(n / 10);
        let front = text::decimal(n / 10);
        let whole = text::decimal(n);
        assert(whole.drop_last() =~= front);
        assert(whole[0] == front[0]);
        assert(front[0] != '0') by {
            if front.len() == 1 {
                if n / 10 >= 10 {
                    numbers_are_written_in_base_ten(n / 10 / 10);
                    assert(front.drop_last().len() == 0);
                }
                assert(front[0] as u32 == 0x30 + n / 10);
            }
        }
        assert forall|i: int| 0 <= i < whole.len() implies '0' <= #[trigger] whole[i] <= '9' by {
            if i < front.len() {
                assert(whole[i] == front[i]);
            }
        }
    }
}

/// Two numbers are written alike only where they are the same.
pub proof fn numbers_are_told_apart(n: nat, m: nat)
    requires
        text::decimal(n) == text::decimal(m),
    ensures
        n == m,
{
    text::decimal_reads_back(n);
    text::decimal_reads_back(m);
}

// ---------------------------------------------------------------------------
// Dates and moments
// ---------------------------------------------------------------------------

/// Whole seconds with less than a second's nanoseconds, in the years that can be held, are the
/// moment that they say; outside of those years there is none.
pub proof fn ordinary_moments_are_as_given(seconds: i64, nanos: u32)
    requires
        nanos < 1_000_000_000,
    ensures
        -8334601228800 <= seconds <= 8210266876799 ==> clock::moment_of(seconds, nanos) == Some(
            Timestamp { seconds, nanos },
        ),
        !(-8334601228800 <= seconds <= 8210266876799) ==> clock::moment_of(seconds, nanos) is None,
{
}

/// With a second's nanoseconds or more, up to two, the moment is a leap second at the end of a minute,
/// and elsewhere the second after with the rest of the nanoseconds; with two or more it is the leap
/// second after, if that ends a minute. Outside of the years that can be held there is none.
pub proof fn long_seconds_carry_over(seconds: i64, nanos: u32)
    requires
        nanos >= 1_000_000_000,
    ensures
        ({
            let moment = clock::moment_of(seconds, nanos);
            let held = -8334601228800 <= seconds <= 8210266876799;
            &&& held && nanos < 2_000_000_000 && seconds % 60 == 59 ==> moment == Some(
                Timestamp { seconds, nanos },
            )
            &&& held && nanos < 2_000_000_000 && seconds % 60 != 59 ==> moment == Some(
                Timestamp { seconds: (seconds + 1) as i64, nanos: (nanos - 1_000_000_000) as u32 },
            )
            &&& held && 2_000_000_000 <= nanos < 3_000_000_000 && seconds % 60 == 58 ==> moment
                == Some(
                Timestamp { seconds: (seconds + 1) as i64, nanos: (nanos - 1_000_000_000) as u32 },
            )
            &&& held && nanos >= 2_000_000_000 && seconds % 60 != 58 ==> moment is None
            &&& nanos >= 3_000_000_000 ==> moment is None
            &&& !held ==> moment is None
        }),
{
    assert(8210266876799int % 60 == 59);
}

/// A February has a day more in every fourth year, but in a full century only in every fourth; the
/// other months have the days of the calendar.
pub proof fn months_have_their_days(year: int)
    ensures
        clock::days_in_month(year, 1) == 31,
        clock::days_in_month(year, 2) == (if year % 400 == 0 || (year % 4 == 0 && year % 100 != 0) {
            29int
        } else {
            28int
        }),
        clock::days_in_month(year, 3) == 31,
        clock::days_in_month(year, 4) == 30,
        clock::days_in_month(year, 5) == 31,
        clock::days_in_month(year, 6) == 30,
        clock::days_in_month(year, 7) == 31,
        clock::days_in_month(year, 8) == 31,
        clock::days_in_month(year, 9) == 30,
        clock::days_in_month(year, 10) == 31,
        clock::days_in_month(year, 11) == 30,
        clock::days_in_month(year, 12) == 31,
{
    assert(year % 400 == 0 ==> year % 4 == 0);
}

proof fn padded_reads_back(number: int, width: nat, limit: int)
    requires
        0 <= number < limit,
        limit == power_of_ten(width),
    ensures
        clock::padded(number, width).len() == width,
        all_digits(clock::padded(number, width)),
        text::decimal_value(clock::padded(number, width)) == number,
    decreases width,
{
    if width > 0 {
        let shorter = (width - 1) as nat;
        assert(power_of_ten(width) == 10 * power_of_ten(shorter));
        padded_reads_back(number / 10, shorter, power_of_ten(shorter));
        let front = clock::padded(number / 10, shorter);
        let whole = clock::padded(number, width);
        assert(whole.drop_last() =~= front);
        assert(whole.last() == text::digit_char((number % 10) as nat));
        assert forall|i: int| 0 <= i < whole.len() implies '0' <= #[trigger] whole[i] <= '9' by {
            if i < front.len() {
                assert(whole[i] == front[i]);
            }
        }
    }
}

/// Ten, as often times itself as is said.
pub open spec fn power_of_ten(width: nat) -> int
    decreases width,
{
    if width == 0 {
        1
    } else {
        10 * power_of_ten((width - 1) as nat)
    }
}

/// A year before 0 or after 9999 is written with its sign, in four digits or as many as it needs.
pub proof fn far_years_are_written_with_a_sign(year: int)
    requires
        -999999 <= year <= 999999,
        !(0 <= year <= 9999),
    ensures
        ({
            let written = clock::year_text(year);
            let digits = written.skip(1);
            &&& written.len() >= 5
            &&& written[0] == (if year < 0 {
                '-'
            } else {
                '+'
            })
            &&& all_digits(digits)
            &&& text::decimal_value(digits) == (if year < 0 {
                -year
            } else {
                year
            })
            &&& -9999 <= year < 0 ==> digits.len() == 4
            &&& 10000 <= year <= 99999 || -99999 <= year <= -10000 ==> digits.len() == 5
            &&& year >= 100000 || year <= -100000 ==> digits.len() == 6
        }),
{
    let size = if year < 0 {
        -year
    } else {
        year
    };
    reveal_with_fuel(power_of_ten, 7);
    let width: nat = if size <= 9999 {
        4
    } else if size <= 99999 {
        5
    } else {
        6
    };
    padded_reads_back(size, width, power_of_ten(width));
    assert(clock::year_text(year).skip(1) =~= clock::padded(size, width));
}

/// A date of the years from 0 to 9999 is written as its year in four digits, its month in two and
/// its day in two, with hyphens between them.
pub proof fn dates_are_written_in_digits(year: int, month: int, day: int)
    requires
        0 <= year <= 9999,
        0 <= month <= 99,
        0 <= day <= 99,
    ensures
        ({
            let written = clock::date_text(year, month, day);
            &&& written.len() == 10
            &&& written[4] == '-'
            &&& written[7] == '-'
            &&& all_digits(written.subrange(0, 4))
            &&& all_digits(written.subrange(5, 7))
            &&& all_digits(written.subrange(8, 10))
            &&& text::decimal_value(written.subrange(0, 4)) == year
            &&& text::decimal_value(written.subrange(5, 7)) == month
            &&& text::decimal_value(written.subrange(8, 10)) == day
        }),
{
    reveal_with_fuel(power_of_ten, 5);
    padded_reads_back(year, 4, 10000);
    padded_reads_back(month, 2, 100);
    padded_reads_back(day, 2, 100);
    let written = clock::date_text(year, month, day);
    assert(written.subrange(0, 4) =~= clock::padded(year, 4));
    assert(written.subrange(5, 7) =~= clock::padded(month, 2));
    assert(written.subrange(8, 10) =~= clock::padded(day, 2));
}

/// A date stands in the calendar where its month and its day do, in the years that can be held.
pub proof fn dates_stand_in_the_calendar(year: i32, month: u32, day: u32)
    ensures
        clock::date_if_real(year, month, day) == (if -262143 <= year <= 262142 && 1 <= month <= 12
            && 1 <= day && day <= clock::days_in_month(year as int, month as int) {
            Some(CalendarDate { year, month, day })
        } else {
            None
        }),
{
}

}
