use vstd::prelude::*;
use crate::decimal::{decimal_int, decimal_nat, push_char, push_decimal};


verus! {

/// Whether a year of the proleptic Gregorian calendar is a leap year.
pub open spec fn is_leap_year(year: int) -> bool {
    (year % 4 == 0 && year % 100 != 0) || year % 400 == 0
}

/// The number of days of a month (1 to 12) of a year.
pub open spec fn month_length(year: int, month: int) -> int {
    if month == 2 {
        if is_leap_year(year) { 29 } else { 28 }
    } else if month == 4 || month == 6 || month == 9 || month == 11 {
        30
    } else {
        31
    }
}

/// The months counted from year 0: consecutive months have consecutive numbers.
pub open spec fn month_serial(year: int, month: int) -> int {
    year * 12 + (month - 1)
}

/// Whether `month` names a month of the year.
pub open spec fn is_month(month: int) -> bool {
    1 <= month <= 12
}

/// The number of days in a month, as chrono's `num_days_in_month` counts them.
pub fn days_in_month(year: i32, month: u32) -> (days: u32)
    requires
        is_month(month as int),
    ensures
        days == month_length(year as int, month as int),
        28 <= days <= 31,
{
    if month == 2 {
        if (year % 4 == 0 && year % 100 != 0) || year % 400 == 0 {
            29
        } else {
            28
        }
    } else if month == 4 || month == 6 || month == 9 || month == 11 {
        30
    } else {
        31
    }
}

/// The month before `month` of `year`: December of the year before for January.
pub open spec fn previous_month_spec(year: int, month: int) -> (int, int) {
    if month == 1 {
        (year - 1, 12)
    } else {
        (year, month - 1)
    }
}

/// The month before `month` of `year`.
pub fn previous_month(year: i32, month: u32) -> (r: (i32, u32))
    requires
        is_month(month as int),
        year > i32::MIN,
    ensures
        (r.0 as int, r.1 as int) == previous_month_spec(year as int, month as int),
        is_month(r.1 as int),
        month_serial(r.0 as int, r.1 as int) == month_serial(year as int, month as int) - 1,
{
    if month == 1 {
        (year - 1, 12)
    } else {
        (year, month - 1)
    }
}

/// The month `offset` steps along the twelve months that end with the current
/// one: offset 0 is the same month a year ago, offset 12 the current month.
pub open spec fn plot_month_spec(year: int, month: int, offset: int) -> (int, int) {
    if month - 12 + offset <= 0 {
        (year - 1, month + offset)
    } else {
        (year, month - 12 + offset)
    }
}

/// The month that point `offset` (0 to 12) of a yearly plot stands for.
pub fn plot_month(year: i32, month: u32, offset: u32) -> (r: (i32, u32))
    requires
        is_month(month as int),
        offset <= 12,
        year > i32::MIN,
    ensures
        (r.0 as int, r.1 as int) == plot_month_spec(year as int, month as int, offset as int),
        is_month(r.1 as int),
        month_serial(r.0 as int, r.1 as int) == month_serial(year as int, month as int) - 12 + offset,
{
    if month + offset <= 12 {
        (year - 1, month + offset)
    } else {
        (year, month + offset - 12)
    }
}

/// The text `year/month/day` with the year and month in decimal, as the
/// ledger command takes a date.
pub open spec fn date_text(year: int, month: int, day: Seq<char>) -> Seq<char> {
    decimal_int(year) + seq!['/'] + decimal_int(month) + seq!['/'] + day
}

/// Appends the decimal notation of a signed number.
pub fn push_signed(s: &mut String, v: i32)
    ensures
        final(s)@ == old(s)@ + decimal_int(v as int),
{
    if v < 0 {
        push_char(s, '-');
        let m: i64 = -(v as i64);
        push_decimal(s, m as u64);
        assert(final(s)@ =~= old(s)@ + decimal_int(v as int));
    } else {
        push_decimal(s, v as u64);
    }
}

/// The first day of a month: `year/month/01`.
pub fn month_start(year: i32, month: u32) -> (r: String)
    ensures
        r@ == date_text(year as int, month as int, seq!['0', '1']),
{
    let mut s = String::new();
    push_signed(&mut s, year);
    push_char(&mut s, '/');
    push_decimal(&mut s, month as u64);
    push_char(&mut s, '/');
    push_char(&mut s, '0');
    push_char(&mut s, '1');
    assert(s@ =~= date_text(year as int, month as int, seq!['0', '1']));
    s
}

/// The last day of a month of `year`, with the month's length counted in
/// `length_year`: `year/month/days`.
pub fn month_end(year: i32, month: u32, length_year: i32) -> (r: String)
    requires
        is_month(month as int),
    ensures
        r@ == date_text(year as int, month as int,
            decimal_nat(month_length(length_year as int, month as int) as nat)),
{
    let days = days_in_month(length_year, month);
    let mut s = String::new();
    push_signed(&mut s, year);
    push_char(&mut s, '/');
    push_decimal(&mut s, month as u64);
    push_char(&mut s, '/');
    push_decimal(&mut s, days as u64);
    assert(s@ =~= date_text(year as int, month as int,
            decimal_nat(month_length(length_year as int, month as int) as nat)));
    s
}


/// The short English name of a month, or `Error` for a number that is no month.
pub open spec fn month_abbreviation(m: int) -> Seq<char> {
    if m == 1 { "Jan"@ }
    else if m == 2 { "Feb"@ }
    else if m == 3 { "Mar"@ }
    else if m == 4 { "Apr"@ }
    else if m == 5 { "May"@ }
    else if m == 6 { "Jun"@ }
    else if m == 7 { "Jul"@ }
    else if m == 8 { "Aug"@ }
    else if m == 9 { "Sep"@ }
    else if m == 10 { "Oct"@ }
    else if m == 11 { "Nov"@ }
    else if m == 12 { "Dec"@ }
    else { "Error"@ }
}

/// The short English name of a month, or `Error` for a number that is no month.
pub fn month_name(m: i128) -> (r: &'static str)
    ensures
        r@ == month_abbreviation(m as int),
{
    if m == 1 { "Jan" }
    else if m == 2 { "Feb" }
    else if m == 3 { "Mar" }
    else if m == 4 { "Apr" }
    else if m == 5 { "May" }
    else if m == 6 { "Jun" }
    else if m == 7 { "Jul" }
    else if m == 8 { "Aug" }
    else if m == 9 { "Sep" }
    else if m == 10 { "Oct" }
    else if m == 11 { "Nov" }
    else if m == 12 { "Dec" }
    else { "Error" }
}

/// The month number that a mark of the yearly plots' month axis stands for:
/// the axis counts from the current month a year ago (0) to the current month (12).
pub open spec fn axis_month(month: int, offset: int) -> int {
    if month - 12 + offset <= 0 {
        month + offset
    } else {
        month - 12 + offset
    }
}

/// The label of a mark of the month axis: the month's short name and the year.
/// `offset` is the mark's position where it is a whole number, and `None`
/// where it is not (such a mark gets the name `Error`).
pub fn axis_label(month: u32, offset: Option<i64>, year: i32) -> (r: String)
    requires
        is_month(month as int),
    ensures
        r@ == month_abbreviation(
            match offset {
                Some(o) => axis_month(month as int, o as int),
                None => 0,
            },
        ) + seq![' '] + decimal_int(year as int),
{
    let m: i128 = match offset {
        Some(o) => {
            if month as i128 - 12 + o as i128 <= 0 {
                month as i128 + o as i128
            } else {
                month as i128 - 12 + o as i128
            }
        },
        None => 0,
    };
    let mut s = month_name(m).to_owned();
    push_char(&mut s, ' ');
    push_signed(&mut s, year);
    s
}


/// The thirteen points of a yearly plot stand for consecutive months, from the
/// current month a year ago to the current month.
pub proof fn plot_months_consecutive(year: int, month: int, offset: int)
    requires
        is_month(month),
        0 <= offset < 12,
    ensures
        plot_month_spec(year, month, 0) == (year - 1, month),
        plot_month_spec(year, month, 12) == (year, month),
        month_serial(plot_month_spec(year, month, offset + 1).0, plot_month_spec(year, month, offset + 1).1)
            == month_serial(plot_month_spec(year, month, offset).0, plot_month_spec(year, month, offset).1) + 1,
{
}

/// The month axis names, at each of the thirteen points, the month that the
/// point's balance was taken for.
pub proof fn axis_names_plotted_month(year: int, month: int, offset: int)
    requires
        is_month(month),
        0 <= offset <= 12,
    ensures
        axis_month(month, offset) == plot_month_spec(year, month, offset).1,
        is_month(axis_month(month, offset)),
{
}


/// Each month 1 to 12 is named by its own English abbreviation, in calendar
/// order, and any other number by `Error`.
pub proof fn month_names_in_calendar_order(m: int)
    ensures
        month_abbreviation(1) == seq!['J', 'a', 'n'],
        month_abbreviation(2) == seq!['F', 'e', 'b'],
        month_abbreviation(3) == seq!['M', 'a', 'r'],
        month_abbreviation(4) == seq!['A', 'p', 'r'],
        month_abbreviation(5) == seq!['M', 'a', 'y'],
        month_abbreviation(6) == seq!['J', 'u', 'n'],
        month_abbreviation(7) == seq!['J', 'u', 'l'],
        month_abbreviation(8) == seq!['A', 'u', 'g'],
        month_abbreviation(9) == seq!['S', 'e', 'p'],
        month_abbreviation(10) == seq!['O', 'c', 't'],
        month_abbreviation(11) == seq!['N', 'o', 'v'],
        month_abbreviation(12) == seq!['D', 'e', 'c'],
        !is_month(m) ==> month_abbreviation(m) == seq!['E', 'r', 'r', 'o', 'r'],
{
    reveal_strlit("Jan");
    reveal_strlit("Feb");
    reveal_strlit("Mar");
    reveal_strlit("Apr");
    reveal_strlit("May");
    reveal_strlit("Jun");
    reveal_strlit("Jul");
    reveal_strlit("Aug");
    reveal_strlit("Sep");
    reveal_strlit("Oct");
    reveal_strlit("Nov");
    reveal_strlit("Dec");
    reveal_strlit("Error");
    assert(month_abbreviation(1) =~= seq!['J', 'a', 'n']);
    assert(month_abbreviation(2) =~= seq!['F', 'e', 'b']);
    assert(month_abbreviation(3) =~= seq!['M', 'a', 'r']);
    assert(month_abbreviation(4) =~= seq!['A', 'p', 'r']);
    assert(month_abbreviation(5) =~= seq!['M', 'a', 'y']);
    assert(month_abbreviation(6) =~= seq!['J', 'u', 'n']);
    assert(month_abbreviation(7) =~= seq!['J', 'u', 'l']);
    assert(month_abbreviation(8) =~= seq!['A', 'u', 'g']);
    assert(month_abbreviation(9) =~= seq!['S', 'e', 'p']);
    assert(month_abbreviation(10) =~= seq!['O', 'c', 't']);
    assert(month_abbreviation(11) =~= seq!['N', 'o', 'v']);
    assert(month_abbreviation(12) =~= seq!['D', 'e', 'c']);
    if !is_month(m) {
        assert(month_abbreviation(m) =~= seq!['E', 'r', 'r', 'o', 'r']);
    }
}

/// The months of the Gregorian calendar: April, June, September and November
/// have 30 days, February 29 in years divisible by 4 but not by 100 unless by
/// 400 and 28 in the others, and the other months 31.
pub proof fn month_lengths_of_the_calendar(year: int, month: int)
    requires
        is_month(month),
    ensures
        (month == 4 || month == 6 || month == 9 || month == 11) ==> month_length(year, month) == 30,
        (month == 1 || month == 3 || month == 5 || month == 7 || month == 8 || month == 10
            || month == 12) ==> month_length(year, month) == 31,
        month == 2 && ((year % 4 == 0 && year % 100 != 0) || year % 400 == 0)
            ==> month_length(year, month) == 29,
        month == 2 && !((year % 4 == 0 && year % 100 != 0) || year % 400 == 0)
            ==> month_length(year, month) == 28,
{
}

} // verus!
