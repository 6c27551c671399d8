//! Calendar dates, held as their day number in the proleptic Gregorian calendar, and the
//! days of the week.
use vstd::prelude::*;
use chrono::{Datelike, NaiveDate, TimeDelta};
use vstd::arithmetic::div_mod::{lemma_fundamental_div_mod, lemma_fundamental_div_mod_converse};
use crate::text::{digit_char, digits_of};

verus! {

/// The day number of the earliest date that `chrono::NaiveDate` holds (`NaiveDate::MIN`,
/// January 1, 262144 BCE); January 1 of the year 1 is day 1.
pub const MIN_DAY: i32 = -95746129;

/// The day number of the latest date that `chrono::NaiveDate` holds (`NaiveDate::MAX`,
/// December 31, 262142 CE).
pub const MAX_DAY: i32 = 95745399;

/// Whether `day` is the day number of a date.
pub open spec fn is_day(day: int) -> bool {
    MIN_DAY <= day <= MAX_DAY
}

/// The day of the week of a day number, counted from Monday = 0: day 1 (January 1 of the
/// year 1) was a Monday, and the days of the week follow each other without gap.
pub open spec fn weekday_of(day: int) -> int {
    (day + 6) % 7
}

/// A day of the week.
#[derive(Clone, Copy, Debug, PartialEq, Eq, Structural)]
pub enum Weekday {
    Mon,
    Tue,
    Wed,
    Thu,
    Fri,
    Sat,
    Sun,
}

impl Weekday {
    /// The number of the day, counted from Monday = 0.
    pub open spec fn index(self) -> int {
        match self {
            Weekday::Mon => 0,
            Weekday::Tue => 1,
            Weekday::Wed => 2,
            Weekday::Thu => 3,
            Weekday::Fri => 4,
            Weekday::Sat => 5,
            Weekday::Sun => 6,
        }
    }

    /// The number of the day, counted from Monday = 0.
    pub fn num_days_from_monday(&self) -> (r: u32)
        ensures
            r == self.index(),
    {
        match self {
            Weekday::Mon => 0,
            Weekday::Tue => 1,
            Weekday::Wed => 2,
            Weekday::Thu => 3,
            Weekday::Fri => 4,
            Weekday::Sat => 5,
            Weekday::Sun => 6,
        }
    }

    /// The day whose number, counted from Monday = 0, is `n`.
    pub fn from_monday_number(n: u32) -> (r: Weekday)
        requires
            n < 7,
        ensures
            r.index() == n,
    {
        if n == 0 {
            Weekday::Mon
        } else if n == 1 {
            Weekday::Tue
        } else if n == 2 {
            Weekday::Wed
        } else if n == 3 {
            Weekday::Thu
        } else if n == 4 {
            Weekday::Fri
        } else if n == 5 {
            Weekday::Sat
        } else {
            Weekday::Sun
        }
    }
}

/// A calendar date within the range of `chrono::NaiveDate`, held as its day number
/// (`Datelike::num_days_from_ce`).
#[derive(Clone, Copy, Debug, PartialEq, Eq, Structural)]
pub struct Date {
    days: i32,
}

impl View for Date {
    type V = int;

    /// The day number of the date.
    closed spec fn view(&self) -> int {
        self.days as int
    }
}

impl Date {
    #[verifier::type_invariant]
    spec fn in_range(self) -> bool {
        is_day(self.days as int)
    }

    /// The date with day number `days`, if there is one.
    pub fn from_day_number(days: i32) -> (r: Option<Date>)
        ensures
            r is Some <==> is_day(days as int),
            r matches Some(d) ==> d@ == days,
    {
        if MIN_DAY <= days && days <= MAX_DAY {
            Some(Date { days })
        } else {
            None
        }
    }

    /// The day number of the date.
    pub fn day_number(&self) -> (r: i32)
        ensures
            r == self@,
            is_day(r as int),
    {
        proof {
            use_type_invariant(self);
        }
        self.days
    }

    /// The date `year`-`month`-`day` of the proleptic Gregorian calendar, if there is one.
    pub fn from_ymd_opt(year: i32, month: u32, day: u32) -> (r: Option<Date>)
        ensures
            r is Some <==> ymd_day_number(year as int, month as int, day as int) is Some,
            r matches Some(d) ==> ymd_day_number(year as int, month as int, day as int) == Some(
                d@,
            ),
    {
        match day_number_of_ymd(year, month, day) {
            Some(n) => Date::from_day_number(n),
            None => None,
        }
    }

    /// The date read from a text in the format `%Y-%m-%d`, or the parse error's text.
    pub fn parse_ymd(text: &str) -> (r: Result<Date, String>)
        ensures
            r matches Ok(d) ==> parsed_iso_date(text@) == Ok::<int, Seq<char>>(d@),
            r matches Err(e) ==> parsed_iso_date(text@) == Err::<int, Seq<char>>(e@),
    {
        match parse_iso_day_number(text) {
            Ok(n) => match Date::from_day_number(n) {
                Some(d) => Ok(d),
                None => Err(String::new()),
            },
            Err(e) => Err(e),
        }
    }

    /// The date written in the format `%Y-%m-%d`.
    pub fn format_ymd(&self) -> (r: String)
        ensures
            r@ == iso_date_text(self@),
    {
        proof {
            use_type_invariant(self);
        }
        iso_text_of_day(self.days)
    }

    /// The year of the date.
    pub fn year(&self) -> (r: i32)
        ensures
            r == year_of_day(self@),
    {
        proof {
            use_type_invariant(self);
        }
        year_of_day_number(self.days)
    }

    /// Whether two dates are the same day.
    pub fn same_day(&self, other: &Date) -> (r: bool)
        ensures
            r == (self@ == other@),
    {
        self.days == other.days
    }

    /// The date `n` days later (earlier, for a negative `n`), if it is a date.
    pub fn add_days(&self, n: i32) -> (r: Option<Date>)
        ensures
            r is Some <==> is_day(self@ + n),
            r matches Some(d) ==> d@ == self@ + n,
    {
        proof {
            use_type_invariant(self);
        }
        match day_number_plus(self.days, n) {
            Some(d) => Some(Date { days: d }),
            None => None,
        }
    }

    /// The day of the week of the date.
    pub fn weekday(&self) -> (r: Weekday)
        ensures
            r.index() == weekday_of(self@),
    {
        proof {
            use_type_invariant(self);
        }
        match weekday_number(self.days) {
            Some(n) => Weekday::from_monday_number(n),
            None => Weekday::Mon,
        }
    }
}

/// `NaiveDate::from_num_days_from_ce_opt`, then `Datelike::weekday` and
/// `Weekday::num_days_from_monday`: the day of the week of the date with day number `days`,
/// counted from Monday = 0. Claimed: for a day number within `NaiveDate::MIN` to
/// `NaiveDate::MAX` the date exists, and its day of the week is `(days + 6) mod 7` (chrono
/// counts January 1 of the year 1, a Monday of the proleptic Gregorian calendar, as day 1).
#[verifier::external_body]
fn weekday_number(days: i32) -> (r: Option<u32>)
    requires
        is_day(days as int),
    ensures
        r == Some(weekday_of(days as int) as u32),
{
    NaiveDate::from_num_days_from_ce_opt(days).map(|d| d.weekday().num_days_from_monday())
}

/// The earliest year of `chrono::NaiveDate`.
pub const MIN_YEAR: i32 = -262143;

/// The latest year of `chrono::NaiveDate`.
pub const MAX_YEAR: i32 = 262142;

/// Whether `year` is a leap year of the proleptic Gregorian calendar.
pub open spec fn is_leap_year(year: int) -> bool {
    year % 4 == 0 && (year % 100 != 0 || year % 400 == 0)
}

/// The number of days of `month` (1 to 12) in `year`.
pub open spec fn month_length(year: int, month: int) -> int {
    if month == 2 {
        if is_leap_year(year) {
            29
        } else {
            28
        }
    } else if month == 4 || month == 6 || month == 9 || month == 11 {
        30
    } else {
        31
    }
}

/// The number of days of `year` before the first of `month` (1 to 12).
pub open spec fn days_before_month(year: int, month: int) -> int {
    let common: int = if month == 1 {
        0
    } else if month == 2 {
        31
    } else if month == 3 {
        59
    } else if month == 4 {
        90
    } else if month == 5 {
        120
    } else if month == 6 {
        151
    } else if month == 7 {
        181
    } else if month == 8 {
        212
    } else if month == 9 {
        243
    } else if month == 10 {
        273
    } else if month == 11 {
        304
    } else {
        334
    };
    if month > 2 && is_leap_year(year) {
        common + 1
    } else {
        common
    }
}

/// The number of days from January 1 of the year 1 to January 1 of `year`.
pub open spec fn days_before_year(year: int) -> int {
    let y = year - 1;
    365 * y + y / 4 - y / 100 + y / 400
}

/// The day number of the calendar date `year`-`month`-`day` (January 1 of the year 1 is
/// day 1), or `None` where there is no such date within chrono's years.
pub open spec fn ymd_day_number(year: int, month: int, day: int) -> Option<int> {
    if MIN_YEAR <= year <= MAX_YEAR && 1 <= month <= 12 && 1 <= day <= month_length(year, month) {
        Some(days_before_year(year) + days_before_month(year, month) + day)
    } else {
        None
    }
}

/// The calendar date `(year, month, day)` whose day number is `day`.
pub open spec fn date_of_day(day: int) -> (int, int, int) {
    choose|y: int, m: int, d: int| ymd_day_number(y, m, d) == Some(day)
}

/// The year of the date with day number `day`.
pub open spec fn year_of_day(day: int) -> int {
    date_of_day(day).0
}

/// The decimal digits of `n`, with zeros in front up to `width` characters.
pub open spec fn zero_padded(n: nat, width: nat) -> Seq<char> {
    let digits = digits_of(n);
    if digits.len() >= width {
        digits
    } else {
        Seq::new((width - digits.len()) as nat, |i: int| '0') + digits
    }
}

/// A year as `%Y` writes it: four digits for the years 0 to 9999, else a sign and at
/// least four digits.
pub open spec fn year_text(year: int) -> Seq<char> {
    if 0 <= year <= 9999 {
        zero_padded(year as nat, 4)
    } else if year < 0 {
        seq!['-'] + zero_padded((-year) as nat, 4)
    } else {
        seq!['+'] + zero_padded(year as nat, 4)
    }
}

/// A month or a day of the month (1 to 31) as two digits.
pub open spec fn two_digits(n: int) -> Seq<char> {
    seq![digit_char(n / 10), digit_char(n % 10)]
}

/// The text of the date with day number `day` in the format `%Y-%m-%d`.
pub open spec fn iso_date_text(day: int) -> Seq<char> {
    let (y, m, d) = date_of_day(day);
    year_text(y) + seq!['-'] + two_digits(m) + seq!['-'] + two_digits(d)
}

/// What `NaiveDate::parse_from_str(text, "%Y-%m-%d")` gives: the day number of the
/// date read, or the text of the parse error.
pub uninterp spec fn parsed_iso_date(text: Seq<char>) -> Result<int, Seq<char>>;

/// `NaiveDate::from_num_days_from_ce_opt`, then `NaiveDate::checked_add_signed` with
/// `TimeDelta::days(n)` and `Datelike::num_days_from_ce`. Claimed: adding `n` whole days
/// to a date moves its day number by `n`, and the sum is `None` exactly where it would
/// leave `NaiveDate::MIN` to `NaiveDate::MAX`.
#[verifier::external_body]
fn day_number_plus(days: i32, n: i32) -> (r: Option<i32>)
    requires
        is_day(days as int),
    ensures
        r is Some <==> is_day(days + n),
        r matches Some(d) ==> d == days + n,
{
    NaiveDate::from_num_days_from_ce_opt(days).and_then(
        |d| d.checked_add_signed(TimeDelta::days(n as i64)),
    ).map(|d| d.num_days_from_ce())
}

/// `NaiveDate::from_ymd_opt`, then `Datelike::num_days_from_ce`. Claimed: there is a date
/// exactly where the year is within chrono's years and the month and day exist in the
/// proleptic Gregorian calendar, its day number counts the days from January 1 of the
/// year 1 as day 1, and it lies within `NaiveDate::MIN` to `NaiveDate::MAX`.
#[verifier::external_body]
fn day_number_of_ymd(year: i32, month: u32, day: u32) -> (r: Option<i32>)
    ensures
        r matches Some(n) ==> ymd_day_number(year as int, month as int, day as int) == Some(
            n as int,
        ) && is_day(n as int),
        r is None ==> ymd_day_number(year as int, month as int, day as int) is None,
{
    NaiveDate::from_ymd_opt(year, month, day).map(|d| d.num_days_from_ce())
}

/// The number of days of `year`.
pub open spec fn year_length(year: int) -> int {
    if is_leap_year(year) {
        366
    } else {
        365
    }
}

proof fn lemma_div_step(y: int, k: int)
    requires
        k > 0,
    ensures
        y / k - (y - 1) / k == (if y % k == 0 {
            1int
        } else {
            0int
        }),
{
    lemma_fundamental_div_mod(y, k);
    lemma_fundamental_div_mod(y - 1, k);
    let q1 = y / k;
    let q2 = (y - 1) / k;
    let r1 = y % k;
    let r2 = (y - 1) % k;
    assert(k * (q1 - q2) == r2 - r1 + 1) by (nonlinear_arith)
        requires
            y == k * q1 + r1,
            y - 1 == k * q2 + r2,
    ;
    if r1 == 0 {
        assert(q1 - q2 == 1) by (nonlinear_arith)
            requires
                k * (q1 - q2) == r2 + 1,
                0 <= r2 < k,
        ;
    } else {
        assert(q1 - q2 == 0) by (nonlinear_arith)
            requires
                k * (q1 - q2) == r2 - r1 + 1,
                0 <= r2 < k,
                0 < r1 < k,
        ;
    }
}

proof fn lemma_divides_by_factor(y: int, a: int, b: int)
    requires
        a > 0,
        b > 0,
        y % (a * b) == 0,
    ensures
        y % a == 0,
{
    assert(a * b > 0) by (nonlinear_arith)
        requires
            a > 0,
            b > 0,
    ;
    lemma_fundamental_div_mod(y, a * b);
    let q = y / (a * b);
    assert(y == a * (b * q)) by (nonlinear_arith)
        requires
            y == (a * b) * q + y % (a * b),
            y % (a * b) == 0,
    ;
    lemma_fundamental_div_mod_converse(y, a, b * q, 0);
}

/// A year has 365 days, or 366 in a leap year.
proof fn lemma_year_length(year: int)
    ensures
        days_before_year(year + 1) == days_before_year(year) + year_length(year),
{
    lemma_div_step(year, 4);
    lemma_div_step(year, 100);
    lemma_div_step(year, 400);
    if year % 400 == 0 {
        lemma_divides_by_factor(year, 100, 4);
        lemma_divides_by_factor(year, 4, 100);
    }
    if year % 100 == 0 {
        lemma_divides_by_factor(year, 4, 25);
    }
}

proof fn lemma_years_ordered(a: int, b: int)
    requires
        a <= b,
    ensures
        days_before_year(a) <= days_before_year(b),
    decreases b - a,
{
    if a < b {
        lemma_year_length(a);
        lemma_years_ordered(a + 1, b);
    }
}

proof fn lemma_day_in_year(year: int, month: int, day: int)
    requires
        1 <= month <= 12,
        1 <= day <= month_length(year, month),
    ensures
        1 <= days_before_month(year, month) + day <= year_length(year),
{
}

proof fn lemma_month_day_unique(year: int, m1: int, d1: int, m2: int, d2: int)
    requires
        1 <= m1 <= 12,
        1 <= d1 <= month_length(year, m1),
        1 <= m2 <= 12,
        1 <= d2 <= month_length(year, m2),
        days_before_month(year, m1) + d1 == days_before_month(year, m2) + d2,
    ensures
        m1 == m2 && d1 == d2,
{
}

/// Each day number is the day number of one calendar date only: the date made from a
/// year, a month and a day has that year, and is written with them.
pub proof fn lemma_calendar_date(year: int, month: int, day: int)
    requires
        ymd_day_number(year, month, day) is Some,
    ensures
        date_of_day(ymd_day_number(year, month, day)->0) == (year, month, day),
        year_of_day(ymd_day_number(year, month, day)->0) == year,
        iso_date_text(ymd_day_number(year, month, day)->0) == year_text(year) + seq!['-']
            + two_digits(month) + seq!['-'] + two_digits(day),
{
    let n = ymd_day_number(year, month, day)->0;
    assert(ymd_day_number(year, month, day) == Some(n));
    let (y2, m2, d2) = date_of_day(n);
    assert(ymd_day_number(y2, m2, d2) == Some(n));
    lemma_day_in_year(year, month, day);
    lemma_day_in_year(y2, m2, d2);
    lemma_year_length(year);
    lemma_year_length(y2);
    if year < y2 {
        lemma_years_ordered(year + 1, y2);
    } else if y2 < year {
        lemma_years_ordered(y2 + 1, year);
    }
    assert(y2 == year);
    lemma_month_day_unique(year, month, day, m2, d2);
}

/// `NaiveDate::from_num_days_from_ce_opt`, then `format("%Y-%m-%d")` and `to_string`.
/// Claimed: the result is the date's year written as `%Y` does (four digits for the
/// years 0 to 9999, else a sign and at least four digits), `-`, the month and `-`, the
/// day of the month, each as two digits.
#[verifier::external_body]
fn iso_text_of_day(days: i32) -> (r: String)
    requires
        is_day(days as int),
    ensures
        r@ == iso_date_text(days as int),
{
    match NaiveDate::from_num_days_from_ce_opt(days) {
        Some(d) => d.format("%Y-%m-%d").to_string(),
        None => String::new(),
    }
}

/// `NaiveDate::from_num_days_from_ce_opt`, then `Datelike::year`. Claimed: the result is
/// the year of the date, the year of its calendar date.
#[verifier::external_body]
fn year_of_day_number(days: i32) -> (r: i32)
    requires
        is_day(days as int),
    ensures
        r == year_of_day(days as int),
{
    match NaiveDate::from_num_days_from_ce_opt(days) {
        Some(d) => d.year(),
        None => 0,
    }
}

/// A day number or an error text, as plain values.
pub open spec fn day_result_view(r: Result<i32, String>) -> Result<int, Seq<char>> {
    match r {
        Ok(n) => Ok(n as int),
        Err(e) => Err(e@),
    }
}

/// `NaiveDate::parse_from_str(text, "%Y-%m-%d")`, then `Datelike::num_days_from_ce`, the
/// error given by its `to_string`. Claimed: the result is the named outcome, and a parsed
/// date lies within `NaiveDate::MIN` to `NaiveDate::MAX`.
#[verifier::external_body]
fn parse_iso_day_number(text: &str) -> (r: Result<i32, String>)
    ensures
        day_result_view(r) == parsed_iso_date(text@),
        r matches Ok(n) ==> is_day(n as int),
{
    NaiveDate::parse_from_str(text, "%Y-%m-%d").map(|d| d.num_days_from_ce()).map_err(
        |e| e.to_string(),
    )
}

/// The number of days from the day `day` to the first day, on or after it, whose weekday
/// number is `target`.
pub open spec fn days_until(day: int, target: int) -> int {
    (target - weekday_of(day)) % 7
}

/// The day number of the first day, on or after `day`, whose weekday number is `target`.
pub open spec fn next_weekday_day(day: int, target: int) -> int {
    day + days_until(day, target)
}

/// The first date on or after `from` that falls on `target`: `from` itself when it falls
/// on `target`, else the date 1 to 6 days later.
pub fn next_weekday(from: Date, target: Weekday) -> (r: Date)
    requires
        next_weekday_day(from@, target.index()) <= MAX_DAY,
    ensures
        r@ == next_weekday_day(from@, target.index()),
        from@ <= r@ <= from@ + 6,
        weekday_of(r@) == target.index(),
        forall|k: int| from@ <= k < r@ ==> weekday_of(k) != target.index(),
{
    let current = from.weekday().num_days_from_monday();
    let target_num = target.num_days_from_monday();
    let gap: u32 = if target_num >= current {
        target_num - current
    } else {
        7 - current + target_num
    };
    assert(gap == days_until(from@, target.index()));
    let r = match from.add_days(gap as i32) {
        Some(d) => d,
        None => {
            proof {
                use_type_invariant(from);
            }
            from
        },
    };
    assert forall|k: int| from@ <= k < r@ implies weekday_of(k) != target.index() by {
        assert(weekday_of(k) == (weekday_of(from@) + (k - from@)) % 7);
    }
    r
}

/// A date falls on the day of the week of its own next such day: `next_weekday` of a date
/// and its own day of the week is the date itself.
pub proof fn lemma_next_weekday_same_day(day: int)
    ensures
        next_weekday_day(day, weekday_of(day)) == day,
{
}

/// The days of the week follow each other: the day after a day falls on the next day of
/// the week, and seven days later falls on the same day.
pub proof fn lemma_weekday_succession(day: int)
    ensures
        weekday_of(day + 1) == (weekday_of(day) + 1) % 7,
        weekday_of(day + 7) == weekday_of(day),
{
    let q = (day + 6) / 7;
    let r = (day + 6) % 7;
    assert(day + 6 == q * 7 + r);
    lemma_fundamental_div_mod_converse(day + 13, 7, q + 1, r);
    if r < 6 {
        lemma_fundamental_div_mod_converse(day + 7, 7, q, r + 1);
    } else {
        lemma_fundamental_div_mod_converse(day + 7, 7, q + 1, 0);
    }
}

} // verus!
