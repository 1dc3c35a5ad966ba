//! The date and time that a log line carries.

use vstd::prelude::*;

verus! {

/// How the date and time of a log line are written, in the notation of the `time` crate.
pub const DATE_FMT: &'static str =
    "[year]/[month]/[day]-[hour]:[minute]:[second].[subsecond digits:2]";

/// A date and a time of day, as a clock in some time zone shows them.
#[derive(Clone, Copy, Debug)]
pub struct Moment {
    /// Year of the proleptic Gregorian calendar.
    pub year: i32,
    /// Month, counted from 1.
    pub month: u8,
    /// Day of the month, counted from 1.
    pub day: u8,
    /// Hour of the day.
    pub hour: u8,
    /// Minute of the hour.
    pub minute: u8,
    /// Second of the minute.
    pub second: u8,
    /// Nanosecond of the second.
    pub nanosecond: u32,
    /// How many seconds the clock is ahead of UTC.
    pub offset: i32,
}

/// Whether a year of the Gregorian calendar has a 29th of February.
pub open spec fn is_leap_year(year: int) -> bool {
    year % 4 == 0 && (year % 100 != 0 || year % 400 == 0)
}

/// How many days a month has.
pub open spec fn days_in_month(year: int, month: int) -> int {
    if month == 2 {
        if is_leap_year(year) {
            29
        } else {
            28
        }
    } else if month == 4 || month == 6 || month == 9 || month == 11 {
        30
    } else {
        31
    }
}

impl Moment {
    /// The fields name a day that exists, a time of day, and an offset below 26 hours.
    pub open spec fn valid(self) -> bool {
        &&& -9999 <= self.year <= 9999
        &&& 1 <= self.month <= 12
        &&& 1 <= self.day <= days_in_month(self.year as int, self.month as int)
        &&& self.hour < 24
        &&& self.minute < 60
        &&& self.second < 60
        &&& self.nanosecond < 1_000_000_000
        &&& -93_599 <= self.offset <= 93_599
    }

    /// The text of the moment: `year/month/day-hour:minute:second.hundredths`.
    pub open spec fn text(self) -> Seq<char> {
        year_text(self.year as int) + "/"@ + two_digits(self.month as int) + "/"@ + two_digits(
            self.day as int,
        ) + "-"@ + two_digits(self.hour as int) + ":"@ + two_digits(self.minute as int) + ":"@
            + two_digits(self.second as int) + "."@ + two_digits(
            self.nanosecond as int / 10_000_000,
        )
    }
}

/// The decimal digit of a number below ten.
pub open spec fn digit(n: int) -> char {
    (48 + n) as char
}

/// A number below one hundred, written with two digits.
pub open spec fn two_digits(n: int) -> Seq<char> {
    seq![digit(n / 10), digit(n % 10)]
}

/// A year, written with four digits, and with a sign where it is negative.
pub open spec fn year_text(year: int) -> Seq<char> {
    if year < 0 {
        "-"@ + two_digits(-year / 100) + two_digits(-year % 100)
    } else {
        two_digits(year / 100) + two_digits(year % 100)
    }
}

/// `time::error::IndeterminateOffset`, the failure to learn the local offset.
#[verifier::external_type_specification]
#[verifier::external_body]
pub struct ExIndeterminateOffset(time::error::IndeterminateOffset);

/// `time::error::Format`, the failure to write a date out.
#[verifier::external_type_specification]
#[verifier::external_body]
pub struct ExFormat(time::error::Format);

/// `time::OffsetDateTime::now_local`, taken apart by the getters of its result. It reads the system
/// clock and the local time zone. Claimed: a date and time that it gives is one that exists. It
/// panics where the clock shows a year that the `time` crate cannot hold.
#[verifier::external_body]
pub(crate) fn now_local() -> (moment: Result<Moment, time::error::IndeterminateOffset>)
    ensures
        moment matches Ok(moment) ==> moment.valid(),
{
    let date_time = time::OffsetDateTime::now_local()?;
    Ok(Moment {
        year: date_time.year(),
        month: u8::from(date_time.month()),
        day: date_time.day(),
        hour: date_time.hour(),
        minute: date_time.minute(),
        second: date_time.second(),
        nanosecond: date_time.nanosecond(),
        offset: date_time.offset().whole_seconds(),
    })
}

/// `time::OffsetDateTime::now_utc`, taken apart by the getters of its result. It reads the system
/// clock. Claimed: the date and time is one that exists, and its offset is zero. It panics where
/// the clock shows a year that the `time` crate cannot hold.
#[verifier::external_body]
pub(crate) fn now_utc() -> (moment: Moment)
    ensures
        moment.valid(),
        moment.offset == 0,
{
    let date_time = time::OffsetDateTime::now_utc();
    Moment {
        year: date_time.year(),
        month: u8::from(date_time.month()),
        day: date_time.day(),
        hour: date_time.hour(),
        minute: date_time.minute(),
        second: date_time.second(),
        nanosecond: date_time.nanosecond(),
        offset: date_time.offset().whole_seconds(),
    }
}

/// `time::OffsetDateTime::format` with the description [`DATE_FMT`]. Claimed: it succeeds, since
/// every component of the description is one that a date and time has, and gives the year with
/// four digits and a sign if it is negative, the other numbers with two digits each, the fraction
/// of the second cut off after the hundredths, and the characters between them as they stand.
#[verifier::external_body]
fn format_date_time(moment: &Moment, description: &str) -> (text: Result<
    String,
    time::error::Format,
>)
    requires
        moment.valid(),
        description@ == DATE_FMT@,
    ensures
        text is Ok,
        text->Ok_0@ == moment.text(),
{
    let items = time::format_description::parse_borrowed::<1>(description).unwrap();
    let month = time::Month::try_from(moment.month).unwrap();
    time::Date::from_calendar_date(moment.year, month, moment.day)
        .unwrap()
        .with_hms_nano(moment.hour, moment.minute, moment.second, moment.nanosecond)
        .unwrap()
        .assume_offset(time::UtcOffset::from_whole_seconds(moment.offset).unwrap())
        .format(&items)
}

/// The text of the local time, or of UTC where the local time is not known.
pub fn moment_text(local: Option<Moment>, utc: Moment) -> (text: String)
    requires
        local matches Some(moment) ==> moment.valid(),
        utc.valid(),
    ensures
        text@ == (match local {
            Some(moment) => moment.text(),
            None => utc.text(),
        }),
{
    let moment = match local {
        Some(moment) => moment,
        None => utc,
    };
    match format_date_time(&moment, DATE_FMT) {
        Ok(text) => text,
        Err(_) => vstd::pervasive::unreached(),
    }
}

/// The text of the current time: local time where the offset is known, otherwise UTC.
pub fn now() -> (text: String)
    ensures
        exists|moment: Moment| moment.valid() && text@ == #[trigger] moment.text(),
        exists|moment: Moment| clock_gave(moment) && text@ == #[trigger] moment.text(),
{
    let utc = now_utc();
    let reading = now_local();
    proof {
        assert(call_ensures(now_utc, (), utc));
        assert(call_ensures(now_local, (), reading));
        match reading {
            Ok(moment) => {
                assert(clock_gave(moment));
            },
            Err(error) => {
                assert(call_ensures(now_local, (), Err(error)));
                assert(clock_gave(utc));
            },
        }
    }
    let local = match reading {
        Ok(moment) => Some(moment),
        Err(_) => None,
    };
    moment_text(local, utc)
}

/// A character that occurs in the text of a moment.
pub open spec fn is_clock_char(c: char) -> bool {
    '0' <= c <= '9' || c == '/' || c == '-' || c == ':' || c == '.'
}

/// A text of such characters alone.
pub open spec fn is_clock_text(text: Seq<char>) -> bool {
    forall|i: int| 0 <= i < text.len() ==> is_clock_char(#[trigger] text[i])
}

/// A number and the separator before it.
proof fn lemma_clock_text_grows(text: Seq<char>, separator: Seq<char>, n: int)
    requires
        is_clock_text(text),
        is_clock_text(separator),
        0 <= n < 100,
    ensures
        is_clock_text(text + separator + two_digits(n)),
{
    let number = two_digits(n);
    assert(is_clock_char(number[0]) && is_clock_char(number[1]));
}

/// The text of a year.
proof fn lemma_year_is_clock_text(year: int)
    requires
        -9999 <= year <= 9999,
    ensures
        is_clock_text(year_text(year)),
{
    reveal_strlit("-");
    let none = Seq::<char>::empty();
    let n = if year < 0 {
        -year
    } else {
        year
    };
    lemma_clock_text_grows(none, none, n / 100);
    lemma_clock_text_grows(none + none + two_digits(n / 100), none, n % 100);
    let digits = two_digits(n / 100) + two_digits(n % 100);
    assert(none + none + two_digits(n / 100) + none + two_digits(n % 100) == digits);
    if year < 0 {
        assert(year_text(year) == "-"@ + digits);
    }
}

/// The text of a moment is made of digits and the characters `/`, `-`, `:` and `.` alone. So it
/// holds no line feed and no escape.
pub proof fn law_moment_text_characters(moment: Moment)
    requires
        moment.valid(),
    ensures
        is_clock_text(moment.text()),
        !moment.text().contains('\n'),
        !moment.text().contains('\x1b'),
{
    reveal_strlit("/");
    reveal_strlit("-");
    reveal_strlit(":");
    reveal_strlit(".");
    assert(is_clock_text("/"@) && is_clock_text("-"@) && is_clock_text(":"@) && is_clock_text("."@));
    let year = year_text(moment.year as int);
    lemma_year_is_clock_text(moment.year as int);
    lemma_clock_text_grows(year, "/"@, moment.month as int);
    let month = year + "/"@ + two_digits(moment.month as int);
    lemma_clock_text_grows(month, "/"@, moment.day as int);
    let day = month + "/"@ + two_digits(moment.day as int);
    lemma_clock_text_grows(day, "-"@, moment.hour as int);
    let hour = day + "-"@ + two_digits(moment.hour as int);
    lemma_clock_text_grows(hour, ":"@, moment.minute as int);
    let minute = hour + ":"@ + two_digits(moment.minute as int);
    lemma_clock_text_grows(minute, ":"@, moment.second as int);
    let second = minute + ":"@ + two_digits(moment.second as int);
    lemma_clock_text_grows(second, "."@, moment.nanosecond as int / 10_000_000);
}

/// Up to the year 9999 the text of a moment has 22 characters, each number at its own place.
pub proof fn law_moment_text_layout(moment: Moment)
    requires
        moment.valid(),
        moment.year >= 0,
    ensures
        moment.text().len() == 22,
        moment.text().subrange(0, 4) == year_text(moment.year as int),
        moment.text()[4] == '/',
        moment.text().subrange(5, 7) == two_digits(moment.month as int),
        moment.text()[7] == '/',
        moment.text().subrange(8, 10) == two_digits(moment.day as int),
        moment.text()[10] == '-',
        moment.text().subrange(11, 13) == two_digits(moment.hour as int),
        moment.text()[13] == ':',
        moment.text().subrange(14, 16) == two_digits(moment.minute as int),
        moment.text()[16] == ':',
        moment.text().subrange(17, 19) == two_digits(moment.second as int),
        moment.text()[19] == '.',
        moment.text().subrange(20, 22) == two_digits(moment.nanosecond as int / 10_000_000),
{
    reveal_strlit("/");
    reveal_strlit("-");
    reveal_strlit(":");
    reveal_strlit(".");
}

/// A moment that a reading of the clock gave: of the local clock, or of the UTC clock where a
/// reading of the local clock failed. It is known of what the two clocks returned, and of nothing
/// else.
pub closed spec fn clock_gave(moment: Moment) -> bool {
    ||| call_ensures(now_local, (), Ok(moment))
    ||| call_ensures(now_utc, (), moment) && exists|error: time::error::IndeterminateOffset|
        #[trigger] call_ensures(now_local, (), Err(error))
}

/// The clock gave a moment only if the local clock returned it, or if the local clock failed and
/// the UTC clock returned it. So a time that no clock was read as is none that [`now`] can tell.
pub(crate) proof fn law_time_is_read_from_the_clock(moment: Moment)
    ensures
        clock_gave(moment) ==> call_ensures(now_local, (), Ok(moment)) || (call_ensures(
            now_utc,
            (),
            moment,
        ) && exists|error: time::error::IndeterminateOffset| #[trigger]
            call_ensures(now_local, (), Err(error))),
        clock_gave(moment) ==> moment.valid(),
{
}

/// A moment is valid if and only if its day exists in its month, February having 29 days in every
/// fourth year but those of the centuries that 400 does not divide, and the other fields are in
/// range.
pub proof fn law_valid_moments(moment: Moment)
    ensures
        moment.valid() <==> {
            &&& -9999 <= moment.year <= 9999
            &&& 1 <= moment.month <= 12
            &&& 1 <= moment.day <= 31
            &&& moment.month == 4 || moment.month == 6 || moment.month == 9 || moment.month == 11
                ==> moment.day <= 30
            &&& moment.month == 2 ==> moment.day <= 29
            &&& moment.month == 2 && moment.day == 29 ==> moment.year % 4 == 0
            &&& moment.month == 2 && moment.day == 29 && moment.year % 100 == 0 ==> moment.year
                % 400 == 0
            &&& moment.hour <= 23
            &&& moment.minute <= 59
            &&& moment.second <= 59
            &&& moment.nanosecond <= 999_999_999
            &&& -93_599 <= moment.offset <= 93_599
        },
{
}

/// The digits of a number below one hundred.
proof fn lemma_two_digits(n: int)
    requires
        0 <= n < 100,
    ensures
        two_digits(n).len() == 2,
        two_digits(n)[0] as int == 48 + n / 10,
        two_digits(n)[1] as int == 48 + n % 10,
{
}

/// The digits of a number of four digits, taken two by two.
proof fn lemma_four_digits(n: int)
    requires
        0 <= n <= 9999,
    ensures
        0 <= n / 100 < 100,
        n / 100 / 10 == n / 1000,
        n % 100 / 10 == n / 10 % 10,
        n % 100 % 10 == n % 10,
{
}

/// The digits of a year that is not negative.
proof fn lemma_year_digits(year: int)
    requires
        0 <= year <= 9999,
    ensures
        year_text(year).len() == 4,
        year_text(year)[0] as int == 48 + year / 1000,
        year_text(year)[1] as int == 48 + year / 100 % 10,
        year_text(year)[2] as int == 48 + year / 10 % 10,
        year_text(year)[3] as int == 48 + year % 10,
{
    lemma_four_digits(year);
    lemma_two_digits(year / 100);
    lemma_two_digits(year % 100);
}

/// The text of a moment from the month on, as it stands behind any text of the year.
proof fn lemma_text_behind_the_year(moment: Moment) -> (rest: Seq<char>)
    requires
        moment.valid(),
    ensures
        moment.text() == year_text(moment.year as int) + rest,
        rest.len() == 18,
        rest[0] == '/',
        rest[1] as int == 48 + moment.month as int / 10,
        rest[2] as int == 48 + moment.month as int % 10,
        rest[3] == '/',
        rest[4] as int == 48 + moment.day as int / 10,
        rest[5] as int == 48 + moment.day as int % 10,
        rest[6] == '-',
        rest[7] as int == 48 + moment.hour as int / 10,
        rest[8] as int == 48 + moment.hour as int % 10,
        rest[9] == ':',
        rest[10] as int == 48 + moment.minute as int / 10,
        rest[11] as int == 48 + moment.minute as int % 10,
        rest[12] == ':',
        rest[13] as int == 48 + moment.second as int / 10,
        rest[14] as int == 48 + moment.second as int % 10,
        rest[15] == '.',
        rest[16] as int == 48 + moment.nanosecond as int / 10_000_000 / 10,
        rest[17] as int == 48 + moment.nanosecond as int / 10_000_000 % 10,
{
    reveal_strlit("/");
    reveal_strlit("-");
    reveal_strlit(":");
    reveal_strlit(".");
    lemma_two_digits(moment.month as int);
    lemma_two_digits(moment.day as int);
    lemma_two_digits(moment.hour as int);
    lemma_two_digits(moment.minute as int);
    lemma_two_digits(moment.second as int);
    lemma_two_digits(moment.nanosecond as int / 10_000_000);
    let rest = "/"@ + two_digits(moment.month as int) + "/"@ + two_digits(moment.day as int) + "-"@
        + two_digits(moment.hour as int) + ":"@ + two_digits(moment.minute as int) + ":"@
        + two_digits(moment.second as int) + "."@ + two_digits(
        moment.nanosecond as int / 10_000_000,
    );
    assert(moment.text() =~= year_text(moment.year as int) + rest);
    rest
}

/// Every number of a moment can be read off its text, digit by digit: the year from the first four
/// places (after a minus sign where it is negative), then the month, the day, the hour, the minute,
/// the second and the hundredths from two places each, with one separator before each of them.
pub proof fn law_moment_text_digits(moment: Moment)
    requires
        moment.valid(),
    ensures
        ({
            let text = moment.text();
            let sign = if moment.year < 0 {
                1int
            } else {
                0int
            };
            let year = if moment.year < 0 {
                -(moment.year as int)
            } else {
                moment.year as int
            };
            let hundredths = moment.nanosecond as int / 10_000_000;
            &&& text.len() == 22 + sign
            &&& moment.year < 0 ==> text[0] == '-'
            &&& text[sign] as int == 48 + year / 1000
            &&& text[sign + 1] as int == 48 + year / 100 % 10
            &&& text[sign + 2] as int == 48 + year / 10 % 10
            &&& text[sign + 3] as int == 48 + year % 10
            &&& text[sign + 4] == '/'
            &&& text[sign + 5] as int == 48 + moment.month as int / 10
            &&& text[sign + 6] as int == 48 + moment.month as int % 10
            &&& text[sign + 7] == '/'
            &&& text[sign + 8] as int == 48 + moment.day as int / 10
            &&& text[sign + 9] as int == 48 + moment.day as int % 10
            &&& text[sign + 10] == '-'
            &&& text[sign + 11] as int == 48 + moment.hour as int / 10
            &&& text[sign + 12] as int == 48 + moment.hour as int % 10
            &&& text[sign + 13] == ':'
            &&& text[sign + 14] as int == 48 + moment.minute as int / 10
            &&& text[sign + 15] as int == 48 + moment.minute as int % 10
            &&& text[sign + 16] == ':'
            &&& text[sign + 17] as int == 48 + moment.second as int / 10
            &&& text[sign + 18] as int == 48 + moment.second as int % 10
            &&& text[sign + 19] == '.'
            &&& text[sign + 20] as int == 48 + hundredths / 10
            &&& text[sign + 21] as int == 48 + hundredths % 10
        }),
{
    let year = moment.year as int;
    let rest = lemma_text_behind_the_year(moment);
    if year < 0 {
        reveal_strlit("-");
        lemma_year_digits(-year);
        assert(year_text(year) =~= "-"@ + year_text(-year));
    } else {
        lemma_year_digits(year);
    }
}

} // verus!
