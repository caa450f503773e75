//! Calendar dates and date-times with a fixed UTC offset.

use vstd::prelude::*;
use crate::text::{lemma_append, nat_text, push_nat};

verus! {

/// A calendar date as plain numbers.
pub struct DateModel {
    pub year: int,
    pub month: int,
    pub day: int,
}

/// A date-time as plain numbers: a calendar date, a time of day and the
/// offset from UTC, in seconds, of the zone the time of day is read in.
pub struct DateTimeModel {
    pub date: DateModel,
    pub hour: int,
    pub minute: int,
    pub second: int,
    pub nanosecond: int,
    pub offset: int,
}

/// Leap years of the proleptic Gregorian calendar.
pub open spec fn is_leap_year(year: int) -> bool {
    let y = if year < 0 {
        -year
    } else {
        year
    };
    y % 4 == 0 && (y % 100 != 0 || y % 400 == 0)
}

/// The number of days of `month` in `year`; 0 where `month` is no month.
pub open spec fn days_in_month(year: int, month: int) -> int {
    if month == 2 {
        if is_leap_year(year) {
            29
        } else {
            28
        }
    } else if month == 4 || month == 6 || month == 9 || month == 11 {
        30
    } else if 1 <= month <= 12 {
        31
    } else {
        0
    }
}

/// A date is valid when its year has at most four digits and its month and
/// day exist in the calendar.
pub open spec fn valid_date(d: DateModel) -> bool {
    &&& -9999 <= d.year <= 9999
    &&& 1 <= d.month <= 12
    &&& 1 <= d.day <= days_in_month(d.year, d.month)
}

/// A date-time is valid when its date is, its time of day exists and its
/// offset is less than a day.
pub open spec fn valid_date_time(t: DateTimeModel) -> bool {
    &&& valid_date(t.date)
    &&& 0 <= t.hour < 24
    &&& 0 <= t.minute < 60
    &&& 0 <= t.second < 60
    &&& 0 <= t.nanosecond < 1_000_000_000
    &&& -86_400 < t.offset < 86_400
}

/// Midnight UTC at the start of `date`.
pub open spec fn midnight_utc(date: DateModel) -> DateTimeModel {
    DateTimeModel { date, hour: 0, minute: 0, second: 0, nanosecond: 0, offset: 0 }
}

/// The Unix timestamp, in nanoseconds, of the date-time with the given
/// parts, as the `time` crate computes it; none where the crate does not
/// accept the parts.
pub uninterp spec fn instant_nanos(
    year: int,
    month: int,
    day: int,
    hour: int,
    minute: int,
    second: int,
    nanosecond: int,
    offset: int,
) -> Option<int>;

/// The Unix timestamp of a date-time, in nanoseconds.
pub open spec fn instant_of(t: DateTimeModel) -> Option<int> {
    instant_nanos(
        t.date.year,
        t.date.month,
        t.date.day,
        t.hour,
        t.minute,
        t.second,
        t.nanosecond,
        t.offset,
    )
}

/// The numeral of `n`, with zeros in front up to `width` characters.
pub open spec fn padded(n: nat, width: nat) -> Seq<char> {
    let digits = nat_text(n);
    if digits.len() >= width {
        digits
    } else {
        Seq::new((width - digits.len()) as nat, |i: int| '0') + digits
    }
}

/// `YYYY-MM-DD`, with a minus sign in front of a negative year.
pub open spec fn date_text(d: DateModel) -> Seq<char> {
    let year = if d.year < 0 {
        seq!['-'] + padded((-d.year) as nat, 4)
    } else {
        padded(d.year as nat, 4)
    };
    year + seq!['-'] + padded(d.month as nat, 2) + seq!['-'] + padded(d.day as nat, 2)
}

/// The digits after the decimal point of a second: the numeral of the
/// nanoseconds in nine digits, without the zeros at its end.
pub open spec fn fraction_text(nanosecond: nat) -> Seq<char> {
    fraction_digits(nanosecond, 9)
}

/// The numeral of `n` in `width` digits, without the zeros at its end.
pub open spec fn fraction_digits(n: nat, width: nat) -> Seq<char>
    decreases width,
{
    if width == 0 {
        Seq::empty()
    } else if n % 10 == 0 {
        fraction_digits(n / 10, (width - 1) as nat)
    } else {
        padded(n, width)
    }
}

/// `±HHMM` for an offset in seconds.
pub open spec fn offset_text(offset: int) -> Seq<char> {
    let magnitude = if offset < 0 {
        -offset
    } else {
        offset
    };
    let sign = if offset < 0 {
        '-'
    } else {
        '+'
    };
    seq![sign] + padded((magnitude / 3600) as nat, 2) + padded(((magnitude % 3600) / 60) as nat, 2)
}

/// `YYYY-MM-DD HH:MM:SS ±HHMM`; the seconds carry a fraction if and only if
/// the nanoseconds are not zero.
pub open spec fn date_time_text(t: DateTimeModel) -> Seq<char> {
    let fraction = if t.nanosecond == 0 {
        Seq::empty()
    } else {
        seq!['.'] + fraction_text(t.nanosecond as nat)
    };
    date_text(t.date) + seq![' '] + padded(t.hour as nat, 2) + seq![':'] + padded(
        t.minute as nat,
        2,
    ) + seq![':'] + padded(t.second as nat, 2) + fraction + seq![' '] + offset_text(t.offset)
}

/// A calendar date.
#[derive(Clone, Copy, Debug)]
pub struct Date {
    year: i32,
    month: u8,
    day: u8,
}

impl View for Date {
    type V = DateModel;

    closed spec fn view(&self) -> DateModel {
        DateModel { year: self.year as int, month: self.month as int, day: self.day as int }
    }
}

/// Whether `year` is a leap year.
pub fn leap_year(year: i32) -> (b: bool)
    ensures
        b == is_leap_year(year as int),
{
    let magnitude: u32 = if year < 0 {
        (-(year as i64)) as u32
    } else {
        year as u32
    };
    magnitude % 4 == 0 && (magnitude % 100 != 0 || magnitude % 400 == 0)
}

/// The number of days of `month` in `year`; 0 where `month` is no month.
pub fn month_length(year: i32, month: u8) -> (n: u8)
    ensures
        n == days_in_month(year as int, month as int),
{
    if month == 2 {
        if leap_year(year) {
            29
        } else {
            28
        }
    } else if month == 4 || month == 6 || month == 9 || month == 11 {
        30
    } else if 1 <= month && month <= 12 {
        31
    } else {
        0
    }
}

/// Whether year, month and day name a valid date.
pub fn is_valid_ymd(year: i32, month: u8, day: u8) -> (b: bool)
    ensures
        b == valid_date(DateModel { year: year as int, month: month as int, day: day as int }),
{
    -9999 <= year && year <= 9999 && 1 <= month && month <= 12 && 1 <= day && day <= month_length(
        year,
        month,
    )
}

/// Appends the numeral of `n` to `out`, with zeros in front up to `width`
/// characters.
pub(crate) fn push_padded(out: &mut String, n: u64, width: usize)
    ensures
        final(out)@ == old(out)@ + padded(n as nat, width as nat),
{
    let mut digits = String::new();
    push_nat(&mut digits, n);
    assert(digits@ == nat_text(n as nat));
    let len = digits.as_str().unicode_len();
    let ghost start = out@;
    let mut i: usize = len;
    while i < width
        invariant
            len <= i,
            len < width ==> i <= width,
            len >= width ==> i == len,
            out@ == start + Seq::new((i - len) as nat, |k: int| '0'),
        decreases width - i,
    {
        out.push('0');
        i += 1;
        assert(Seq::new((i - len) as nat, |k: int| '0') == Seq::new(
            (i - 1 - len) as nat,
            |k: int| '0',
        ).push('0'));
    }
    let ghost zeros = Seq::new((i - len) as nat, |k: int| '0');
    out.append(digits.as_str());
    proof {
        assert(out@ == start + zeros + digits@);
        if len >= width {
            assert(zeros =~= Seq::<char>::empty());
            assert(out@ =~= start + nat_text(n as nat));
        } else {
            assert(out@ =~= start + (Seq::new((width - len) as nat, |k: int| '0') + digits@));
        }
    }
}

impl Date {
    /// What holds of every date that exists at run time: it is valid.
    #[verifier::type_invariant]
    pub closed spec fn wf(self) -> bool {
        valid_date(self@)
    }

    /// The date of the given year, month and day.
    pub fn from_ymd(year: i32, month: u8, day: u8) -> (d: Date)
        requires
            valid_date(DateModel { year: year as int, month: month as int, day: day as int }),
        ensures
            d@ == (DateModel { year: year as int, month: month as int, day: day as int }),
    {
        Date { year, month, day }
    }

    /// The date of the given year, month and day, if there is such a date.
    pub fn try_from_ymd(year: i32, month: u8, day: u8) -> (r: Option<Date>)
        ensures
            r is Some == valid_date(
                DateModel { year: year as int, month: month as int, day: day as int },
            ),
            r matches Some(d) ==> d@ == (DateModel {
                year: year as int,
                month: month as int,
                day: day as int,
            }),
    {
        if is_valid_ymd(year, month, day) {
            Some(Date { year, month, day })
        } else {
            None
        }
    }

    /// The year.
    pub fn year(&self) -> (y: i32)
        ensures
            y == self@.year,
            -9999 <= y <= 9999,
    {
        proof {
            use_type_invariant(self);
        }
        self.year
    }

    /// The month, from 1 to 12.
    pub fn month(&self) -> (m: u8)
        ensures
            m == self@.month,
            1 <= m <= 12,
    {
        proof {
            use_type_invariant(self);
        }
        self.month
    }

    /// The day of the month, from 1 to 31.
    pub fn day(&self) -> (d: u8)
        ensures
            d == self@.day,
            1 <= d <= 31,
    {
        proof {
            use_type_invariant(self);
        }
        self.day
    }

    /// A well-formed date is a valid one.
    pub proof fn lemma_valid(self)
        requires
            self.wf(),
        ensures
            valid_date(self@),
    {
    }

    /// Appends `YYYY-MM-DD` to `out`.
    pub fn render_to(&self, out: &mut String)
        ensures
            final(out)@ == old(out)@ + date_text(self@),
    {
        proof {
            use_type_invariant(self);
        }
        let ghost start = out@;
        if self.year < 0 {
            out.push('-');
            push_padded(out, (-(self.year as i64)) as u64, 4);
        } else {
            push_padded(out, self.year as u64, 4);
        }
        out.push('-');
        push_padded(out, self.month as u64, 2);
        out.push('-');
        push_padded(out, self.day as u64, 2);
        assert(out@ == start + date_text(self@));
    }

    /// `YYYY-MM-DD`.
    pub fn render(&self) -> (s: String)
        ensures
            s@ == date_text(self@),
    {
        let mut s = String::new();
        self.render_to(&mut s);
        assert(Seq::<char>::empty() + date_text(self@) == date_text(self@));
        s
    }
}

/// A date and a time of day, read in a zone at a fixed offset from UTC.
#[derive(Clone, Copy, Debug)]
pub struct DateTime {
    date: Date,
    hour: u8,
    minute: u8,
    second: u8,
    nanosecond: u32,
    offset: i32,
}

impl View for DateTime {
    type V = DateTimeModel;

    closed spec fn view(&self) -> DateTimeModel {
        DateTimeModel {
            date: self.date@,
            hour: self.hour as int,
            minute: self.minute as int,
            second: self.second as int,
            nanosecond: self.nanosecond as int,
            offset: self.offset as int,
        }
    }
}

/// Builds the date-time of the given parts with `time::Date::from_calendar_date`,
/// `time::Time::from_hms_nano`, `time::UtcOffset::from_whole_seconds` and
/// `time::OffsetDateTime::new_in_offset`, and returns what
/// `time::OffsetDateTime::unix_timestamp_nanos` gives for it; none where one
/// of the constructors refuses its arguments.
#[verifier::external_body]
pub(crate) fn unix_nanos(
    year: i32,
    month: u8,
    day: u8,
    hour: u8,
    minute: u8,
    second: u8,
    nanosecond: u32,
    offset: i32,
) -> (r: Option<i128>)
    ensures
        r is Some == instant_nanos(
            year as int,
            month as int,
            day as int,
            hour as int,
            minute as int,
            second as int,
            nanosecond as int,
            offset as int,
        ) is Some,
        r matches Some(n) ==> instant_nanos(
            year as int,
            month as int,
            day as int,
            hour as int,
            minute as int,
            second as int,
            nanosecond as int,
            offset as int,
        ) == Some(n as int),
{
    let month = time::Month::try_from(month).ok()?;
    let date = time::Date::from_calendar_date(year, month, day).ok()?;
    let time = time::Time::from_hms_nano(hour, minute, second, nanosecond).ok()?;
    let offset = time::UtcOffset::from_whole_seconds(offset).ok()?;
    Some(time::OffsetDateTime::new_in_offset(date, time, offset).unix_timestamp_nanos())
}

/// Appends the digits after the decimal point for `nanosecond` to `out`.
pub(crate) fn push_fraction(out: &mut String, nanosecond: u32)
    ensures
        final(out)@ == old(out)@ + fraction_text(nanosecond as nat),
{
    let mut n: u32 = nanosecond;
    let mut width: usize = 9;
    while width > 0 && n % 10 == 0
        invariant
            width <= 9,
            fraction_text(nanosecond as nat) == fraction_digits(n as nat, width as nat),
        decreases width,
    {
        n = n / 10;
        width -= 1;
    }
    if width > 0 {
        push_padded(out, n as u64, width);
    } else {
        assert(out@ =~= old(out)@ + Seq::<char>::empty());
    }
}

/// Appends `±HHMM` for `offset` to `out`.
pub(crate) fn push_offset(out: &mut String, offset: i32)
    requires
        -86_400 < offset < 86_400,
    ensures
        final(out)@ == old(out)@ + offset_text(offset as int),
{
    let ghost start = out@;
    let magnitude: u64 = if offset < 0 {
        out.push('-');
        (-offset) as u64
    } else {
        out.push('+');
        offset as u64
    };
    push_padded(out, magnitude / 3600, 2);
    push_padded(out, (magnitude % 3600) / 60, 2);
    assert(out@ =~= start + offset_text(offset as int));
}

impl DateTime {
    /// What holds of every date-time that exists at run time: it is valid.
    #[verifier::type_invariant]
    pub closed spec fn wf(self) -> bool {
        valid_date_time(self@)
    }

    /// A well-formed date-time is a valid one.
    pub proof fn lemma_valid(self)
        requires
            self.wf(),
        ensures
            valid_date_time(self@),
    {
    }

    /// The date-time of the given parts, if they are those of a valid one.
    pub fn from_parts(
        date: Date,
        hour: u8,
        minute: u8,
        second: u8,
        nanosecond: u32,
        offset: i32,
    ) -> (r: Option<DateTime>)
        ensures
            r is Some == valid_date_time(
                DateTimeModel {
                    date: date@,
                    hour: hour as int,
                    minute: minute as int,
                    second: second as int,
                    nanosecond: nanosecond as int,
                    offset: offset as int,
                },
            ),
            r matches Some(t) ==> t@ == (DateTimeModel {
                date: date@,
                hour: hour as int,
                minute: minute as int,
                second: second as int,
                nanosecond: nanosecond as int,
                offset: offset as int,
            }),
    {
        proof {
            use_type_invariant(&date);
        }
        if hour < 24 && minute < 60 && second < 60 && nanosecond < 1_000_000_000 && -86_400
            < offset && offset < 86_400 {
            Some(DateTime { date, hour, minute, second, nanosecond, offset })
        } else {
            None
        }
    }

    /// Midnight UTC at the start of the given day.
    pub fn from_ymd(year: i32, month: u8, day: u8) -> (t: DateTime)
        requires
            valid_date(DateModel { year: year as int, month: month as int, day: day as int }),
        ensures
            t@ == midnight_utc(
                DateModel { year: year as int, month: month as int, day: day as int },
            ),
    {
        DateTime {
            date: Date::from_ymd(year, month, day),
            hour: 0,
            minute: 0,
            second: 0,
            nanosecond: 0,
            offset: 0,
        }
    }

    /// Midnight UTC at the start of `date`.
    pub fn at_midnight_utc(date: Date) -> (t: DateTime)
        ensures
            t@ == midnight_utc(date@),
    {
        proof {
            use_type_invariant(&date);
        }
        DateTime { date, hour: 0, minute: 0, second: 0, nanosecond: 0, offset: 0 }
    }

    /// The same time of day and offset on another date.
    pub fn with_date(self, other: Date) -> (t: DateTime)
        ensures
            t@ == (DateTimeModel { date: other@, ..self@ }),
    {
        proof {
            use_type_invariant(&self);
            use_type_invariant(&other);
        }
        DateTime { date: other, ..self }
    }

    /// The calendar date.
    pub fn date(self) -> (d: Date)
        ensures
            d@ == self@.date,
    {
        self.date
    }

    /// The year.
    pub fn year(&self) -> (y: i32)
        ensures
            y == self@.date.year,
    {
        self.date.year()
    }

    /// The month, from 1 to 12.
    pub fn month(&self) -> (m: u8)
        ensures
            m == self@.date.month,
            1 <= m <= 12,
    {
        self.date.month()
    }

    /// The day of the month, from 1 to 31.
    pub fn day(&self) -> (d: u8)
        ensures
            d == self@.date.day,
            1 <= d <= 31,
    {
        self.date.day()
    }

    /// The hour, from 0 to 23.
    pub fn hour(&self) -> (h: u8)
        ensures
            h == self@.hour,
            h < 24,
    {
        proof {
            use_type_invariant(self);
        }
        self.hour
    }

    /// The minute, from 0 to 59.
    pub fn minute(&self) -> (m: u8)
        ensures
            m == self@.minute,
            m < 60,
    {
        proof {
            use_type_invariant(self);
        }
        self.minute
    }

    /// The second, from 0 to 59.
    pub fn second(&self) -> (s: u8)
        ensures
            s == self@.second,
            s < 60,
    {
        proof {
            use_type_invariant(self);
        }
        self.second
    }

    /// The nanoseconds within the second.
    pub fn nanosecond(&self) -> (n: u32)
        ensures
            n == self@.nanosecond,
            n < 1_000_000_000,
    {
        proof {
            use_type_invariant(self);
        }
        self.nanosecond
    }

    /// The offset from UTC, in seconds.
    pub fn offset_seconds(&self) -> (o: i32)
        ensures
            o == self@.offset,
            -86_400 < o < 86_400,
    {
        proof {
            use_type_invariant(self);
        }
        self.offset
    }

    /// The Unix timestamp of the date-time, in nanoseconds.
    pub fn instant(&self) -> (r: Option<i128>)
        ensures
            r is Some == instant_of(self@) is Some,
            r matches Some(n) ==> instant_of(self@) == Some(n as int),
    {
        unix_nanos(
            self.date.year(),
            self.date.month(),
            self.date.day(),
            self.hour,
            self.minute,
            self.second,
            self.nanosecond,
            self.offset,
        )
    }

    /// Appends `YYYY-MM-DD HH:MM:SS ±HHMM` to `out`, with a fraction after
    /// the seconds if the nanoseconds are not zero.
    pub fn render_to(&self, out: &mut String)
        ensures
            final(out)@ == old(out)@ + date_time_text(self@),
    {
        proof {
            use_type_invariant(self);
        }
        let ghost start = out@;
        let mut s = self.date.render();
        s.push(' ');
        push_padded(&mut s, self.hour as u64, 2);
        s.push(':');
        push_padded(&mut s, self.minute as u64, 2);
        s.push(':');
        push_padded(&mut s, self.second as u64, 2);
        let ghost head = s@;
        if self.nanosecond != 0 {
            s.push('.');
            push_fraction(&mut s, self.nanosecond);
            proof {
                lemma_append(head, seq!['.'], fraction_text(self.nanosecond as nat));
            }
        } else {
            assert(s@ =~= head + Seq::<char>::empty());
        }
        s.push(' ');
        push_offset(&mut s, self.offset);
        out.append(s.as_str());
    }

    /// `YYYY-MM-DD HH:MM:SS ±HHMM`, with a fraction after the seconds if the
    /// nanoseconds are not zero.
    pub fn render(&self) -> (s: String)
        ensures
            s@ == date_time_text(self@),
    {
        let mut s = String::new();
        self.render_to(&mut s);
        assert(Seq::<char>::empty() + date_time_text(self@) == date_time_text(self@));
        s
    }
}

/// The parts of a date-time as plain numbers: what is handed to and taken
/// from the functions that compute with dates.
#[derive(Clone, Copy, Debug)]
pub struct Parts {
    pub year: i32,
    pub month: u8,
    pub day: u8,
    pub hour: u8,
    pub minute: u8,
    pub second: u8,
    pub nanosecond: u32,
    pub offset: i32,
}

impl View for Parts {
    type V = DateTimeModel;

    open spec fn view(&self) -> DateTimeModel {
        DateTimeModel {
            date: DateModel {
                year: self.year as int,
                month: self.month as int,
                day: self.day as int,
            },
            hour: self.hour as int,
            minute: self.minute as int,
            second: self.second as int,
            nanosecond: self.nanosecond as int,
            offset: self.offset as int,
        }
    }
}

/// The date-time `nanos` nanoseconds after the start of 1970 in UTC, read
/// in the zone at `offset` seconds from UTC, as the `time` crate computes
/// it; none where it lies outside what the crate supports.
pub uninterp spec fn at_unix_nanos(nanos: int, offset: int) -> Option<DateTimeModel>;

/// The day of the year of a date, as the `time` crate computes it.
pub uninterp spec fn ordinal_of(d: DateModel) -> Option<int>;

/// The ISO week number of a date, as the `time` crate computes it.
pub uninterp spec fn iso_week_of(d: DateModel) -> Option<int>;

/// A date-time in the format of RFC 2822, as the `time` crate writes it.
pub uninterp spec fn rfc2822_of(t: DateTimeModel) -> Option<Seq<char>>;

/// `time::OffsetDateTime::now_utc`: the current moment, read in UTC.
#[verifier::external_body]
pub(crate) fn time_now_utc() -> (p: Parts) {
    let t = time::OffsetDateTime::now_utc();
    Parts {
        year: t.year(),
        month: t.month().into(),
        day: t.day(),
        hour: t.hour(),
        minute: t.minute(),
        second: t.second(),
        nanosecond: t.nanosecond(),
        offset: 0,
    }
}

/// `chrono::Local::now` and `chrono::FixedOffset::local_minus_utc`: the
/// number of seconds that local time is ahead of UTC at the current moment.
#[verifier::external_body]
pub(crate) fn local_offset_now() -> (offset: i32) {
    chrono::Local::now().offset().local_minus_utc()
}

/// `time::OffsetDateTime::from_unix_timestamp_nanos`, then
/// `time::OffsetDateTime::checked_to_offset`: the moment `nanos`
/// nanoseconds after the start of 1970 in UTC, read at `offset`.
#[verifier::external_body]
pub(crate) fn time_from_unix_nanos(nanos: i128, offset: i32) -> (r: Option<Parts>)
    ensures
        r is Some == at_unix_nanos(nanos as int, offset as int) is Some,
        r matches Some(q) ==> at_unix_nanos(nanos as int, offset as int) == Some(q@),
{
    let to = time::UtcOffset::from_whole_seconds(offset).ok()?;
    let t = time::OffsetDateTime::from_unix_timestamp_nanos(nanos).ok()?.checked_to_offset(to)?;
    let (hour, minute, second, nanosecond) = t.time().as_hms_nano();
    Some(Parts { year: t.year(), month: t.month().into(), day: t.day(), hour, minute, second, nanosecond, offset })
}

/// `time::Date::ordinal` on the date of the given year, month and day.
#[verifier::external_body]
pub(crate) fn time_ordinal(year: i32, month: u8, day: u8) -> (r: Option<u16>)
    ensures
        r is Some == ordinal_of(
            DateModel { year: year as int, month: month as int, day: day as int },
        ) is Some,
        r matches Some(n) ==> ordinal_of(
            DateModel { year: year as int, month: month as int, day: day as int },
        ) == Some(n as int),
{
    Some(time::Date::from_calendar_date(year, month.try_into().ok()?, day).ok()?.ordinal())
}

/// `time::Date::iso_week` on the date of the given year, month and day.
#[verifier::external_body]
pub(crate) fn time_iso_week(year: i32, month: u8, day: u8) -> (r: Option<u8>)
    ensures
        r is Some == iso_week_of(
            DateModel { year: year as int, month: month as int, day: day as int },
        ) is Some,
        r matches Some(n) ==> iso_week_of(
            DateModel { year: year as int, month: month as int, day: day as int },
        ) == Some(n as int),
{
    Some(time::Date::from_calendar_date(year, month.try_into().ok()?, day).ok()?.iso_week())
}

/// `time::OffsetDateTime::format` with
/// `time::format_description::well_known::Rfc2822` on the date-time built
/// from `p`.
#[verifier::external_body]
pub(crate) fn time_rfc2822(p: Parts) -> (r: Option<String>)
    ensures
        r is Some == rfc2822_of(p@) is Some,
        r matches Some(s) ==> rfc2822_of(p@) == Some(s@),
{
    let date = time::Date::from_calendar_date(p.year, p.month.try_into().ok()?, p.day).ok()?;
    let time = time::Time::from_hms_nano(p.hour, p.minute, p.second, p.nanosecond).ok()?;
    let offset = time::UtcOffset::from_whole_seconds(p.offset).ok()?;
    let t = time::OffsetDateTime::new_in_offset(date, time, offset);
    t.format(&time::format_description::well_known::Rfc2822).ok()
}

/// The parts with month and day exchanged where the month is beyond 12.
pub open spec fn month_day_swapped(t: DateTimeModel) -> DateTimeModel {
    if t.date.month > 12 {
        DateTimeModel {
            date: DateModel { year: t.date.year, month: t.date.day, day: t.date.month },
            ..t
        }
    } else {
        t
    }
}

impl Default for DateTime {
    /// The start of 1970 in UTC.
    fn default() -> (t: DateTime)
        ensures
            t@ == midnight_utc(DateModel { year: 1970, month: 1, day: 1 }),
    {
        DateTime::from_ymd(1970, 1, 1)
    }
}

impl DateTime {
    /// The date-time of the given parts, if they are those of a valid one.
    pub fn from_fields(p: Parts) -> (r: Option<DateTime>)
        ensures
            r is Some == valid_date_time(p@),
            r matches Some(t) ==> t@ == p@,
    {
        match Date::try_from_ymd(p.year, p.month, p.day) {
            Some(date) => DateTime::from_parts(
                date,
                p.hour,
                p.minute,
                p.second,
                p.nanosecond,
                p.offset,
            ),
            None => None,
        }
    }

    /// The date-time of parts that a parser of free-form dates has read:
    /// where the month is beyond 12, month and day are taken for one
    /// another. None where the parts are still not those of a valid
    /// date-time.
    pub fn from_parsed_fields(p: Parts) -> (r: Option<DateTime>)
        ensures
            r is Some == valid_date_time(month_day_swapped(p@)),
            r matches Some(t) ==> t@ == month_day_swapped(p@),
    {
        if p.month > 12 {
            DateTime::from_fields(Parts { month: p.day, day: p.month, ..p })
        } else {
            DateTime::from_fields(p)
        }
    }

    /// The parts of the date-time.
    pub fn fields(&self) -> (p: Parts)
        ensures
            p@ == self@,
    {
        Parts {
            year: self.date.year(),
            month: self.date.month(),
            day: self.date.day(),
            hour: self.hour,
            minute: self.minute,
            second: self.second,
            nanosecond: self.nanosecond,
            offset: self.offset,
        }
    }

    /// The current moment, read in UTC.
    pub fn now() -> (t: DateTime)
        ensures
            valid_date_time(t@),
            t@.offset == 0,
    {
        let p = time_now_utc();
        match DateTime::from_fields(Parts { offset: 0, ..p }) {
            Some(t) => t,
            None => DateTime::from_ymd(1970, 1, 1),
        }
    }

    /// The current moment, read in the local zone; in UTC where the local
    /// zone cannot be used.
    pub fn now_local() -> (t: DateTime)
        ensures
            valid_date_time(t@),
    {
        let now = DateTime::now();
        proof {
            use_type_invariant(&now);
        }
        match now.with_offset(local_offset_now()) {
            Some(t) => {
                proof {
                    use_type_invariant(&t);
                }
                t
            },
            None => now,
        }
    }

    /// The same moment read in the zone at `offset` seconds from UTC;
    /// none where there is no such zone or the result cannot be held.
    pub fn with_offset(self, offset: i32) -> (r: Option<DateTime>)
        ensures
            r is Some == (instant_of(self@) matches Some(n) && at_unix_nanos(n, offset as int)
                matches Some(m) && valid_date_time(m)),
            r matches Some(t) ==> at_unix_nanos(instant_of(self@)->0, offset as int) == Some(t@),
    {
        match self.instant() {
            Some(n) => match time_from_unix_nanos(n, offset) {
                Some(p) => DateTime::from_fields(p),
                None => None,
            },
            None => None,
        }
    }

    /// The moment `timestamp` seconds after the start of 1970 in UTC, read
    /// in the zone at `offset` seconds from UTC; none where it cannot be
    /// held.
    pub fn from_unix_timestamp(timestamp: i64, offset: i32) -> (r: Option<DateTime>)
        ensures
            r is Some == (at_unix_nanos(timestamp * 1_000_000_000, offset as int) matches Some(m)
                && valid_date_time(m)),
            r matches Some(t) ==> at_unix_nanos(timestamp * 1_000_000_000, offset as int) == Some(
                t@,
            ),
    {
        let nanos: i128 = (timestamp as i128) * 1_000_000_000;
        match time_from_unix_nanos(nanos, offset) {
            Some(p) => DateTime::from_fields(p),
            None => None,
        }
    }

    /// The day of the year, counted from 1.
    pub fn ordinal(&self) -> (r: Option<u16>)
        ensures
            r is Some == ordinal_of(self@.date) is Some,
            r matches Some(n) ==> ordinal_of(self@.date) == Some(n as int),
    {
        time_ordinal(self.date.year(), self.date.month(), self.date.day())
    }

    /// The ISO week number.
    pub fn iso_week(&self) -> (r: Option<u8>)
        ensures
            r is Some == iso_week_of(self@.date) is Some,
            r matches Some(n) ==> iso_week_of(self@.date) == Some(n as int),
    {
        time_iso_week(self.date.year(), self.date.month(), self.date.day())
    }

    /// The date-time in the format of RFC 2822, such as
    /// `Tue, 1 Jul 2003 10:52:37 +0200`.
    pub fn to_rfc2822(&self) -> (r: Option<String>)
        ensures
            r is Some == rfc2822_of(self@) is Some,
            r matches Some(s) ==> rfc2822_of(self@) == Some(s@),
    {
        time_rfc2822(self.fields())
    }
}

} // verus!
