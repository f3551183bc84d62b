//! Calendar days of the proleptic Gregorian calendar.

use vstd::prelude::*;

verus! {

/// The earliest year a [`Date`] can lie in.
pub const MIN_YEAR: i32 = -262_143;

/// The latest year a [`Date`] can lie in.
pub const MAX_YEAR: i32 = 262_142;

/// A calendar day as three numbers: the mathematical value of a [`Date`].
pub struct Ymd {
    pub year: int,
    pub month: int,
    pub day: int,
}

/// Whether `year` has a 29th of February.
pub open spec fn is_leap_year(year: int) -> bool {
    year % 4 == 0 && (year % 100 != 0 || year % 400 == 0)
}

/// The number of days of a month, for `month` from 1 to 12.
pub open spec fn days_in_month(year: int, month: int) -> int {
    if month == 2 {
        if is_leap_year(year) {
            29
        } else {
            28
        }
    } else if month == 4 || month == 6 || month == 9 || month == 11 {
        30
    } else {
        31
    }
}

/// Whether the three numbers name a day of the calendar within the supported years.
pub open spec fn valid_ymd(d: Ymd) -> bool {
    &&& MIN_YEAR <= d.year <= MAX_YEAR
    &&& 1 <= d.month <= 12
    &&& 1 <= d.day <= days_in_month(d.year, d.month)
}

/// The day after `d`, unless `d` is the last supported day.
pub open spec fn next_day(d: Ymd) -> Option<Ymd> {
    if d.day < days_in_month(d.year, d.month) {
        Some(Ymd { year: d.year, month: d.month, day: d.day + 1 })
    } else if d.month < 12 {
        Some(Ymd { year: d.year, month: d.month + 1, day: 1 })
    } else if d.year < MAX_YEAR {
        Some(Ymd { year: d.year + 1, month: 1, day: 1 })
    } else {
        None
    }
}

/// The day `days` days after `d`, unless that lies past the last supported day.
pub open spec fn days_after(d: Ymd, days: nat) -> Option<Ymd>
    decreases days,
{
    if days == 0 {
        Some(d)
    } else {
        match next_day(d) {
            Some(next) => days_after(next, (days - 1) as nat),
            None => None,
        }
    }
}

/// A calendar day between the years [`MIN_YEAR`] and [`MAX_YEAR`].
#[derive(Debug, Clone, Copy, PartialEq, Eq, Structural)]
pub struct Date {
    year: i32,
    month: u8,
    day: u8,
}

impl View for Date {
    type V = Ymd;

    closed spec fn view(&self) -> Ymd {
        Ymd { year: self.year as int, month: self.month as int, day: self.day as int }
    }
}

/// Two dates that name the same day are equal.
pub proof fn lemma_same_day(a: Date, b: Date)
    requires
        a@ == b@,
    ensures
        a == b,
{
}

fn leap_year(year: i32) -> (leap: bool)
    ensures
        leap == is_leap_year(year as int),
{
    year % 4 == 0 && (year % 100 != 0 || year % 400 == 0)
}

fn month_length(year: i32, month: u8) -> (days: u8)
    requires
        1 <= month <= 12,
    ensures
        days == days_in_month(year as int, month as int),
{
    if month == 2 {
        if leap_year(year) {
            29
        } else {
            28
        }
    } else if month == 4 || month == 6 || month == 9 || month == 11 {
        30
    } else {
        31
    }
}

impl Date {
    /// Every `Date` names a day of the calendar.
    #[verifier::type_invariant]
    pub closed spec fn is_calendar_day(self) -> bool {
        valid_ymd(self@)
    }

    /// The date of the given year, month and day, if the calendar has such a day.
    pub fn from_ymd(year: i32, month: u32, day: u32) -> (date: Option<Date>)
        ensures
            match date {
                Some(d) => d@ == (Ymd { year: year as int, month: month as int, day: day as int })
                    && valid_ymd(d@),
                None => !valid_ymd(Ymd { year: year as int, month: month as int, day: day as int }),
            },
    {
        if year < MIN_YEAR || year > MAX_YEAR || month < 1 || month > 12 || day < 1 || day > 31 {
            return None;
        }
        let month: u8 = month as u8;
        let day: u8 = day as u8;
        if day > month_length(year, month) {
            return None;
        }
        Some(Date { year, month, day })
    }

    pub fn year(&self) -> (year: i32)
        ensures
            year == self@.year,
            valid_ymd(self@),
    {
        proof {
            use_type_invariant(self);
        }
        self.year
    }

    pub fn month(&self) -> (month: u32)
        ensures
            month == self@.month,
            valid_ymd(self@),
    {
        proof {
            use_type_invariant(self);
        }
        self.month as u32
    }

    pub fn day(&self) -> (day: u32)
        ensures
            day == self@.day,
            valid_ymd(self@),
    {
        proof {
            use_type_invariant(self);
        }
        self.day as u32
    }

    /// The following day, or `None` on the last supported day.
    pub fn succ(&self) -> (next: Option<Date>)
        ensures
            valid_ymd(self@),
            match next {
                Some(d) => next_day(self@) == Some(d@) && valid_ymd(d@),
                None => next_day(self@) is None,
            },
    {
        proof {
            use_type_invariant(self);
        }
        if self.day < month_length(self.year, self.month) {
            Some(Date { year: self.year, month: self.month, day: self.day + 1 })
        } else if self.month < 12 {
            Some(Date { year: self.year, month: self.month + 1, day: 1 })
        } else if self.year < MAX_YEAR {
            Some(Date { year: self.year + 1, month: 1, day: 1 })
        } else {
            None
        }
    }

    /// The day `days` days later, or `None` if that lies past the last supported day.
    pub fn plus_days(&self, days: u64) -> (later: Option<Date>)
        ensures
            valid_ymd(self@),
            match later {
                Some(d) => days_after(self@, days as nat) == Some(d@) && valid_ymd(d@),
                None => days_after(self@, days as nat) is None,
            },
    {
        proof {
            use_type_invariant(self);
        }
        let mut current: Date = *self;
        let mut left: u64 = days;
        while left > 0
            invariant
                days_after(self@, days as nat) == days_after(current@, left as nat),
                valid_ymd(current@),
                valid_ymd(self@),
            decreases left,
        {
            match current.succ() {
                Some(next) => {
                    current = next;
                    left = left - 1;
                },
                None => {
                    return None;
                },
            }
        }
        Some(current)
    }
}

} // verus!
