use datetime::cal::compounds::{YearMonth, YearMonthDay};
use datetime::cal::units::{Month, Year};
use datetime::local::{Error, LocalDate, LocalTime};

#[test]
fn leap_years() {
    assert!(Year(2000).is_leap_year());
    assert!(!Year(1900).is_leap_year());
    assert!(Year(2012).is_leap_year());
    assert!(!Year(2014).is_leap_year());
    assert!(Year(0).is_leap_year());
    assert!(!Year(-1).is_leap_year());
    assert!(Year(-4).is_leap_year());
}

#[test]
fn february_day_count_follows_the_year() {
    let leap = YearMonth {
        year: Year(2000),
        month: Month::February,
    };
    let century = YearMonth {
        year: Year(1900),
        month: Month::February,
    };
    let plain = YearMonth {
        year: Year(2014),
        month: Month::February,
    };
    assert_eq!(leap.day_count(), 29);
    assert_eq!(century.day_count(), 28);
    assert_eq!(plain.day_count(), 28);
}

#[test]
fn day_counts_follow_the_gregorian_table() {
    let months = [
        (Month::January, 31i8),
        (Month::February, 28),
        (Month::March, 31),
        (Month::April, 30),
        (Month::May, 31),
        (Month::June, 30),
        (Month::July, 31),
        (Month::August, 31),
        (Month::September, 30),
        (Month::October, 31),
        (Month::November, 30),
        (Month::December, 31),
    ];
    for &(month, days) in months.iter() {
        let plain = YearMonth {
            year: Year(2014),
            month,
        };
        let leap = YearMonth {
            year: Year(2016),
            month,
        };
        assert_eq!(plain.day_count(), days);
        let expected_in_leap = if month == Month::February { 29 } else { days };
        assert_eq!(leap.day_count(), expected_in_leap);
    }
}

#[test]
fn validity_at_the_boundaries() {
    let ymd = |day: i8| YearMonthDay {
        year: Year(2014),
        month: Month::April,
        day,
    };
    assert!(!ymd(0).is_valid(false));
    assert!(ymd(1).is_valid(false));
    assert!(ymd(30).is_valid(false));
    assert!(!ymd(31).is_valid(false));

    let feb = |day: i8| YearMonthDay {
        year: Year(2014),
        month: Month::February,
        day,
    };
    assert!(feb(28).is_valid(false));
    assert!(!feb(29).is_valid(false));
    assert!(feb(29).is_valid(true));
    assert!(!feb(30).is_valid(true));
}

#[test]
fn day_builds_a_date_or_reports_the_range() {
    let february = YearMonth {
        year: Year(2014),
        month: Month::February,
    };
    assert_eq!(
        february.day(28),
        Ok(LocalDate::new(2014, Month::February, 28).unwrap())
    );
    assert_eq!(february.day(29), Err(Error::OutOfRange));
    assert_eq!(february.day(0), Err(Error::OutOfRange));
}

#[test]
fn month_numbers() {
    assert_eq!(Month::from_one(1), Some(Month::January));
    assert_eq!(Month::from_one(4), Some(Month::April));
    assert_eq!(Month::from_one(12), Some(Month::December));
    assert_eq!(Month::from_one(0), None);
    assert_eq!(Month::from_one(13), None);
}

#[test]
fn date_constructors_check_the_calendar() {
    assert!(LocalDate::new(2014, Month::February, 29).is_none());
    assert!(LocalDate::new(2016, Month::February, 29).is_some());
    assert_eq!(LocalDate::ymd(2014, Month::April, 31), Err(Error::OutOfRange));
    assert!(LocalDate::ymd(2014, Month::April, 30).is_ok());
}

#[test]
fn time_constructors_check_the_ranges() {
    assert!(LocalTime::hms(23, 59, 59).is_some());
    assert!(LocalTime::hms(24, 0, 0).is_none());
    assert!(LocalTime::hms(0, 60, 0).is_none());
    assert!(LocalTime::hms(0, 0, 60).is_none());
    assert!(LocalTime::hms_ms(0, 0, 0, 999).is_some());
    assert!(LocalTime::hms_ms(0, 0, 0, 1000).is_none());
    assert!(LocalTime::hms_ms(0, 0, 0, -1).is_none());
}

#[test]
fn from_weekday_direct() {
    assert_eq!(
        LocalDate::from_weekday(2014, 52, 4),
        LocalDate::new(2014, Month::December, 25)
    );
    assert_eq!(LocalDate::from_weekday(2014, 53, 1), None);
    assert_eq!(LocalDate::from_weekday(2015, 53, 5), LocalDate::new(2016, Month::January, 1));
    assert_eq!(LocalDate::from_weekday(2014, 1, 0), None);
    assert_eq!(LocalDate::from_weekday(-1, 1, 1), None);
    assert_eq!(LocalDate::from_weekday(10000, 1, 1), None);
}
