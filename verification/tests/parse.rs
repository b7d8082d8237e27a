use datetime::cal::units::Month;
use datetime::local::{LocalDate, LocalDateTime, LocalTime};
use datetime::parse::{
    parse_iso_8601, parse_iso_8601_date, parse_iso_8601_time, parse_iso_8601_zoned, split_iso_8601,
};
use datetime::zoned::TimeZone;

#[test]
fn date() {
    let date = parse_iso_8601_date("1985-04-12");
    assert_eq!(date, LocalDate::new(1985, Month::April, 12));
}

#[test]
fn fail() {
    let date = parse_iso_8601_date("");
    assert_eq!(date, None);
}

#[test]
fn date_compact() {
    assert_eq!(
        parse_iso_8601_date("19850412"),
        LocalDate::new(1985, Month::April, 12)
    );
    assert_eq!(
        parse_iso_8601_date("1985-0412"),
        LocalDate::new(1985, Month::April, 12)
    );
    assert_eq!(
        parse_iso_8601_date("198504-12"),
        LocalDate::new(1985, Month::April, 12)
    );
}

#[test]
fn date_month_thirteen() {
    assert_eq!(parse_iso_8601_date("2014-13-25"), None);
    assert_eq!(parse_iso_8601_date("20141325"), None);
    assert_eq!(parse_iso_8601_date("2014-00-25"), None);
}

#[test]
fn date_day_out_of_month() {
    assert_eq!(parse_iso_8601_date("2014-02-30"), None);
    assert_eq!(parse_iso_8601_date("2014-04-31"), None);
    assert_eq!(parse_iso_8601_date("2014-12-00"), None);
    assert_eq!(
        parse_iso_8601_date("2016-02-29"),
        LocalDate::new(2016, Month::February, 29)
    );
    assert_eq!(parse_iso_8601_date("2015-02-29"), None);
}

#[test]
fn date_malformed() {
    assert_eq!(parse_iso_8601_date("12-04-1985"), None);
    assert_eq!(parse_iso_8601_date("1985/04/12"), None);
    assert_eq!(parse_iso_8601_date("1985-04-12x"), None);
    assert_eq!(parse_iso_8601_date("１985-04-12"), None);
}

#[test]
fn week_date() {
    assert_eq!(
        parse_iso_8601_date("2014-W52-4"),
        LocalDate::new(2014, Month::December, 25)
    );
}

#[test]
fn week_date_spills_into_neighbouring_years() {
    assert_eq!(
        parse_iso_8601_date("2015-W53-5"),
        LocalDate::new(2016, Month::January, 1)
    );
    assert_eq!(
        parse_iso_8601_date("2015-W01-1"),
        LocalDate::new(2014, Month::December, 29)
    );
}

#[test]
fn week_one_holds_the_first_thursday() {
    assert_eq!(
        parse_iso_8601_date("2020-W01-3"),
        LocalDate::new(2020, Month::January, 1)
    );
}

#[test]
fn ordinal_dates_are_not_recognized() {
    assert_eq!(parse_iso_8601_date("2014-359"), None);
}

#[test]
fn week_date_out_of_range() {
    assert_eq!(parse_iso_8601_date("2014-W53-1"), None);
    assert_eq!(parse_iso_8601_date("2014-W00-1"), None);
    assert_eq!(parse_iso_8601_date("2014-W52-0"), None);
    assert_eq!(parse_iso_8601_date("2014-W52-8"), None);
}

#[test]
fn round_trip_formatted_dates() {
    let dates = [
        (1985i64, Month::April, 12i8),
        (2000, Month::February, 29),
        (9999, Month::December, 31),
        (1600, Month::January, 1),
    ];
    let formatted = ["1985-04-12", "2000-02-29", "9999-12-31", "1600-01-01"];
    for (i, &(y, m, d)) in dates.iter().enumerate() {
        let date = LocalDate::new(y, m, d).unwrap();
        assert_eq!(parse_iso_8601_date(formatted[i]), Some(date));
    }
}

#[test]
fn time_empty_is_midnight() {
    assert_eq!(parse_iso_8601_time(""), LocalTime::hms(0, 0, 0));
}

#[test]
fn time_fields() {
    assert_eq!(parse_iso_8601_time("02"), LocalTime::hms(2, 0, 0));
    assert_eq!(parse_iso_8601_time("02:56"), LocalTime::hms(2, 56, 0));
    assert_eq!(parse_iso_8601_time("0256"), LocalTime::hms(2, 56, 0));
    assert_eq!(parse_iso_8601_time("02:56:40"), LocalTime::hms(2, 56, 40));
    assert_eq!(
        parse_iso_8601_time("02:56:40.123"),
        LocalTime::hms_ms(2, 56, 40, 123)
    );
}

#[test]
fn time_fraction_is_a_plain_integer() {
    // A one-digit fraction is read as the integer 1, not scaled to 100:
    // the known precision gap is carried, not silently mended.
    assert_eq!(
        parse_iso_8601_time("02:56:40.1"),
        LocalTime::hms_ms(2, 56, 40, 1)
    );
    // Four digits spell 1234, which is past the canonical range.
    assert_eq!(parse_iso_8601_time("02:56:40.1234"), None);
}

#[test]
fn time_out_of_range() {
    assert_eq!(parse_iso_8601_time("24"), None);
    assert_eq!(parse_iso_8601_time("02:60"), None);
    assert_eq!(parse_iso_8601_time("02:56:61"), None);
}

#[test]
fn time_malformed() {
    assert_eq!(parse_iso_8601_time("2"), None);
    assert_eq!(parse_iso_8601_time("02x"), None);
    assert_eq!(parse_iso_8601_time("02:56:40."), None);
    assert_eq!(parse_iso_8601_time("02:56:40.1234567890"), None);
}

#[test]
fn time_ignores_zone_suffix() {
    assert_eq!(parse_iso_8601_time("02:56:40Z"), LocalTime::hms(2, 56, 40));
    assert_eq!(
        parse_iso_8601_time("02:56:40+05:30"),
        LocalTime::hms(2, 56, 40)
    );
}

#[test]
fn split_at_the_first_t() {
    assert_eq!(
        split_iso_8601("2014-12-25T02:56:40"),
        Some(("2014-12-25", "02:56:40"))
    );
    assert_eq!(split_iso_8601("2014-12-25"), Some(("2014-12-25", "")));
}

#[test]
fn datetime_combines_both_halves() {
    let date = LocalDate::new(2014, Month::December, 25).unwrap();
    let time = LocalTime::hms(2, 56, 40).unwrap();
    assert_eq!(
        parse_iso_8601("2014-12-25T02:56:40"),
        Some(LocalDateTime { date, time })
    );
    let midnight = LocalTime::hms(0, 0, 0).unwrap();
    assert_eq!(
        parse_iso_8601("2014-12-25"),
        Some(LocalDateTime {
            date,
            time: midnight
        })
    );
    assert_eq!(parse_iso_8601("2014-13-25T02:56:40"), None);
    assert_eq!(parse_iso_8601("2014-12-25T25:00:00"), None);
}

#[test]
fn zoned_utc_marker() {
    let date = LocalDate::new(2014, Month::December, 25).unwrap();
    let time = LocalTime::hms(2, 56, 40).unwrap();
    assert_eq!(
        parse_iso_8601_zoned("2014-12-25T02:56:40Z"),
        Some((LocalDateTime { date, time }, TimeZone::UTC))
    );
}

#[test]
fn zoned_fixed_offset() {
    let date = LocalDate::new(2014, Month::December, 25).unwrap();
    let time = LocalTime::hms(2, 56, 40).unwrap();
    assert_eq!(
        parse_iso_8601_zoned("2014-12-25T02:56:40+05:30"),
        Some((
            LocalDateTime { date, time },
            TimeZone::of_hours_and_minutes(5, 30)
        ))
    );
    assert_eq!(
        parse_iso_8601_zoned("2014-12-25T02:56:40-05:30"),
        Some((
            LocalDateTime { date, time },
            TimeZone::of_hours_and_minutes(-5, 30)
        ))
    );
    assert_eq!(
        parse_iso_8601_zoned("2014-12-25T02:56:40+0530"),
        Some((
            LocalDateTime { date, time },
            TimeZone::of_hours_and_minutes(5, 30)
        ))
    );
}

#[test]
fn zoned_explicit_zero_offset_is_not_the_utc_marker() {
    let date = LocalDate::new(2014, Month::December, 25).unwrap();
    let time = LocalTime::hms(2, 56, 40).unwrap();
    let r = parse_iso_8601_zoned("2014-12-25T02:56:40+00:00").unwrap();
    assert_eq!(r.0, LocalDateTime { date, time });
    assert_eq!(r.1, TimeZone::of_hours_and_minutes(0, 0));
    assert_ne!(r.1, TimeZone::UTC);
}

#[test]
fn zoned_defaults() {
    let date = LocalDate::new(2014, Month::December, 25).unwrap();
    let midnight = LocalTime::hms(0, 0, 0).unwrap();
    // A bare date is midnight, UTC.
    assert_eq!(
        parse_iso_8601_zoned("2014-12-25"),
        Some((
            LocalDateTime {
                date,
                time: midnight
            },
            TimeZone::UTC
        ))
    );
    // A time half that fails the grammar falls back the same way.
    assert_eq!(
        parse_iso_8601_zoned("2014-12-25Tjunk"),
        Some((
            LocalDateTime {
                date,
                time: midnight
            },
            TimeZone::UTC
        ))
    );
    // A date half that fails the grammar fails the whole parse.
    assert_eq!(parse_iso_8601_zoned("2014-13-25T02:56:40Z"), None);
    assert_eq!(parse_iso_8601_zoned("T02:56:40Z"), None);
}
