use unicum_api::calendar::{from_calendar_date, get_months_between, leap_year, month_length, month_name};
use unicum_api::entities::Date;
use unicum_api::outbound::official::forms::sales_period;
use unicum_api::contracts::ContractError;

fn date(year: i32, month: u8, day: u8) -> Date {
    Date { day, month, year }
}

#[test]
fn leap_years_follow_the_gregorian_rule() {
    assert!(leap_year(2024));
    assert!(!leap_year(2023));
    assert!(!leap_year(1900));
    assert!(leap_year(2000));
}

#[test]
fn months_have_their_lengths() {
    assert_eq!(29, month_length(2, 2024));
    assert_eq!(28, month_length(2, 2023));
    assert_eq!(30, month_length(4, 2023));
    assert_eq!(31, month_length(12, 2023));
    assert_eq!("February", month_name(2));
}

#[test]
fn dates_are_checked() {
    assert_eq!(Ok(date(2024, 2, 29)), from_calendar_date(2024, 2, 29));
    assert_eq!(Err("day"), from_calendar_date(2023, 2, 29));
    assert_eq!(Err("day"), from_calendar_date(2023, 1, 0));
    assert_eq!(Err("year"), from_calendar_date(10000, 1, 1));
}

#[test]
fn months_between_cross_the_year() {
    let months = get_months_between(date(2023, 11, 15), date(2024, 2, 1));

    assert_eq!(vec![(11, 2023), (12, 2023), (1, 2024), (2, 2024)], months);
}

#[test]
fn months_between_a_later_start_are_none() {
    assert!(get_months_between(date(2024, 3, 2), date(2024, 3, 1)).is_empty());
    assert_eq!(vec![(3, 2024)], get_months_between(date(2024, 3, 1), date(2024, 3, 1)));
}

#[test]
fn timestamps_are_read_as_utc_dates() {
    let (since, until) = sales_period(0, 1_546_300_800).expect("timestamps should have dates");

    assert_eq!(date(1970, 1, 1), since);
    assert_eq!(date(2019, 1, 1), until);
    let (last, _) = sales_period(253_402_300_799, 0).expect("the last second has a date");
    assert_eq!(date(9999, 12, 31), last);
}

#[test]
fn timestamps_out_of_range_are_refused() {
    match sales_period(0, 253_402_300_800) {
        Err(ContractError::Parse { cause }) => assert_eq!("timestamp was not in range", cause),
        other => panic!("expected a parse error, got {other:?}"),
    }
    assert!(sales_period(-377_705_116_801, 0).is_err());
    assert!(sales_period(-377_705_116_800, 0).is_ok());
}
