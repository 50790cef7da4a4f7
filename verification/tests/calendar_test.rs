use druid_segment::calendar::{civil_time, days_to_ymd, CivilTime};

#[test]
fn epoch_is_the_first_of_january_1970() {
    assert_eq!(days_to_ymd(0), (1970, 1, 1));
    assert_eq!(
        civil_time(0),
        CivilTime { year: 1970, month: 1, day: 1, hour: 0, minute: 0, second: 0, millisecond: 0 }
    );
}

#[test]
fn known_dates() {
    assert_eq!(days_to_ymd(1), (1970, 1, 2));
    assert_eq!(days_to_ymd(30), (1970, 1, 31));
    assert_eq!(days_to_ymd(31), (1970, 2, 1));
    assert_eq!(days_to_ymd(58), (1970, 2, 28));
    assert_eq!(days_to_ymd(59), (1970, 3, 1));
    assert_eq!(days_to_ymd(364), (1970, 12, 31));
    assert_eq!(days_to_ymd(365), (1971, 1, 1));
    assert_eq!(days_to_ymd(789), (1972, 2, 29));
    assert_eq!(days_to_ymd(790), (1972, 3, 1));
    assert_eq!(days_to_ymd(10_957), (2000, 1, 1));
    assert_eq!(days_to_ymd(11_016), (2000, 2, 29));
    assert_eq!(days_to_ymd(16_690), (2015, 9, 12));
    assert_eq!(days_to_ymd(47_540), (2100, 2, 28));
    assert_eq!(days_to_ymd(47_541), (2100, 3, 1));
}

#[test]
fn dates_before_the_epoch() {
    assert_eq!(days_to_ymd(-1), (1969, 12, 31));
    assert_eq!(days_to_ymd(-365), (1969, 1, 1));
    assert_eq!(days_to_ymd(-719_468), (0, 3, 1));
    assert_eq!(days_to_ymd(-719_469), (0, 2, 29));
    assert_eq!(days_to_ymd(-719_528), (0, 1, 1));
    assert_eq!(days_to_ymd(-719_529), (-1, 12, 31));
}

#[test]
fn instants_are_split_into_date_and_time_of_day() {
    assert_eq!(
        civil_time(1_442_016_000_000),
        CivilTime { year: 2015, month: 9, day: 12, hour: 0, minute: 0, second: 0, millisecond: 0 }
    );
    assert_eq!(
        civil_time(1_442_102_399_999),
        CivilTime {
            year: 2015,
            month: 9,
            day: 12,
            hour: 23,
            minute: 59,
            second: 59,
            millisecond: 999
        }
    );
    assert_eq!(
        civil_time(951_827_696_789),
        CivilTime {
            year: 2000,
            month: 2,
            day: 29,
            hour: 12,
            minute: 34,
            second: 56,
            millisecond: 789
        }
    );
}

#[test]
fn instants_before_the_epoch_count_backwards() {
    assert_eq!(
        civil_time(-1),
        CivilTime {
            year: 1969,
            month: 12,
            day: 31,
            hour: 23,
            minute: 59,
            second: 59,
            millisecond: 999
        }
    );
    assert_eq!(
        civil_time(-86_400_000),
        CivilTime { year: 1969, month: 12, day: 31, hour: 0, minute: 0, second: 0, millisecond: 0 }
    );
    let earliest = civil_time(i64::MIN);
    assert_eq!((earliest.year, earliest.month, earliest.day), (-292_275_055, 5, 16));
    let latest = civil_time(i64::MAX);
    assert_eq!((latest.year, latest.month, latest.day), (292_278_994, 8, 17));
    assert_eq!((latest.hour, latest.minute, latest.second, latest.millisecond), (7, 12, 55, 807));
}
