use moolah::date::{Date, Weekday};
use moolah::repetition::{date_ymd_clipped, MonthDay, Repetition};

fn ymd(year: i32, month: u32, day: u32) -> Date {
    Date::from_ymd(year, month, day).unwrap()
}

#[test]
fn test_month_day_from_i16() {
    assert!(MonthDay::new(1).is_ok());
    assert!(MonthDay::new(31).is_ok());
    assert!(MonthDay::new(0).is_err());
    assert!(MonthDay::new(32).is_err());
}

#[test]
fn test_month_day_into_i16() {
    let day: i16 = MonthDay::new(1).unwrap().as_i16();
    assert_eq!(1, day);

    let day: i16 = MonthDay::new(31).unwrap().as_i16();
    assert_eq!(31, day);
}

#[test]
fn test_days_in_month() {
    assert_eq!(moolah::date::days_in_month(2022, 1), 31);
    assert_eq!(moolah::date::days_in_month(2022, 2), 28); // not leap year
    assert_eq!(moolah::date::days_in_month(2022, 3), 31);
    assert_eq!(moolah::date::days_in_month(2022, 4), 30);
    assert_eq!(moolah::date::days_in_month(2022, 5), 31);
    assert_eq!(moolah::date::days_in_month(2022, 6), 30);
    assert_eq!(moolah::date::days_in_month(2022, 7), 31);
    assert_eq!(moolah::date::days_in_month(2022, 8), 31);
    assert_eq!(moolah::date::days_in_month(2022, 9), 30);
    assert_eq!(moolah::date::days_in_month(2022, 10), 31);
    assert_eq!(moolah::date::days_in_month(2022, 11), 30);
    assert_eq!(moolah::date::days_in_month(2022, 12), 31);
    assert_eq!(moolah::date::days_in_month(2024, 2), 29); // leap year
}

#[test]
fn test_clipped_date() {
    assert_eq!(date_ymd_clipped(2022, 1, MonthDay::new(1).unwrap()), ymd(2022, 1, 1));
    assert_eq!(date_ymd_clipped(2022, 1, MonthDay::new(31).unwrap()), ymd(2022, 1, 31));
    assert_eq!(date_ymd_clipped(2022, 2, MonthDay::new(1).unwrap()), ymd(2022, 2, 1));
    assert_eq!(date_ymd_clipped(2022, 2, MonthDay::new(31).unwrap()), ymd(2022, 2, 28));
}

#[test]
fn test_single_year_matching_simple() {
    assert_eq!(
        Repetition::Monthly {
            from: ymd(2022, 4, 7),
            to: ymd(2022, 9, 7),
            repeat_on_day: MonthDay::new(7).unwrap()
        }
        .dates(),
        vec![
            ymd(2022, 4, 7),
            ymd(2022, 5, 7),
            ymd(2022, 6, 7),
            ymd(2022, 7, 7),
            ymd(2022, 8, 7),
            ymd(2022, 9, 7)
        ]
    )
}

#[test]
fn test_single_year_nonmatching_early_late() {
    assert_eq!(
        Repetition::Monthly {
            from: ymd(2022, 4, 7),
            to: ymd(2022, 9, 15),
            repeat_on_day: MonthDay::new(12).unwrap()
        }
        .dates(),
        vec![
            ymd(2022, 4, 12),
            ymd(2022, 5, 12),
            ymd(2022, 6, 12),
            ymd(2022, 7, 12),
            ymd(2022, 8, 12),
            ymd(2022, 9, 12)
        ]
    )
}

#[test]
fn test_single_year_nonmatching_late_early() {
    assert_eq!(
        Repetition::Monthly {
            from: ymd(2022, 4, 15),
            to: ymd(2022, 9, 7),
            repeat_on_day: MonthDay::new(12).unwrap()
        }
        .dates(),
        vec![ymd(2022, 5, 12), ymd(2022, 6, 12), ymd(2022, 7, 12), ymd(2022, 8, 12),]
    )
}

#[test]
fn test_single_year_nonmatching_end_of_month() {
    assert_eq!(
        Repetition::Monthly {
            from: ymd(2022, 4, 15),
            to: ymd(2022, 9, 7),
            repeat_on_day: MonthDay::new(31).unwrap()
        }
        .dates(),
        vec![
            ymd(2022, 4, 30),
            ymd(2022, 5, 31),
            ymd(2022, 6, 30),
            ymd(2022, 7, 31),
            ymd(2022, 8, 31),
        ]
    )
}

#[test]
fn test_single_year_nonmatching_end_of_month_leap_year() {
    assert_eq!(
        Repetition::Monthly {
            from: ymd(2020, 1, 15),
            to: ymd(2020, 5, 7),
            repeat_on_day: MonthDay::new(31).unwrap()
        }
        .dates(),
        vec![ymd(2020, 1, 31), ymd(2020, 2, 29), ymd(2020, 3, 31), ymd(2020, 4, 30),]
    )
}

#[test]
fn test_single_year_nonmatching_end_of_month_non_leap_year() {
    assert_eq!(
        Repetition::Monthly {
            from: ymd(2022, 1, 15),
            to: ymd(2022, 5, 7),
            repeat_on_day: MonthDay::new(31).unwrap()
        }
        .dates(),
        vec![ymd(2022, 1, 31), ymd(2022, 2, 28), ymd(2022, 3, 31), ymd(2022, 4, 30),]
    )
}

#[test]
fn test_multi_year_matching_simple() {
    assert_eq!(
        Repetition::Monthly {
            from: ymd(2021, 4, 7),
            to: ymd(2022, 3, 7),
            repeat_on_day: MonthDay::new(7).unwrap()
        }
        .dates(),
        vec![
            ymd(2021, 4, 7),
            ymd(2021, 5, 7),
            ymd(2021, 6, 7),
            ymd(2021, 7, 7),
            ymd(2021, 8, 7),
            ymd(2021, 9, 7),
            ymd(2021, 10, 7),
            ymd(2021, 11, 7),
            ymd(2021, 12, 7),
            ymd(2022, 1, 7),
            ymd(2022, 2, 7),
            ymd(2022, 3, 7)
        ]
    )
}

#[test]
fn test_multi_year_nonmatching_early_late() {
    assert_eq!(
        Repetition::Monthly {
            from: ymd(2021, 4, 7),
            to: ymd(2022, 3, 15),
            repeat_on_day: MonthDay::new(12).unwrap()
        }
        .dates(),
        vec![
            ymd(2021, 4, 12),
            ymd(2021, 5, 12),
            ymd(2021, 6, 12),
            ymd(2021, 7, 12),
            ymd(2021, 8, 12),
            ymd(2021, 9, 12),
            ymd(2021, 10, 12),
            ymd(2021, 11, 12),
            ymd(2021, 12, 12),
            ymd(2022, 1, 12),
            ymd(2022, 2, 12),
            ymd(2022, 3, 12)
        ]
    )
}

#[test]
fn test_multi_year_nonmatching_late_early() {
    assert_eq!(
        Repetition::Monthly {
            from: ymd(2021, 4, 15),
            to: ymd(2022, 3, 7),
            repeat_on_day: MonthDay::new(12).unwrap()
        }
        .dates(),
        vec![
            ymd(2021, 5, 12),
            ymd(2021, 6, 12),
            ymd(2021, 7, 12),
            ymd(2021, 8, 12),
            ymd(2021, 9, 12),
            ymd(2021, 10, 12),
            ymd(2021, 11, 12),
            ymd(2021, 12, 12),
            ymd(2022, 1, 12),
            ymd(2022, 2, 12),
        ]
    )
}

#[test]
fn test_multi_year_nonmatching_end_of_month_non_leap_year() {
    assert_eq!(
        Repetition::Monthly {
            from: ymd(2021, 4, 15),
            to: ymd(2022, 4, 7),
            repeat_on_day: MonthDay::new(31).unwrap()
        }
        .dates(),
        vec![
            ymd(2021, 4, 30),
            ymd(2021, 5, 31),
            ymd(2021, 6, 30),
            ymd(2021, 7, 31),
            ymd(2021, 8, 31),
            ymd(2021, 9, 30),
            ymd(2021, 10, 31),
            ymd(2021, 11, 30),
            ymd(2021, 12, 31),
            ymd(2022, 1, 31),
            ymd(2022, 2, 28),
            ymd(2022, 3, 31),
        ]
    )
}

#[test]
fn test_multi_year_nonmatching_end_of_month_leap_year() {
    assert_eq!(
        Repetition::Monthly {
            from: ymd(2019, 4, 15),
            to: ymd(2020, 4, 7),
            repeat_on_day: MonthDay::new(31).unwrap()
        }
        .dates(),
        vec![
            ymd(2019, 4, 30),
            ymd(2019, 5, 31),
            ymd(2019, 6, 30),
            ymd(2019, 7, 31),
            ymd(2019, 8, 31),
            ymd(2019, 9, 30),
            ymd(2019, 10, 31),
            ymd(2019, 11, 30),
            ymd(2019, 12, 31),
            ymd(2020, 1, 31),
            ymd(2020, 2, 29),
            ymd(2020, 3, 31),
        ]
    )
}

#[test]
fn test_matching_weekdays() {
    assert_eq!(
        Repetition::Weekly {
            from: ymd(2021, 12, 13),
            to: ymd(2022, 1, 17),
            repeat_on_weekday: Weekday::Mon
        }
        .dates(),
        vec![
            ymd(2021, 12, 13),
            ymd(2021, 12, 20),
            ymd(2021, 12, 27),
            ymd(2022, 1, 3),
            ymd(2022, 1, 10),
            ymd(2022, 1, 17)
        ]
    )
}

#[test]
fn test_start_mismatched_early() {
    assert_eq!(
        Repetition::Weekly {
            from: ymd(2021, 12, 13),
            to: ymd(2022, 1, 18),
            repeat_on_weekday: Weekday::Tue
        }
        .dates(),
        vec![
            ymd(2021, 12, 14),
            ymd(2021, 12, 21),
            ymd(2021, 12, 28),
            ymd(2022, 1, 4),
            ymd(2022, 1, 11),
            ymd(2022, 1, 18)
        ]
    )
}

#[test]
fn test_start_mismatched_late() {
    assert_eq!(
        Repetition::Weekly {
            from: ymd(2021, 12, 14),
            to: ymd(2022, 1, 17),
            repeat_on_weekday: Weekday::Mon
        }
        .dates(),
        vec![
            ymd(2021, 12, 20),
            ymd(2021, 12, 27),
            ymd(2022, 1, 3),
            ymd(2022, 1, 10),
            ymd(2022, 1, 17)
        ]
    )
}

#[test]
fn test_end_mismatched_early() {
    assert_eq!(
        Repetition::Weekly {
            from: ymd(2021, 12, 14),
            to: ymd(2022, 1, 17),
            repeat_on_weekday: Weekday::Tue
        }
        .dates(),
        vec![
            ymd(2021, 12, 14),
            ymd(2021, 12, 21),
            ymd(2021, 12, 28),
            ymd(2022, 1, 4),
            ymd(2022, 1, 11),
        ]
    )
}

#[test]
fn test_end_mismatched_late() {
    assert_eq!(
        Repetition::Weekly {
            from: ymd(2021, 12, 14),
            to: ymd(2022, 1, 19),
            repeat_on_weekday: Weekday::Tue
        }
        .dates(),
        vec![
            ymd(2021, 12, 14),
            ymd(2021, 12, 21),
            ymd(2021, 12, 28),
            ymd(2022, 1, 4),
            ymd(2022, 1, 11),
            ymd(2022, 1, 18),
        ]
    )
}

#[test]
fn test_mismatched_early() {
    assert_eq!(
        Repetition::Weekly {
            from: ymd(2021, 12, 14),
            to: ymd(2022, 1, 19),
            repeat_on_weekday: Weekday::Thu
        }
        .dates(),
        vec![
            ymd(2021, 12, 16),
            ymd(2021, 12, 23),
            ymd(2021, 12, 30),
            ymd(2022, 1, 6),
            ymd(2022, 1, 13),
        ]
    )
}

#[test]
fn test_mismatched_late() {
    assert_eq!(
        Repetition::Weekly {
            from: ymd(2021, 12, 15),
            to: ymd(2022, 1, 20),
            repeat_on_weekday: Weekday::Tue
        }
        .dates(),
        vec![
            ymd(2021, 12, 21),
            ymd(2021, 12, 28),
            ymd(2022, 1, 4),
            ymd(2022, 1, 11),
            ymd(2022, 1, 18),
        ]
    )
}

#[test]
fn test_mismatched_early_late() {
    assert_eq!(
        Repetition::Weekly {
            from: ymd(2021, 12, 14),
            to: ymd(2022, 1, 23),
            repeat_on_weekday: Weekday::Sat
        }
        .dates(),
        vec![
            ymd(2021, 12, 18),
            ymd(2021, 12, 25),
            ymd(2022, 1, 1),
            ymd(2022, 1, 8),
            ymd(2022, 1, 15),
            ymd(2022, 1, 22),
        ]
    )
}

#[test]
fn test_mismatched_late_early() {
    assert_eq!(
        Repetition::Weekly {
            from: ymd(2021, 12, 17),
            to: ymd(2022, 1, 18),
            repeat_on_weekday: Weekday::Thu
        }
        .dates(),
        vec![ymd(2021, 12, 23), ymd(2021, 12, 30), ymd(2022, 1, 6), ymd(2022, 1, 13),]
    )
}

#[test]
fn test_dates() {
    let dates = Repetition::Daily { from: ymd(2021, 12, 13), to: ymd(2022, 1, 5) }.dates();

    assert_eq!(*dates.first().unwrap(), ymd(2021, 12, 13));
    assert_eq!(*dates.last().unwrap(), ymd(2022, 1, 5));
    assert_eq!(dates.len(), 24);
}

#[test]
fn test_date() {
    let dates = Repetition::Once { on: ymd(2022, 1, 27) }.dates();

    assert_eq!(dates.len(), 1);
    assert_eq!(*dates.first().unwrap(), ymd(2022, 1, 27));
}
