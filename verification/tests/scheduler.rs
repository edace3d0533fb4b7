use fork::calendar::{
    civil_from_epoch, days_in_month, epoch_from_civil, is_leap_year, next_day, parse_time_of_day,
    Date, DateTime, TimeOfDay,
};
use fork::delays::{delay_from_instant, get_delay, get_execution_date_time, next_delay};

fn at(year: u64, month: u64, day: u64, hour: u64, minute: u64, second: u64) -> DateTime {
    DateTime { date: Date { year, month, day }, time: TimeOfDay { hour, minute, second } }
}

#[test]
fn epoch_of_known_instants() {
    assert_eq!(epoch_from_civil(&at(1970, 1, 1, 0, 0, 0)), 0);
    assert_eq!(epoch_from_civil(&at(2024, 1, 1, 0, 0, 0)), 1704067200);
    assert_eq!(epoch_from_civil(&at(2024, 3, 1, 10, 0, 0)), 1709287200);
    assert_eq!(epoch_from_civil(&at(2023, 2, 28, 23, 30, 0)), 1677627000);
}

#[test]
fn civil_round_trip() {
    let instants: Vec<u64> = vec![0, 86399, 86400, 1709287200, 1677627000, 951782400];
    for i in instants {
        let dt = civil_from_epoch(i);
        assert_eq!(epoch_from_civil(&dt), i);
    }
    let dt = civil_from_epoch(1709164800);
    assert_eq!(dt.date.year, 2024);
    assert_eq!(dt.date.month, 2);
    assert_eq!(dt.date.day, 29);
}

#[test]
fn leap_year_rules() {
    assert!(is_leap_year(2024));
    assert!(!is_leap_year(2023));
    assert!(is_leap_year(2000));
    assert!(!is_leap_year(2100));
    assert_eq!(days_in_month(2024, 2), 29);
    assert_eq!(days_in_month(2023, 2), 28);
    assert_eq!(days_in_month(2024, 4), 30);
    assert_eq!(days_in_month(2024, 12), 31);
}

#[test]
fn next_day_rolls_over() {
    let d = next_day(&Date { year: 2023, month: 2, day: 28 });
    assert_eq!((d.year, d.month, d.day), (2023, 3, 1));
    let d = next_day(&Date { year: 2024, month: 2, day: 28 });
    assert_eq!((d.year, d.month, d.day), (2024, 2, 29));
    let d = next_day(&Date { year: 2024, month: 12, day: 31 });
    assert_eq!((d.year, d.month, d.day), (2025, 1, 1));
    let d = next_day(&Date { year: 2024, month: 6, day: 30 });
    assert_eq!((d.year, d.month, d.day), (2024, 7, 1));
}

#[test]
fn delay_when_time_already_passed_is_tomorrow() {
    // 2024-03-01T10:00:00Z with a 09:00:00 target: next occurrence is
    // 2024-03-02T09:00:00Z, 23 hours later.
    let now: u64 = 1709287200;
    let delay = next_delay(now, &TimeOfDay { hour: 9, minute: 0, second: 0 });
    assert_eq!(delay, 23 * 3600);
    assert_eq!(now + delay, epoch_from_civil(&at(2024, 3, 2, 9, 0, 0)));
}

#[test]
fn delay_when_time_still_ahead_is_today() {
    // 2024-03-01T08:00:00Z with a 09:00:00 target: one hour later today.
    let now: u64 = epoch_from_civil(&at(2024, 3, 1, 8, 0, 0));
    let delay = next_delay(now, &TimeOfDay { hour: 9, minute: 0, second: 0 });
    assert_eq!(delay, 3600);
}

#[test]
fn delay_rolls_over_month_in_non_leap_year() {
    // 2023-02-28T23:30:00Z with a midnight target: the next occurrence is
    // 2023-03-01T00:00:00Z, not February 29th, which does not exist in 2023.
    let now: u64 = 1677627000;
    let delay = next_delay(now, &TimeOfDay { hour: 0, minute: 0, second: 0 });
    assert_eq!(delay, 1800);
    assert_eq!(now + delay, epoch_from_civil(&at(2023, 3, 1, 0, 0, 0)));
}

#[test]
fn delay_is_zero_on_exact_match() {
    let now: u64 = epoch_from_civil(&at(2024, 3, 1, 9, 0, 0));
    let delay = next_delay(now, &TimeOfDay { hour: 9, minute: 0, second: 0 });
    assert_eq!(delay, 0);
}

#[test]
fn delay_lands_on_target_time_of_day() {
    let targets: Vec<TimeOfDay> = vec![
        TimeOfDay { hour: 0, minute: 0, second: 0 },
        TimeOfDay { hour: 9, minute: 30, second: 15 },
        TimeOfDay { hour: 23, minute: 59, second: 59 },
    ];
    let instants: Vec<u64> = vec![0, 1709287200, 1677627000, 123456789];
    for t in &targets {
        let target_seconds: u64 = t.hour * 3600 + t.minute * 60 + t.second;
        for &now in &instants {
            let delay = next_delay(now, t);
            assert!(delay < 86400);
            assert_eq!((now + delay) % 86400, target_seconds);
        }
    }
}

#[test]
fn execution_date_time_picks_today_or_tomorrow() {
    let now = at(2024, 3, 1, 10, 0, 0);
    let r = get_execution_date_time(&now, &TimeOfDay { hour: 9, minute: 0, second: 0 });
    assert_eq!((r.date.year, r.date.month, r.date.day), (2024, 3, 2));
    assert_eq!((r.time.hour, r.time.minute, r.time.second), (9, 0, 0));
    let r = get_execution_date_time(&now, &TimeOfDay { hour: 10, minute: 0, second: 0 });
    assert_eq!((r.date.year, r.date.month, r.date.day), (2024, 3, 1));
}

#[test]
fn time_of_day_text_parses_exactly() {
    let t = parse_time_of_day("09:30:15").unwrap();
    assert_eq!((t.hour, t.minute, t.second), (9, 30, 15));
    let t = parse_time_of_day("23:59:59").unwrap();
    assert_eq!((t.hour, t.minute, t.second), (23, 59, 59));
    let t = parse_time_of_day("00:00:00").unwrap();
    assert_eq!((t.hour, t.minute, t.second), (0, 0, 0));
    assert!(parse_time_of_day("24:00:00").is_none());
    assert!(parse_time_of_day("12:60:00").is_none());
    assert!(parse_time_of_day("12:00:60").is_none());
    assert!(parse_time_of_day("9:30:15").is_none());
    assert!(parse_time_of_day("09:30").is_none());
    assert!(parse_time_of_day("ab:cd:ef").is_none());
    assert!(parse_time_of_day("09-30-15").is_none());
    assert!(parse_time_of_day("").is_none());
}

#[test]
fn every_schedulable_instant_gets_a_delay() {
    let t = TimeOfDay { hour: 9, minute: 0, second: 0 };
    assert_eq!(delay_from_instant(1709287200, &t), Ok(23 * 3600));
    assert_eq!(delay_from_instant(0, &t), Ok(9 * 3600));
    assert!(delay_from_instant(u64::MAX, &t).is_err());
    assert!(delay_from_instant(u64::MAX - 86399, &t).is_err());
}

#[test]
fn get_delay_from_the_real_clock_is_below_one_day() {
    let r = get_delay(&TimeOfDay { hour: 12, minute: 0, second: 0 });
    match r {
        Ok(delay) => assert!(delay < 86400),
        Err(message) => panic!("{}", message),
    }
}
