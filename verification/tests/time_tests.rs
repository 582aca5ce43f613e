use mco::time::{Month, Span, Time, Weekday, RFC3339, RFC3339Nano, TimeFormat};

#[test]
fn test_mon() {
    let m = Month::May;
    println!("{}", m.text());
    assert_eq!("May", m.text());
}

#[test]
fn test_parse() {
    let now = Time::now();
    println!("{}", now.format(TimeFormat));
    println!("{}", now.format(RFC3339));
    println!("{}", now.format(RFC3339Nano));
    assert_eq!(now, Time::parse(RFC3339Nano, &now.format(RFC3339Nano)).unwrap())
}

#[test]
fn test_eq() {
    let now = Time::now();
    let later = Time::now();
    println!("{}", now.format(RFC3339Nano));
    assert_eq!(false, now.before(&later));
}

#[test]
fn epoch_is_new_years_day_1970() {
    let t = Time { sec: 0, nsec: 0, offset: 0 };
    let (y, m, d) = t.date();
    assert_eq!(y, 1970);
    assert_eq!(m, Month::January);
    assert_eq!(d, 1);
    assert_eq!(t.weekday(), Weekday::Thursday);
    assert_eq!(t.hour(), 0);
    assert!(t.is_zero());
}

#[test]
fn known_instant_fields() {
    // 2006-01-02T15:04:05Z
    let t = Time { sec: 1136214245, nsec: 123_000_000, offset: 0 };
    assert_eq!(t.year(), 2006);
    assert_eq!(t.month(), Month::January);
    assert_eq!(t.day(), 2);
    assert_eq!(t.hour(), 15);
    assert_eq!(t.minute(), 4);
    assert_eq!(t.second(), 5);
    assert_eq!(t.millisecond(), 123);
    assert_eq!(t.weekday(), Weekday::Monday);
    assert_eq!(t.unix(), 1136214245);
    assert_eq!(t.unix_nano(), 1136214245_123_000_000);
}

#[test]
fn parse_known_text() {
    let t = Time::parse(RFC3339, "2006-01-02T15:04:05+00:00").unwrap();
    assert_eq!(t.unix_timestamp(), 1136214245);
    let printed = t.format(RFC3339);
    assert_eq!(printed, "2006-01-02T15:04:05+00:00");
}

#[test]
fn leap_year_days() {
    // 2000-02-29 existed; 1900-02-28 was the last of that February.
    let t = Time { sec: 951782400, nsec: 0, offset: 0 }; // 2000-02-29T00:00:00Z
    let (y, m, d) = t.date();
    assert_eq!((y, m, d), (2000, Month::February, 29));
    let u = Time { sec: -2203891200, nsec: 0, offset: 0 }; // 1900-03-01T00:00:00Z
    let (y2, m2, d2) = u.date();
    assert_eq!((y2, m2, d2), (1900, Month::March, 1));
}

#[test]
fn add_and_compare() {
    let mut t = Time { sec: 100, nsec: 900_000_000, offset: 0 };
    let u = t;
    t.add(Span { secs: 1, nanos: 200_000_000 });
    assert_eq!(t.sec, 102);
    assert_eq!(t.nsec, 100_000_000);
    // after() reports self < u, before() reports self > u, as ever.
    assert!(u.after(&t));
    assert!(t.before(&u));
    assert!(!t.equal(&u));
    let mut v = u;
    v.add_sec(2);
    assert_eq!(v.sec, 102);
}

#[test]
fn offsets_shift_the_civil_clock() {
    let mut t = Time { sec: 0, nsec: 0, offset: 0 };
    t.set_loc(3600);
    assert_eq!(t.hour(), 1);
    assert_eq!(t.day(), 1);
    t.set_loc(-3600);
    assert_eq!(t.hour(), 23);
    assert_eq!(t.day(), 31);
    assert_eq!(t.month(), Month::December);
    assert_eq!(t.year(), 1969);
}

#[test]
fn month_and_weekday_values() {
    assert_eq!(Month::January.to_i64(), 1);
    assert_eq!(Month::November.to_i64(), 11);
    assert_eq!(Month::December.to_i64(), 23);
    assert_eq!(Month::from(5), Month::May);
    assert_eq!(Month::from(99), Month::January);
    assert_eq!(Weekday::Sunday.to_i64(), 0);
    assert_eq!(Weekday::Saturday.to_i64(), 6);
    assert_eq!(Weekday::Wednesday.text(), "Wednesday");
}

#[test]
fn iso_week_numbers() {
    // 2006-01-02 was the Monday beginning ISO week 1 of 2006.
    let t = Time { sec: 1136214245, nsec: 0, offset: 0 };
    assert_eq!(t.iso_week(), (2006, 1));
    // 2016-01-01, a Friday, still belongs to ISO week 53 of 2015.
    let u = Time { sec: 1451606400, nsec: 0, offset: 0 };
    assert_eq!(u.iso_week(), (2016, 53));
}

#[test]
fn span_construction() {
    let s = Span::from_millis(1500);
    assert_eq!(s.secs, 1);
    assert_eq!(s.nanos, 500_000_000);
    assert!(!s.is_zero());
    assert!(Span::from_secs(0).is_zero());
}

#[test]
fn format_rejects_bad_layout() {
    let t = Time { sec: 0, nsec: 0, offset: 0 };
    assert_eq!(t.format("[no_such_item"), "");
}

#[test]
fn parse_rejects_bad_text() {
    assert!(Time::parse(RFC3339, "not a date").is_err());
}
