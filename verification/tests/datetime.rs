use neguse_taglib::DateTime;

#[test]
fn test() {
    assert_eq!(
        DateTime::from_iso_8601("2000").unwrap(),
        DateTime {
            year: Some(2000),
            ..Default::default()
        }
    );
    assert_eq!(
        DateTime::from_iso_8601("2000-01").unwrap(),
        DateTime {
            year: Some(2000),
            month: Some(1),
            ..Default::default()
        }
    );
    assert_eq!(
        DateTime::from_iso_8601("2000-01-01").unwrap(),
        DateTime {
            year: Some(2000),
            month: Some(1),
            day: Some(1),
            ..Default::default()
        }
    );
    assert_eq!(
        DateTime::from_iso_8601("2000-01-01T00").unwrap(),
        DateTime {
            year: Some(2000),
            month: Some(1),
            day: Some(1),
            hour: Some(0),
            ..Default::default()
        }
    );
    assert_eq!(
        DateTime::from_iso_8601("2000-01-01T00:00").unwrap(),
        DateTime {
            year: Some(2000),
            month: Some(1),
            day: Some(1),
            hour: Some(0),
            minute: Some(0),
            ..Default::default()
        }
    );
    assert_eq!(
        DateTime::from_iso_8601("2000-01-01T00:00:00").unwrap(),
        DateTime {
            year: Some(2000),
            month: Some(1),
            day: Some(1),
            hour: Some(0),
            minute: Some(0),
            second: Some(0),
            ..Default::default()
        }
    );

    let s = "2000-01-01T00:00:00";
    assert_eq!(
        DateTime::from_iso_8601(s).unwrap().to_iso_8601(),
        s.to_string()
    );
}

#[test]
fn date_is_read_as_far_as_it_goes() {
    assert_eq!(DateTime::from_iso_8601(""), None);
    assert_eq!(DateTime::from_iso_8601("200"), None);
    assert_eq!(DateTime::from_iso_8601("20a0"), None);
    assert_eq!(DateTime::from_iso_8601(" 2000"), None);
    assert_eq!(
        DateTime::from_iso_8601("2017abc"),
        Some(DateTime {
            year: Some(2017),
            ..Default::default()
        })
    );
    assert_eq!(
        DateTime::from_iso_8601("2000-1-01"),
        Some(DateTime {
            year: Some(2000),
            ..Default::default()
        })
    );
    assert_eq!(
        DateTime::from_iso_8601("2000-12T10"),
        Some(DateTime {
            year: Some(2000),
            month: Some(12),
            ..Default::default()
        })
    );
    assert_eq!(
        DateTime::from_iso_8601("1995-09-26T08:00:00Z"),
        Some(DateTime {
            year: Some(1995),
            month: Some(9),
            day: Some(26),
            hour: Some(8),
            minute: Some(0),
            second: Some(0),
        })
    );
    assert_eq!(
        DateTime::from_iso_8601("2000-01-01T00:00:00-00:00"),
        Some(DateTime {
            year: Some(2000),
            month: Some(1),
            day: Some(1),
            hour: Some(0),
            minute: Some(0),
            second: Some(0),
        })
    );
}

#[test]
fn date_is_written_as_far_as_it_goes() {
    assert_eq!(DateTime::default().to_iso_8601(), "");
    assert_eq!(
        DateTime {
            year: None,
            month: Some(3),
            ..Default::default()
        }
        .to_iso_8601(),
        ""
    );
    assert_eq!(
        DateTime {
            year: Some(7),
            month: Some(3),
            day: None,
            hour: Some(4),
            ..Default::default()
        }
        .to_iso_8601(),
        "0007-03"
    );
    assert_eq!(
        DateTime {
            year: Some(2008),
            month: Some(12),
            day: Some(29),
            hour: Some(23),
            minute: Some(59),
            second: Some(9),
        }
        .to_iso_8601(),
        "2008-12-29T23:59:09"
    );
    assert_eq!(
        DateTime {
            year: Some(-5),
            month: Some(200),
            ..Default::default()
        }
        .to_iso_8601(),
        "-005-200"
    );
    assert_eq!(
        DateTime {
            year: Some(12345),
            ..Default::default()
        }
        .to_iso_8601(),
        "12345"
    );
}

#[test]
fn from_chrono() {
    let s = "2000-01-01T00:00:00-00:00";
    let cdt = chrono::DateTime::parse_from_rfc3339(s).unwrap();
    let dt = DateTime::from_iso_8601(s).unwrap();
    assert_eq!(dt, cdt.naive_utc().into());
}

#[test]
fn into_chrono() {
    let s = "2000-01-01T00:00:00-00:00";
    let dt = DateTime::from_iso_8601(s).unwrap();
    let cdt = chrono::DateTime::parse_from_rfc3339(s).unwrap();
    let naive: Option<chrono::NaiveDateTime> = Option::from(dt);
    assert_eq!(cdt.naive_utc(), naive.unwrap());
}

#[test]
fn dates_of_the_calendar() {
    let cdt = chrono::DateTime::parse_from_rfc3339("1995-09-26T23:59:58+05:30").unwrap();
    assert_eq!(
        DateTime::from(cdt.naive_utc()),
        DateTime {
            year: Some(1995),
            month: Some(9),
            day: Some(26),
            hour: Some(18),
            minute: Some(29),
            second: Some(58),
        }
    );
    let year_only = DateTime {
        year: Some(2017),
        ..Default::default()
    };
    assert_eq!(
        year_only.to_naive(),
        chrono::NaiveDate::from_ymd_opt(2017, 1, 1)
            .unwrap()
            .and_hms_opt(0, 0, 0)
    );
    assert_eq!(
        DateTime::default().to_naive(),
        chrono::NaiveDate::from_ymd_opt(0, 1, 1)
            .unwrap()
            .and_hms_opt(0, 0, 0)
    );
    let no_such_day = DateTime {
        year: Some(2023),
        month: Some(2),
        day: Some(30),
        ..Default::default()
    };
    assert_eq!(no_such_day.to_naive(), None);
    let no_such_hour = DateTime {
        year: Some(2023),
        month: Some(2),
        day: Some(3),
        hour: Some(24),
        ..Default::default()
    };
    assert_eq!(no_such_hour.to_naive(), None);
    let wrapped = DateTime {
        year: Some((1i64 << 32) + 2000),
        ..Default::default()
    };
    assert_eq!(
        wrapped.to_naive(),
        chrono::NaiveDate::from_ymd_opt(2000, 1, 1)
            .unwrap()
            .and_hms_opt(0, 0, 0)
    );
}

#[test]
fn dates_exist_as_the_calendar_says() {
    let leap = |y: i64| y.rem_euclid(4) == 0 && (y.rem_euclid(100) != 0 || y.rem_euclid(400) == 0);
    let days = |y: i64, m: u8| match m {
        2 => {
            if leap(y) {
                29
            } else {
                28
            }
        }
        4 | 6 | 9 | 11 => 30,
        _ => 31,
    };
    let years: [i64; 19] = [
        -262144, -262143, -401, -400, -100, -5, -4, -1, 0, 1, 4, 100, 1900, 2000, 2023, 2024,
        2100, 262142, 262143,
    ];
    for &y in years.iter() {
        for m in 0u8..=13 {
            for d in 0u8..=32 {
                let date = DateTime {
                    year: Some(y),
                    month: Some(m),
                    day: Some(d),
                    ..Default::default()
                };
                let expected = -262143 <= y
                    && y <= 262142
                    && 1 <= m
                    && m <= 12
                    && 1 <= d
                    && d <= days(y, m);
                assert_eq!(date.to_naive().is_some(), expected, "{}-{}-{}", y, m, d);
            }
        }
    }
    let leap_day = DateTime {
        year: Some(2000),
        month: Some(2),
        day: Some(29),
        ..Default::default()
    };
    assert!(leap_day.to_naive().is_some());
    let no_leap_day = DateTime {
        year: Some(1900),
        month: Some(2),
        day: Some(29),
        ..Default::default()
    };
    assert_eq!(no_leap_day.to_naive(), None);
}
