use tzlog::calendar::civil_of_instant;
use tzlog::logger::Level;
use tzlog::{format_at, get_datetime, get_default_timezone, Logger, Zone};

fn warsaw() -> Zone {
    Zone::from_name("Europe/Warsaw").unwrap()
}

#[test]
fn default_timezone_name_is_warsaw() {
    assert_eq!(get_default_timezone(), "Europe/Warsaw");
}

#[test]
fn default_timezone_name_ignores_logger_state() {
    let logger = Logger::new(Some(Zone::from_name("America/New_York").unwrap()));
    let _ = logger.render_line(Level::Info, 0, "configured");
    assert_eq!(get_default_timezone(), "Europe/Warsaw");
}

#[test]
fn warsaw_winter_info_line() {
    // 2024-01-15T10:30:00Z; Warsaw is UTC+1 without daylight saving.
    let logger = Logger::new(Some(warsaw()));
    let line = logger.render_line(Level::Info, 1705314600, "ready");
    assert_eq!(line, "[15/01/2024 - 11:30:00] [INFO] ready");
}

#[test]
fn warsaw_summer_info_line() {
    // 2024-07-15T10:30:00Z; Warsaw is UTC+2 with daylight saving active.
    let logger = Logger::new(Some(warsaw()));
    let line = logger.render_line(Level::Info, 1721039400, "ready");
    assert_eq!(line, "[15/07/2024 - 12:30:00] [INFO] ready");
}

#[test]
fn implicit_and_explicit_default_agree() {
    let implicit = Logger::new(None);
    let explicit = Logger::new(Some(warsaw()));
    for &t in &[0i64, 1705314600, 1721039400, -1, 951868800] {
        assert_eq!(
            implicit.render_line(Level::Warning, t, "same"),
            explicit.render_line(Level::Warning, t, "same"),
        );
    }
}

#[test]
fn levels_differ_only_in_tag() {
    let logger = Logger::new(None);
    let t = 1705314600;
    let info = logger.render_line(Level::Info, t, "msg");
    let warning = logger.render_line(Level::Warning, t, "msg");
    let error = logger.render_line(Level::Error, t, "msg");
    assert_eq!(info, "[15/01/2024 - 11:30:00] [INFO] msg");
    assert_eq!(warning, "[15/01/2024 - 11:30:00] [WARNING] msg");
    assert_eq!(error, "[15/01/2024 - 11:30:00] [ERROR] msg");
    assert_ne!(info, warning);
    assert_ne!(warning, error);
    assert_ne!(info, error);
}

#[test]
fn blank_line_is_empty() {
    let logger = Logger::new(None);
    assert_eq!(logger.new_line(), "");
}

#[test]
fn logging_does_not_change_the_zone() {
    let logger = Logger::new(Some(warsaw()));
    for _ in 0..5 {
        let _ = logger.info_log("ping");
        let _ = logger.warning_log("ping");
        let _ = logger.error_log("ping");
        let _ = logger.new_line();
    }
    // A later rendering still uses Warsaw's winter offset of +1 hour.
    let line = logger.render_line(Level::Info, 1705314600, "still warsaw");
    assert_eq!(line, "[15/01/2024 - 11:30:00] [INFO] still warsaw");
}

#[test]
fn epoch_in_utc() {
    let utc = Zone::from_name("UTC").unwrap();
    assert_eq!(format_at(&utc, 0), "01/01/1970 - 00:00:00");
}

#[test]
fn instant_before_epoch() {
    // 1969-12-31T23:59:59Z is 1970-01-01T00:59:59 in Warsaw (UTC+1).
    assert_eq!(format_at(&warsaw(), -1), "01/01/1970 - 00:59:59");
}

#[test]
fn leap_day_renders() {
    let utc = Zone::from_name("UTC").unwrap();
    assert_eq!(format_at(&utc, 1709208000), "29/02/2024 - 12:00:00");
}

#[test]
fn unrecognized_zone_is_rejected() {
    assert!(Zone::from_name("Not/AZone").is_none());
    assert!(Zone::from_name("").is_none());
    assert!(Zone::from_name("europe/warsaw").is_none());
}

#[test]
fn recognized_zone_keeps_its_name() {
    let z = Zone::from_name("Asia/Tokyo").unwrap();
    assert_eq!(z.name(), "Asia/Tokyo");
}

#[test]
fn format_matches_chrono_rendering() {
    // The library's verified calendar and rendering agree with chrono's own
    // formatter across zones, daylight-saving transitions and pre-epoch
    // instants.
    let cases: &[(&str, i64)] = &[
        ("Europe/Warsaw", 1705314600),
        ("Europe/Warsaw", 1721039400),
        ("Europe/Warsaw", 1711843200),  // around the spring DST change
        ("Europe/Warsaw", 1729994400),  // around the autumn DST change
        ("UTC", 0),
        ("UTC", -86400),
        ("America/New_York", 1000000000),
        ("America/New_York", 0), // west of UTC: the epoch falls on the previous day
        ("Asia/Kathmandu", 1234567890), // offset not a whole hour
        ("Pacific/Kiritimati", 2000000000),
        ("Europe/Warsaw", -2208988800), // year 1900, not a leap year
    ];
    for &(name, t) in cases {
        let zone = Zone::from_name(name).unwrap();
        let tz: chrono_tz::Tz = name.parse().unwrap();
        let expected = chrono::DateTime::from_timestamp(t, 0)
            .unwrap()
            .with_timezone(&tz)
            .format("%d/%m/%Y - %H:%M:%S")
            .to_string();
        assert_eq!(format_at(&zone, t), expected, "zone {name} at {t}");
    }
}

#[test]
fn get_datetime_has_the_fixed_layout() {
    let s = get_datetime(&warsaw());
    let bytes = s.as_bytes();
    assert_eq!(bytes.len(), 21);
    assert_eq!(bytes[2], b'/');
    assert_eq!(bytes[5], b'/');
    assert_eq!(&s[10..13], " - ");
    assert_eq!(bytes[15], b':');
    assert_eq!(bytes[18], b':');
}

#[test]
fn civil_conversion_round_trips_against_chrono() {
    for &t in &[0i64, 86399, 86400, -86400, -1, 1705314600, 253402300799, -62135596800] {
        let c = civil_of_instant(t);
        let dt = chrono::DateTime::from_timestamp(t, 0).unwrap();
        let expected = dt.format("%Y-%m-%d %H:%M:%S").to_string();
        let got = format!(
            "{:04}-{:02}-{:02} {:02}:{:02}:{:02}",
            c.year, c.month, c.day, c.hour, c.minute, c.second
        );
        assert_eq!(got, expected, "instant {t}");
    }
}
