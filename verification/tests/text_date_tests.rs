use deepseek_desktop::date::{civil_date, date_string_from_unix_secs, format_date, log_file_name, CivilDate};
use deepseek_desktop::text::{decimal_string, parse_u16, zero_padded_string};
use deepseek_desktop::{is_leap, today_date_string};

#[test]
fn parse_u16_follows_std() {
    let cases = [
        "0", "+7", "65535", "65536", "", "+", "-", "-1", "12a", "007", "0000000000000065535", "99999x", "6553x6",
        "9x", " 1", "\u{0663}", "70000", "+-1", "++1",
    ];
    for c in cases {
        let ours = parse_u16(c).map_err(|e| e.message());
        let std = c.parse::<u16>().map_err(|e| e.to_string());
        assert_eq!(ours, std, "case {:?}", c);
    }
}

#[test]
fn decimal_formatting() {
    assert_eq!(decimal_string(0), "0");
    assert_eq!(decimal_string(1234567890), "1234567890");
    assert_eq!(decimal_string(u64::MAX), u64::MAX.to_string());
    assert_eq!(zero_padded_string(7, 2), "07");
    assert_eq!(zero_padded_string(12345, 4), "12345");
    assert_eq!(zero_padded_string(5, 0), "5");
    assert_eq!(zero_padded_string(0, 3), "000");
}

#[test]
fn leap_years() {
    assert!(is_leap(2000));
    assert!(!is_leap(1900));
    assert!(is_leap(2024));
    assert!(!is_leap(2023));
    assert!(is_leap(-4));
}

#[test]
fn dates_from_unix_seconds() {
    assert_eq!(date_string_from_unix_secs(0), "1970-01-01");
    assert_eq!(date_string_from_unix_secs(86399), "1970-01-01");
    assert_eq!(date_string_from_unix_secs(86400), "1970-01-02");
    assert_eq!(date_string_from_unix_secs(951782400), "2000-02-29");
    assert_eq!(date_string_from_unix_secs(1709164800), "2024-02-29");
    assert_eq!(date_string_from_unix_secs(1735689599), "2024-12-31");
    assert_eq!(date_string_from_unix_secs(1735689600), "2025-01-01");
    assert_eq!(date_string_from_unix_secs(253402300800), "10000-01-01");
}

#[test]
fn civil_dates() {
    assert_eq!(civil_date(0), CivilDate { year: 1970, month: 1, day: 1 });
    assert_eq!(civil_date(59), CivilDate { year: 1970, month: 3, day: 1 });
    assert_eq!(civil_date(365), CivilDate { year: 1971, month: 1, day: 1 });
    assert_eq!(format_date(CivilDate { year: 812, month: 3, day: 9 }), "0812-03-09");
}

#[test]
fn log_file_names() {
    assert_eq!(log_file_name(0), "1970-01-01.log");
    let today = today_date_string();
    assert_eq!(today.len(), 10);
    assert!(today.starts_with("20"));
}

#[test]
fn today_log_file_name_is_a_dated_log() {
    let name = deepseek_desktop::date::today_log_file_name();
    assert_eq!(name.len(), 14);
    assert!(name.ends_with(".log"));
    assert_eq!(&name[..10], deepseek_desktop::today_date_string());
}

#[test]
fn date_text_follows_the_clock() {
    let readings: [u64; 8] = [0, 86399, 86400, 951_782_399, 951_782_400, 951_868_800, 1_700_000_000, 253_402_300_799];
    let texts: Vec<String> = readings.iter().map(|s| date_string_from_unix_secs(*s)).collect();
    assert_eq!(texts[0], "1970-01-01");
    assert_eq!(texts[1], "1970-01-01");
    assert_eq!(texts[2], "1970-01-02");
    assert_eq!(texts[3], "2000-02-28");
    assert_eq!(texts[4], "2000-02-29");
    assert_eq!(texts[5], "2000-03-01");
    assert_eq!(texts[7], "9999-12-31");
    for i in 0..readings.len() {
        for j in i..readings.len() {
            assert!(texts[i] <= texts[j]);
            assert_eq!(texts[i] == texts[j], readings[i] / 86400 == readings[j] / 86400);
        }
    }
}
