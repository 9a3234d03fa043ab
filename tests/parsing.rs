use trmnl_server::telemetry::{parse_decimal, parse_i32, parse_status_report, Decimal};

#[test]
fn parses_integers() {
    assert_eq!(parse_i32("-70"), Some(-70));
    assert_eq!(parse_i32("60"), Some(60));
    assert_eq!(parse_i32("+5"), Some(5));
    assert_eq!(parse_i32("007"), Some(7));
    assert_eq!(parse_i32("2147483647"), Some(i32::MAX));
    assert_eq!(parse_i32("-2147483648"), Some(i32::MIN));
}

#[test]
fn rejects_bad_integers() {
    assert_eq!(parse_i32(""), None);
    assert_eq!(parse_i32("-"), None);
    assert_eq!(parse_i32("+"), None);
    assert_eq!(parse_i32("abc"), None);
    assert_eq!(parse_i32("1.5"), None);
    assert_eq!(parse_i32(" 5"), None);
    assert_eq!(parse_i32("2147483648"), None);
    assert_eq!(parse_i32("-2147483649"), None);
    assert_eq!(parse_i32("99999999999999999999999"), None);
}

#[test]
fn parses_decimals() {
    assert_eq!(parse_decimal("3.7"), Some(Decimal { mantissa: 37, scale: 1 }));
    assert_eq!(parse_decimal("3.70"), Some(Decimal { mantissa: 370, scale: 2 }));
    assert_eq!(parse_decimal("-0.5"), Some(Decimal { mantissa: -5, scale: 1 }));
    assert_eq!(parse_decimal("4"), Some(Decimal { mantissa: 4, scale: 0 }));
    assert_eq!(parse_decimal("12."), Some(Decimal { mantissa: 12, scale: 0 }));
    assert_eq!(parse_decimal(".5"), Some(Decimal { mantissa: 5, scale: 1 }));
    assert_eq!(parse_decimal("+1.25"), Some(Decimal { mantissa: 125, scale: 2 }));
    assert_eq!(parse_decimal("-9223372036854775808"), Some(Decimal { mantissa: i64::MIN, scale: 0 }));
}

#[test]
fn rejects_bad_decimals() {
    assert_eq!(parse_decimal(""), None);
    assert_eq!(parse_decimal("."), None);
    assert_eq!(parse_decimal("-"), None);
    assert_eq!(parse_decimal("1.2.3"), None);
    assert_eq!(parse_decimal("3,7"), None);
    assert_eq!(parse_decimal("volts"), None);
    assert_eq!(parse_decimal("9223372036854775808"), None);
}

#[test]
fn status_report_drops_each_bad_field_alone() {
    let report = parse_status_report("weak", "3.7", "1.0.0", "60");
    assert_eq!(report.rssi, None);
    assert_eq!(report.battery_voltage, Some(Decimal { mantissa: 37, scale: 1 }));
    assert_eq!(report.fw_version.as_deref(), Some("1.0.0"));
    assert_eq!(report.refresh_rate, Some(60));

    let empty = parse_status_report("", "", "", "");
    assert_eq!(empty.rssi, None);
    assert_eq!(empty.battery_voltage, None);
    assert_eq!(empty.fw_version, None);
    assert_eq!(empty.refresh_rate, None);
}
