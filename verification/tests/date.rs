use crabsoup::date::{
    decode_mapped_time, format_timestamp, parse_date, parse_format, parse_input_format,
    try_format_timestamp, value_as_timezone, DateError, FormatArg, LuaTimezone, MappedTime,
    TimezoneArg,
};

fn utc() -> LuaTimezone {
    value_as_timezone(TimezoneArg::Nil).unwrap()
}

fn zone(name: &str) -> LuaTimezone {
    LuaTimezone::from_str(name).unwrap()
}

#[test]
fn timezone_names() {
    assert!(matches!(LuaTimezone::from_str("LOCAL"), Ok(LuaTimezone::Local)));
    assert_eq!(zone("europe/paris").name(), "Europe/Paris");
    assert_eq!(zone("local").name(), "Local");
    assert_eq!(utc().name(), "UTC");
    assert!(matches!(LuaTimezone::from_str("Nowhere/Nothing"), Err(DateError::UnknownTimezone(_))));
}

#[test]
fn timezone_arguments() {
    assert_eq!(value_as_timezone(TimezoneArg::Name("utc".to_string())).unwrap().name(), "UTC");
    assert!(matches!(value_as_timezone(TimezoneArg::Timezone(LuaTimezone::Local)), Ok(LuaTimezone::Local)));
    assert!(matches!(
        value_as_timezone(TimezoneArg::Other("number".to_string())),
        Err(DateError::BadTimezoneArgument(t)) if t == "number"
    ));
}

#[test]
fn decode_mapped_time_cases() {
    assert_eq!(decode_mapped_time(MappedTime::Single(3)), Ok(3));
    assert_eq!(decode_mapped_time(MappedTime::Ambiguous(1, 2)), Ok(1));
    assert_eq!(decode_mapped_time::<i64>(MappedTime::Nonexistent), Err(DateError::DecodeFailed));
}

#[test]
fn parse_format_default() {
    assert_eq!(parse_format(None), "%a, %d %b %Y %H:%M:%S %Z");
    assert_eq!(parse_format(Some("%Y")), "%Y");
}

#[test]
fn parse_date_readings() {
    assert_eq!(parse_date("2024-01-02T03:04:05+0100", "%Y-%m-%dT%H:%M:%S%z", utc()), Ok(1704161045000000));
    assert_eq!(parse_date("2024-01-02 03:04:05", "%Y-%m-%d %H:%M:%S", utc()), Ok(1704164645000000));
    assert_eq!(parse_date("2024-01-02", "%Y-%m-%d", utc()), Ok(1704153600000000));
    assert_eq!(parse_date("garbage", "%Y-%m-%d", utc()), Err(DateError::CouldNotParse));
}

#[test]
fn parse_date_in_zone() {
    let ny = zone("America/New_York");
    assert_eq!(parse_date("2024-11-03 01:30:00", "%Y-%m-%d %H:%M:%S", ny), Ok(1730611800000000));
    assert_eq!(parse_date("2024-03-10 02:30:00", "%Y-%m-%d %H:%M:%S", ny), Err(DateError::DecodeFailed));
    assert_eq!(parse_date("2024-07-01 08:00:00", "%Y-%m-%d %H:%M:%S", ny), Ok(1719835200000000));
}

#[test]
fn parse_input_formats() {
    assert_eq!(
        parse_input_format("2024-01-02T03:04:05Z", &FormatArg::Default, utc()),
        Ok(1704164645000000)
    );
    assert_eq!(
        parse_input_format("2024-01-02", &FormatArg::List(vec!["%H".to_string(), "%Y-%m-%d".to_string()]), utc()),
        Ok(1704153600000000)
    );
    assert_eq!(
        parse_input_format("2024-01-02", &FormatArg::List(vec!["%H".to_string()]), utc()),
        Err(DateError::NoFormatsMatched)
    );
    assert_eq!(parse_input_format("x", &FormatArg::Default, utc()), Err(DateError::NoFormatsMatched));
    assert_eq!(
        parse_input_format("2024", &FormatArg::One("%d".to_string()), utc()),
        Err(DateError::CouldNotParse)
    );
    assert_eq!(parse_input_format("2024", &FormatArg::Other, utc()), Err(DateError::BadFormatArgument));
}

#[test]
fn formatting() {
    assert_eq!(format_timestamp(0, None, utc()), Ok("Thu, 01 Jan 1970 00:00:00 UTC".to_string()));
    assert_eq!(format_timestamp(1704164645000000, Some("%Y-%m-%d %H:%M"), utc()), Ok("2024-01-02 03:04".to_string()));
    assert_eq!(try_format_timestamp(0, Some("%Q"), utc()), Err(DateError::InvalidFormat));
    assert_eq!(try_format_timestamp(0, Some("%Y"), zone("Asia/Tokyo")), Ok("1970".to_string()));
}

#[test]
fn instant_decoded_before_format_checked() {
    assert_eq!(try_format_timestamp(i64::MAX, Some("%Q"), utc()), Err(DateError::DecodeFailed));
    assert_eq!(try_format_timestamp(i64::MIN, None, LuaTimezone::Local), Err(DateError::DecodeFailed));
    assert_eq!(format_timestamp(i64::MAX, None, utc()), Err(DateError::DecodeFailed));
    assert!(try_format_timestamp(0, Some("%Y"), LuaTimezone::Local).is_ok());
}

#[test]
fn local_zone_parsing_order() {
    let formats = FormatArg::List(vec!["%Y".to_string(), "%Y-%m-%dT%H:%M:%S%z".to_string()]);
    assert_eq!(
        parse_input_format("2024-01-02T03:04:05+0100", &formats, LuaTimezone::Local),
        Ok(1704161045000000)
    );
    assert!(parse_date("2024-07-01", "%Y-%m-%d", LuaTimezone::Local).is_ok());
}
