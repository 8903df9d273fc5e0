use logstamp::detector::{detect_line, line_matches};
use logstamp::errors::FormatError;
use logstamp::parser::parse;
use logstamp::pattern::compile;
use logstamp::pieces::FormatPiece;
use logstamp::resolver::{resolve, TimestampContext};

fn ctx(fallback_year: Option<i64>, fallback_offset_ms: Option<i64>) -> TimestampContext {
    TimestampContext { fallback_year, fallback_offset_ms }
}

#[test]
fn test_date_parsers_escapes() {
    assert_eq!(
        parse("MM   .|?*+(){}[]^$DD"),
        Ok(vec![
            FormatPiece::Month,
            FormatPiece::Separator(String::from(r"\s+\.\|\?\*\+\(\)\{}\[]\^\$")),
            FormatPiece::Day
        ])
    );
}

#[test]
fn test_format_parsers() {
    assert_eq!(
        parse("DD-MM ---> hh:mm:ss:s TZD"),
        Ok(vec![
            FormatPiece::Day,
            FormatPiece::Separator(String::from("-")),
            FormatPiece::Month,
            FormatPiece::Separator(String::from(r"\s+--->\s+")),
            FormatPiece::Hour,
            FormatPiece::Separator(String::from(":")),
            FormatPiece::Minute,
            FormatPiece::Separator(String::from(":")),
            FormatPiece::Second,
            FormatPiece::Separator(String::from(":")),
            FormatPiece::Fraction,
            FormatPiece::Separator(String::from(r"\s+")),
            FormatPiece::TimeZone,
        ])
    );
    assert_eq!(
        parse("-YYYY"),
        Ok(vec![FormatPiece::Separator("-".to_string()), FormatPiece::Year])
    );
    assert_eq!(
        parse("YYYY-"),
        Ok(vec![FormatPiece::Year, FormatPiece::Separator("-".to_string())])
    );
    assert_eq!(parse("DDMM"), Ok(vec![FormatPiece::Day, FormatPiece::Month]));
    assert_eq!(
        parse("DD:MM"),
        Ok(vec![
            FormatPiece::Day,
            FormatPiece::Separator(String::from(":")),
            FormatPiece::Month
        ])
    );
    assert_eq!(parse("MMDD"), Ok(vec![FormatPiece::Month, FormatPiece::Day]));
}

#[test]
fn test_date_format_str_to_regex1() {
    // 05-22 12:36:36.506 +0100 I/GKI_LINUX1
    let input = "DD-MM hh:mm:ss.s TZD";
    let pattern = compile(input).expect("should be parsed");
    assert_eq!(
        r"(?P<d>\d{2})-(?P<m>\d{2})\s+(?P<H>\d{2}):(?P<M>\d{2}):(?P<S>\d{2})\.(?P<millis>\d+)\s+(?P<timezone>[\+\-]\d\d:?\d\d)",
        pattern.as_str()
    );
}

#[test]
fn test_date_format_str_to_regex2() {
    // 05-22-2019 12:36:04.344 A0
    let input2 = "DD-MM-YYYY hh:mm:ss.s";
    let pattern2 = compile(input2).expect("should be parsed");
    assert_eq!(
        r"(?P<d>\d{2})-(?P<m>\d{2})-(?P<Y>\d{4})\s+(?P<H>\d{2}):(?P<M>\d{2}):(?P<S>\d{2})\.(?P<millis>\d+)",
        pattern2.as_str()
    );
}

#[test]
fn test_date_format_str_to_regex_with_short_month_token() {
    // 23/Jan/2019:23:58:13
    let pattern = compile("DD/MMM/YYYY:hh:mm:ss").expect("should be parsed");
    assert_eq!(
        r"(?P<d>\d{2})/(?P<MMM>(Jan|Feb|Mar|Apr|May|Jun|Jul|Aug|Sep|Oct|Nov|Dec))/(?P<Y>\d{4}):(?P<H>\d{2}):(?P<M>\d{2}):(?P<S>\d{2})",
        pattern.as_str()
    );
}

#[test]
fn test_date_format_str_to_regex_with_escape_characters() {
    // 05|22|2019
    let pattern = compile("DD|MM|YYYY").expect("should be parsed");
    assert_eq!(r"(?P<d>\d{2})\|(?P<m>\d{2})\|(?P<Y>\d{4})", pattern.as_str());
}

#[test]
fn test_date_format_str_to_regex_minus_after() {
    // 2019-
    let pattern = compile("YYYY-").expect("should be parsed");
    assert_eq!(r"(?P<Y>\d{4})-", pattern.as_str());
}

#[test]
fn test_date_format_str_to_regex_empty() {
    let pattern = compile("");
    assert!(pattern.is_err());
}

#[test]
fn test_date_format_str_to_regex_other() {
    assert!(line_matches("-YYYY", "-1997").unwrap_or(false));
    assert!(line_matches("YYYY-MM-DDThh:mmTZD", "1997-07-16T19:20+01:00").unwrap_or(false));
    assert!(line_matches("YYYY", "1997").unwrap_or(false));
    assert!(line_matches("YYYY", "1997  some other crap").unwrap_or(false));
    assert!(line_matches("YYYY", "something before: [1997]").unwrap_or(false));

    assert!(line_matches("YYYY-MM", "1997-07").unwrap_or(false));

    assert!(line_matches("YYYY-MM-DD", "1997-07-16").unwrap_or(false));

    assert!(line_matches("YYYY-MM-DDThh:mmTZD", "1997-07-16T19:20+01:00").unwrap_or(false));

    assert!(line_matches("YYYY-MM-DDThh:mm:ssTZD", "1997-07-16T19:20:30+01:00").unwrap_or(false));

    assert!(
        line_matches("YYYY-MM-DDThh:mm:ss.sTZD", "1997-07-16T19:20:30.45+01:00").unwrap_or(false)
    );
    assert!(
        line_matches("YYYY-MM-DDThh:mm:ss.sTZD", "1997-07-16T19:20:30.45+01:00").unwrap_or(false)
    );
    assert!(line_matches("YYYYMMDDhhmmsssTZD", "1997071619203045+01:00").unwrap_or(false));
}

#[test]
fn test_parse_date_line_no_year_with_timezone() {
    let input = "04-04 11:52:50.229 +0200 D/oup.csc(  665): [728] MqttLogger";
    let pattern = compile("MM-DD hh:mm:ss.s TZD").expect("format string should produce regex");

    let resolved = resolve(input, &pattern, &ctx(Some(2017), None))
        .expect("convert to limed line should work");
    println!("timestamp: {}", resolved.posix_ms);
    assert_eq!(1_491_299_570_229, resolved.posix_ms);
}

#[test]
fn test_parse_date_line_no_year_no_millis() {
    let input = "04-04 11:52:50 +0200 D/oup.csc(  665): [728] MqttLogger";
    let pattern = compile("MM-DD hh:mm:ss TZD").expect("should be parsed");
    let resolved = resolve(input, &pattern, &ctx(Some(2017), None))
        .expect("convert to limed line should work");
    assert_eq!(1_491_299_570_000, resolved.posix_ms);
}

const TWO_HOURS_IN_MS: i64 = 2 * 3600 * 1000;

#[test]
fn test_parse_date_line_year_no_timezone() {
    let input = "04-04-2017 11:52:50.229 0 0.764564113869644 0.7033032911158661 0.807587397462308";
    let pattern = compile("MM-DD-YYYY hh:mm:ss.s").expect("format string should produce regex");
    let resolved = resolve(input, &pattern, &ctx(None, Some(TWO_HOURS_IN_MS))).unwrap();
    assert_eq!(1_491_299_570_229, resolved.posix_ms);
}

#[test]
fn test_parse_date_line_with_short_month_str() {
    let input = "109.169.248.247 - - [04/Apr/2017:11:52:50 +0200] xyz";
    let pattern = compile("DD/MMM/YYYY:hh:mm:ss TZD").expect("format string should produce regex");
    let resolved = resolve(input, &pattern, &ctx(None, Some(TWO_HOURS_IN_MS))).unwrap();
    assert_eq!(1_491_299_570_000, resolved.posix_ms);
}

#[test]
fn test_parse_date_line_only_millis() {
    let input = "1559831467577 some logging here...";
    let pattern = compile("sss").expect("format string should produce regex");
    let resolved = resolve(input, &pattern, &ctx(None, None)).unwrap();
    assert_eq!(1_559_831_467_577, resolved.posix_ms);
    let resolved_with_offset = resolve(input, &pattern, &ctx(None, Some(-TWO_HOURS_IN_MS)))
        .unwrap();
    assert_eq!(1_559_838_667_577, resolved_with_offset.posix_ms);
}

#[test]
fn test_detect_timestamp_in_string_simple() {
    match detect_line("2019-07-30 10:08:02.555", &ctx(Some(2019), Some(0))) {
        Ok(resolved) => assert_eq!(1_564_481_282_555, resolved.posix_ms),
        Err(e) => panic!("error happened in detection: {:?}", e),
    }
    match detect_line("2019-07-30 09:38:02.555 -00:30", &ctx(Some(2019), None)) {
        Ok(resolved) => assert_eq!(1_564_481_282_555, resolved.posix_ms),
        Err(e) => panic!("error happened in detection: {:?}", e),
    }
}

#[test]
fn test_detect_timestamp_in_string_with_t() {
    match detect_line("2019-07-30T10:08:02.555", &ctx(Some(2019), Some(0))) {
        Ok(resolved) => assert_eq!(1_564_481_282_555, resolved.posix_ms),
        Err(e) => panic!("error happened in detection: {:?}", e),
    }
    match detect_line("2019-07-30T04:38:02.555 -05:30", &ctx(Some(2019), None)) {
        Ok(resolved) => assert_eq!(1_564_481_282_555, resolved.posix_ms),
        Err(e) => panic!("error happened in detection: {:?}", e),
    }
}

#[test]
fn test_detect_timestamp_in_string_no_year() {
    match detect_line("07-30 10:08:02.555", &ctx(Some(2019), Some(0))) {
        Ok(resolved) => assert_eq!(1_564_481_282_555, resolved.posix_ms),
        Err(e) => panic!("error happened in detection: {:?}", e),
    }
    match detect_line("07-30 12:08:02.555 +0200", &ctx(Some(2019), None)) {
        Ok(resolved) => assert_eq!(1_564_481_282_555, resolved.posix_ms),
        Err(e) => panic!("error happened in detection: {:?}", e),
    }
}

#[test]
fn test_detect_timestamp_in_string_no_year_with_t() {
    match detect_line("07-30T10:08:02.555", &ctx(Some(2019), Some(0))) {
        Ok(resolved) => assert_eq!(1_564_481_282_555, resolved.posix_ms),
        Err(e) => panic!("error happened in detection: {:?}", e),
    }
    match detect_line("07-30T15:08:02.555 +05:00", &ctx(Some(2019), None)) {
        Ok(resolved) => assert_eq!(1_564_481_282_555, resolved.posix_ms),
        Err(e) => panic!("error happened in detection: {:?}", e),
    }
}

#[test]
fn test_detect_timestamp_in_string_year_last() {
    match detect_line("07-30-2019 10:08:02.555", &ctx(Some(2019), Some(0))) {
        Ok(resolved) => assert_eq!(1_564_481_282_555, resolved.posix_ms),
        Err(e) => panic!("error happened in detection: {:?}", e),
    }
    match detect_line("07-30-2019 08:08:02.555 -0200", &ctx(Some(2019), None)) {
        Ok(resolved) => assert_eq!(1_564_481_282_555, resolved.posix_ms),
        Err(e) => panic!("error happened in detection: {:?}", e),
    }
}

#[test]
fn test_detect_timestamp_in_string_short_month_name() {
    match detect_line(
        "109.169.248.247 - - [30/Jul/2019:10:08:02] xyz",
        &ctx(Some(2019), Some(0)),
    ) {
        Ok(resolved) => assert_eq!(1_564_481_282_000, resolved.posix_ms),
        Err(e) => panic!("error happened in detection: {:?}", e),
    }
    match detect_line(
        "109.169.248.247 - - [30/Jul/2019:12:08:02 +0200] xyz",
        &ctx(Some(2019), None),
    ) {
        Ok(resolved) => assert_eq!(1_564_481_282_000, resolved.posix_ms),
        Err(e) => panic!("error happened in detection: {:?}", e),
    }
}

#[test]
fn test_resolve_empty_format_error() {
    assert_eq!(parse(""), Err(FormatError::EmptyFormatError));
    assert_eq!(parse("--- :: ---"), Err(FormatError::EmptyFormatError));
}
