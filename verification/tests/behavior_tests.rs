use logstamp::detector::{candidate_formats, detect_file_format, detect_line, line_matches};
use logstamp::errors::FormatError;
use logstamp::parser::parse;
use logstamp::pattern::{compile, synthesize};
use logstamp::pieces::FormatPiece;
use logstamp::resolver::{resolve, TimestampContext};

fn ctx(fallback_year: Option<i64>, fallback_offset_ms: Option<i64>) -> TimestampContext {
    TimestampContext { fallback_year, fallback_offset_ms }
}

#[test]
fn month_short_name_is_one_token() {
    // `MMM` is recognized as a single month-short-name token, never split
    // into `MM` plus a stray `M`.
    assert_eq!(
        parse("DD/MMM/YYYY:hh:mm:ss"),
        Ok(vec![
            FormatPiece::Day,
            FormatPiece::Separator(String::from("/")),
            FormatPiece::MonthShortName,
            FormatPiece::Separator(String::from("/")),
            FormatPiece::Year,
            FormatPiece::Separator(String::from(":")),
            FormatPiece::Hour,
            FormatPiece::Separator(String::from(":")),
            FormatPiece::Minute,
            FormatPiece::Separator(String::from(":")),
            FormatPiece::Second,
        ])
    );
}

#[test]
fn android_log_line_matches_and_resolves() {
    let line = "05-22 12:36:36.506 +0100 I/GKI_LINUX1";
    assert_eq!(Ok(true), line_matches("DD-MM hh:mm:ss.s TZD", line));
    // Detection picks the month-first candidate; the result is the UTC
    // instant of local time 12:36:36.506 at offset +01:00.
    let resolved = detect_line(line, &ctx(Some(2019), None)).unwrap();
    assert_eq!(1_558_524_996_506, resolved.posix_ms);
    assert!(resolved.year_from_context);
    assert!(!resolved.offset_from_context);
}

#[test]
fn empty_expression_is_an_error_not_vacuous_true() {
    assert_eq!(Err(FormatError::EmptyFormatError), line_matches("", "anything"));
    assert_eq!(Err(FormatError::EmptyFormatError), line_matches("...", "..."));
}

#[test]
fn resolving_twice_gives_identical_results() {
    let pattern = compile("MM-DD hh:mm:ss.s TZD").unwrap();
    let line = "04-04 11:52:50.229 +0200 D/oup.csc(665): [728] MqttLogger";
    let context = ctx(Some(2017), None);
    let first = resolve(line, &pattern, &context).unwrap();
    let second = resolve(line, &pattern, &context).unwrap();
    assert_eq!(first, second);
    assert_eq!(1_491_299_570_229, first.posix_ms);
    assert!(first.year_from_context);
    assert!(!first.offset_from_context);
}

#[test]
fn fraction_digits_scale_as_fraction_of_second() {
    let pattern = compile("MM-DD hh:mm:ss.s").unwrap();
    let context = ctx(Some(2017), None);
    let one = resolve("04-04 11:52:50.5 x", &pattern, &context).unwrap();
    assert_eq!(1_491_306_770_500, one.posix_ms);
    let two = resolve("04-04 11:52:50.45 x", &pattern, &context).unwrap();
    assert_eq!(1_491_306_770_450, two.posix_ms);
    let three = resolve("04-04 11:52:50.506 x", &pattern, &context).unwrap();
    assert_eq!(1_491_306_770_506, three.posix_ms);
    let four = resolve("04-04 11:52:50.5064 x", &pattern, &context).unwrap();
    assert_eq!(1_491_306_770_506, four.posix_ms);
}

#[test]
fn leap_year_bounds_are_enforced() {
    let pattern = compile("YYYY-MM-DD").unwrap();
    let context = ctx(None, None);
    let leap = resolve("2020-02-29", &pattern, &context).unwrap();
    assert_eq!(1_582_934_400_000, leap.posix_ms);
    assert_eq!(
        Err(FormatError::InvalidFieldError),
        resolve("2019-02-29", &pattern, &context)
    );
    assert_eq!(
        Err(FormatError::InvalidFieldError),
        resolve("2019-13-01", &pattern, &context)
    );
}

#[test]
fn no_match_and_missing_year_errors() {
    let pattern = compile("YYYY-MM-DD").unwrap();
    assert_eq!(
        Err(FormatError::NoMatchError),
        resolve("no digits here", &pattern, &ctx(None, None))
    );
    let no_year = compile("MM-DD hh:mm:ss").unwrap();
    assert_eq!(
        Err(FormatError::MissingYearError),
        resolve("04-04 11:52:50", &no_year, &ctx(None, None))
    );
}

#[test]
fn duplicate_fields_cannot_be_synthesized() {
    assert!(matches!(compile("YYYY YYYY"), Err(FormatError::CompileError)));
    let pieces = parse("hh:mm hh").unwrap();
    assert!(matches!(synthesize(&pieces), Err(FormatError::CompileError)));
}

#[test]
fn raw_epoch_run_length_limits() {
    let pattern = compile("sss").unwrap();
    assert!(pattern.raw_epoch);
    let eighteen = resolve("123456789012345678 tail", &pattern, &ctx(None, None)).unwrap();
    assert_eq!(123_456_789_012_345_678, eighteen.posix_ms);
    assert_eq!(
        Err(FormatError::InvalidFieldError),
        resolve("1234567890123456789 tail", &pattern, &ctx(None, None))
    );
}

#[test]
fn raw_epoch_flags_ignore_year_context() {
    let pattern = compile("sss").unwrap();
    let resolved = resolve("1559831467577", &pattern, &ctx(Some(2017), Some(-7_200_000)))
        .unwrap();
    assert_eq!(1_559_838_667_577, resolved.posix_ms);
    assert!(!resolved.year_from_context);
    assert!(resolved.offset_from_context);
}

#[test]
fn explicit_offset_wins_over_context_offset() {
    let pattern = compile("MM-DD hh:mm:ss.s TZD").unwrap();
    let resolved = resolve(
        "04-04 11:52:50.229 +0200 tail",
        &pattern,
        &ctx(Some(2017), Some(-7_200_000)),
    )
    .unwrap();
    assert_eq!(1_491_299_570_229, resolved.posix_ms);
    assert!(!resolved.offset_from_context);
}

#[test]
fn detect_line_reports_no_format_matched() {
    assert_eq!(
        Err(FormatError::NoFormatMatchedError),
        detect_line("nothing timestamp-like", &ctx(Some(2019), None))
    );
}

#[test]
fn detect_file_format_homogeneous_file() {
    let lines: Vec<String> = vec![
        String::from("2019-07-30 10:08:02.555 first"),
        String::from(""),
        String::from("2020-01-01 00:00:00.0 second"),
        String::from("1997-12-31 23:59:59.999 third"),
    ];
    assert_eq!(Ok("YYYY-MM-DD hh:mm:ss.s"), detect_file_format(&lines));
}

#[test]
fn detect_file_format_rejects_mixed_lines() {
    // The candidate matching the first line misses the second, and no
    // other candidate matches both, so detection reports failure.
    let lines: Vec<String> = vec![
        String::from("2019-07-30 10:08:02.555 first"),
        String::from("no timestamp in sight"),
    ];
    assert_eq!(Err(FormatError::NoFormatDetectedError), detect_file_format(&lines));
}

#[test]
fn detect_file_format_empty_sample() {
    let no_lines: Vec<String> = Vec::new();
    assert_eq!(Err(FormatError::EmptyFileError), detect_file_format(&no_lines));
    let blank: Vec<String> = vec![String::from(""), String::from("")];
    assert_eq!(Err(FormatError::EmptyFileError), detect_file_format(&blank));
}

#[test]
fn registry_is_ordered_most_specific_first() {
    let cands = candidate_formats();
    assert_eq!(14, cands.len());
    assert_eq!("YYYY-MM-DD hh:mm:ss.s TZD", cands[0]);
    assert_eq!("YYYY", cands[13]);
}

#[test]
fn separator_only_expressions_fail_detection_of_fields() {
    assert!(matches!(compile(" - "), Err(FormatError::EmptyFormatError)));
}
