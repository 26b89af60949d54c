use medic::medic;
use medic::summary;
use medic::Check;
use medic::CheckFn;
use medic::CheckResult;
use medic::MedicError;
use medic::ReportSink;
use medic::StringSink;

#[test]
fn test_medic() {
    let checks = vec![
        Check::new(
            "Check 1",
            CheckFn::new(|| Ok((CheckResult::Okay, "All good".to_string()))),
        ),
        Check::new(
            "Check 2",
            CheckFn::new(|| Ok((CheckResult::Warning, "Not so good\nNot at all".to_string()))),
        ),
        Check::new(
            "Check 3",
            CheckFn::new(|| Ok((CheckResult::Fatal, "Very bad".to_string()))),
        ),
    ];
    // A plain sink, so the output carries no styling to strip.
    let mut out_buf = StringSink::new();

    let result = medic(&mut out_buf, &checks).unwrap();
    assert_eq!(result, CheckResult::Fatal);

    let out = out_buf.into_string();
    let expected = "RESULT   CHECK    MESSAGE\nOk       Check 1  All good\nWarning  Check 2  Not so good\n                  Not at all\nFatal    Check 3  Very bad\n";
    assert_eq!(out, expected);
}

#[test]
fn test_failing_check_becomes_fatal() {
    let checks = vec![
        Check::new(
            "Check 1",
            CheckFn::new(|| Ok((CheckResult::Okay, "All good".to_string()))),
        ),
        Check::new(
            "Check 2",
            CheckFn::new(|| Ok((CheckResult::Warning, "Not so good\nNot at all".to_string()))),
        ),
        Check::new("Check 3", CheckFn::new(|| Err("Very bad".to_string()))),
    ];
    let mut out_buf = StringSink::new();

    let result = medic(&mut out_buf, &checks).unwrap();
    assert_eq!(result, CheckResult::Fatal);

    let out = out_buf.into_string();
    let expected = "RESULT   CHECK    MESSAGE\nOk       Check 1  All good\nWarning  Check 2  Not so good\n                  Not at all\nFatal    Check 3  Very bad\n";
    assert_eq!(out, expected);
}

#[test]
fn test_empty_check_sequence() {
    let checks: Vec<Check> = vec![];
    let mut out_buf = StringSink::new();
    let result = medic(&mut out_buf, &checks).unwrap();
    assert_eq!(result, CheckResult::Okay);
    assert_eq!(out_buf.into_string(), "RESULT  CHECK  MESSAGE\n");

    let mut summary_buf = StringSink::new();
    summary(&mut summary_buf, result).unwrap();
    assert_eq!(summary_buf.into_string(), "");
}

#[test]
fn test_worst_severity_is_maximum() {
    let checks = vec![
        Check::new(
            "first",
            CheckFn::new(|| Ok((CheckResult::Info, "fyi".to_string()))),
        ),
        Check::new(
            "second",
            CheckFn::new(|| Ok((CheckResult::Error, "bad".to_string()))),
        ),
        Check::new(
            "third",
            CheckFn::new(|| Ok((CheckResult::Warning, "hmm".to_string()))),
        ),
    ];
    let mut out_buf = StringSink::new();
    let result = medic(&mut out_buf, &checks).unwrap();
    assert_eq!(result, CheckResult::Error);
}

#[test]
fn test_severity_total_order() {
    assert!(CheckResult::Okay < CheckResult::Info);
    assert!(CheckResult::Info < CheckResult::Warning);
    assert!(CheckResult::Warning < CheckResult::Error);
    assert!(CheckResult::Error < CheckResult::Fatal);
    assert!(CheckResult::Fatal >= CheckResult::Okay);
    assert_eq!(CheckResult::Warning, CheckResult::Warning);
}

#[test]
fn test_name_column_widens_to_longest_name() {
    let checks = vec![
        Check::new("a", CheckFn::new(|| Ok((CheckResult::Okay, "x".to_string())))),
        Check::new(
            "abcdefghij",
            CheckFn::new(|| Ok((CheckResult::Okay, "y".to_string()))),
        ),
    ];
    let mut out_buf = StringSink::new();
    medic(&mut out_buf, &checks).unwrap();
    let expected = "RESULT  CHECK       MESSAGE\nOk      a           x\nOk      abcdefghij  y\n";
    assert_eq!(out_buf.into_string(), expected);
}

#[test]
fn test_continuation_indent_matches_columns() {
    let checks = vec![Check::new(
        "multi",
        CheckFn::new(|| Ok((CheckResult::Okay, "one\ntwo".to_string()))),
    )];
    let mut out_buf = StringSink::new();
    medic(&mut out_buf, &checks).unwrap();
    let out = out_buf.into_string();
    // status width 6 ("RESULT"), name width 5 ("multi"/"CHECK"), plus the
    // two double-space separators: continuation lines start 15 places in.
    let lines: Vec<&str> = out.lines().collect();
    assert_eq!(lines.len(), 3);
    assert_eq!(lines[2], "               two");
    assert_eq!(&lines[2][..15], "               ");
}

#[test]
fn test_two_runs_identical_output() {
    let make_checks = || {
        vec![
            Check::new(
                "stable",
                CheckFn::new(|| Ok((CheckResult::Info, "same every time".to_string()))),
            ),
            Check::new("flaky", CheckFn::new(|| Err("broken".to_string()))),
        ]
    };
    let mut first = StringSink::new();
    let mut second = StringSink::new();
    let r1 = medic(&mut first, &make_checks()).unwrap();
    let r2 = medic(&mut second, &make_checks()).unwrap();
    assert_eq!(r1, r2);
    assert_eq!(first.into_string(), second.into_string());
}

#[test]
fn test_summary_warning_line() {
    let mut out_buf = StringSink::new();
    summary(&mut out_buf, CheckResult::Warning).unwrap();
    assert_eq!(
        out_buf.into_string(),
        "\nWarning: Warning(s) found, consider investigating (especially if you have issues)\n"
    );
}

#[test]
fn test_summary_error_and_fatal_lines() {
    let expected = "\nError: Error(s) found, you should rectify these for proper operation\n";
    let mut error_buf = StringSink::new();
    summary(&mut error_buf, CheckResult::Error).unwrap();
    assert_eq!(error_buf.into_string(), expected);

    let mut fatal_buf = StringSink::new();
    summary(&mut fatal_buf, CheckResult::Fatal).unwrap();
    assert_eq!(fatal_buf.into_string(), expected);
}

#[test]
fn test_summary_silent_below_warning() {
    let mut okay_buf = StringSink::new();
    summary(&mut okay_buf, CheckResult::Okay).unwrap();
    assert_eq!(okay_buf.into_string(), "");

    let mut info_buf = StringSink::new();
    summary(&mut info_buf, CheckResult::Info).unwrap();
    assert_eq!(info_buf.into_string(), "");
}

#[test]
fn test_colored_table_styling() {
    let checks = vec![Check::new(
        "probe",
        CheckFn::new(|| Ok((CheckResult::Okay, "fine".to_string()))),
    )];
    let mut out_buf = StringSink::colored();
    medic(&mut out_buf, &checks).unwrap();
    let expected = "\x1b[1mRESULT  CHECK  MESSAGE\x1b[0m\n\x1b[32mOk    \x1b[0m  probe  fine\n";
    assert_eq!(out_buf.into_string(), expected);
}

#[test]
fn test_colored_summary_styling() {
    let mut warn_buf = StringSink::colored();
    summary(&mut warn_buf, CheckResult::Warning).unwrap();
    assert_eq!(
        warn_buf.into_string(),
        "\n\x1b[33mWarning\x1b[0m: Warning(s) found, consider investigating (especially if you have issues)\n"
    );

    let mut err_buf = StringSink::colored();
    summary(&mut err_buf, CheckResult::Error).unwrap();
    assert_eq!(
        err_buf.into_string(),
        "\n\x1b[31mError\x1b[0m: Error(s) found, you should rectify these for proper operation\n"
    );
}

#[test]
fn test_write_failure_surfaces_and_halts() {
    let checks = vec![Check::new(
        "probe",
        CheckFn::new(|| Ok((CheckResult::Okay, "fine".to_string()))),
    )];
    // The header alone is longer than ten characters, so the very first
    // write fails and nothing is delivered.
    let mut out_buf = StringSink::with_limit(10);
    let result = medic(&mut out_buf, &checks);
    assert!(matches!(result, Err(MedicError::IoError(_))));
    assert_eq!(out_buf.into_string(), "");
}

#[test]
fn test_write_failure_mid_table() {
    let checks = vec![
        Check::new("one", CheckFn::new(|| Ok((CheckResult::Okay, "first".to_string())))),
        Check::new("two", CheckFn::new(|| Ok((CheckResult::Okay, "second".to_string())))),
    ];
    // Room for the header and the first row exactly: the run fails on the
    // second row and writes nothing beyond the first.
    let mut out_buf = StringSink::with_limit(44);
    let result = medic(&mut out_buf, &checks);
    assert!(matches!(result, Err(MedicError::IoError(_))));
    let out = out_buf.into_string();
    assert_eq!(out, "RESULT  CHECK  MESSAGE\nOk      one    first\n");
}

#[test]
fn test_error_message_texts() {
    let io_err = MedicError::IoError("pipe closed".to_string());
    assert_eq!(io_err.message(), "IO error: pipe closed");
    let check_err = MedicError::CheckError("probe exploded".to_string());
    assert_eq!(check_err.message(), "Error from check: probe exploded");
}

#[test]
fn test_outcome_of_success_recorded_verbatim() {
    let o = medic::outcome_of("probe", Ok((CheckResult::Info, "all well".to_string())));
    assert_eq!(o.severity, CheckResult::Info);
    assert_eq!(o.name, "probe");
    assert_eq!(o.message, "all well");
}

#[test]
fn test_outcome_of_failure_becomes_fatal() {
    let o = medic::outcome_of("probe", Err("it broke".to_string()));
    assert_eq!(o.severity, CheckResult::Fatal);
    assert_eq!(o.name, "probe");
    assert_eq!(o.message, "it broke");
}

#[test]
fn test_limited_sink_takes_exactly_its_bound() {
    let mut sink = StringSink::with_limit(3);
    assert!(sink.write_str("abc").is_ok());
    let refused = sink.write_str("d");
    assert!(matches!(refused, Err(MedicError::IoError(_))));
    assert_eq!(sink.into_string(), "abc");
}
