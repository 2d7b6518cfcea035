use jvs::probe::{version_from_probe, CommandOutput, ProbeError};
use jvs::version::parse_java_version;

#[test]
fn test_parse_java_version() {
    let output1 = r#"openjdk version "11.0.16" 2022-07-19"#;
    assert_eq!(parse_java_version(output1), "11.0.16");

    let output2 = r#"java version "1.8.0_292""#;
    assert_eq!(parse_java_version(output2), "1.8.0_292");

    let output3 = r#"openjdk version "17.0.2" 2022-01-18"#;
    assert_eq!(parse_java_version(output3), "17.0.2");

    let output4 = "no version here";
    assert_eq!(parse_java_version(output4), "Unknown");
}

#[test]
fn parse_empty_text_gives_sentinel() {
    assert_eq!(parse_java_version(""), "Unknown");
}

#[test]
fn parse_marker_without_closing_quote_gives_sentinel() {
    assert_eq!(parse_java_version(r#"openjdk version "11.0.16"#), "Unknown");
}

#[test]
fn parse_takes_first_occurrence() {
    let text = r#"version "first" and then version "second""#;
    assert_eq!(parse_java_version(text), "first");
}

#[test]
fn parse_marker_at_very_start() {
    assert_eq!(parse_java_version(r#"version "9""#), "9");
}

#[test]
fn parse_is_case_sensitive() {
    assert_eq!(parse_java_version(r#"Version "11.0.16""#), "Unknown");
}

#[test]
fn parse_multiline_probe_output() {
    let text = "openjdk version \"11.0.16\" 2022-07-19\nOpenJDK Runtime Environment\n";
    assert_eq!(parse_java_version(text), "11.0.16");
}

#[test]
fn probe_success_goes_through_extractor_on_stderr() {
    let r: Result<CommandOutput, ProbeError> = Ok(CommandOutput {
        stdout: String::new(),
        stderr: String::from(r#"openjdk version "17.0.2" 2022-01-18"#),
    });
    assert_eq!(version_from_probe(&r), "17.0.2");
}

#[test]
fn probe_success_without_pattern_is_sentinel() {
    let r: Result<CommandOutput, ProbeError> = Ok(CommandOutput {
        stdout: String::from(r#"version "17.0.2" on the wrong stream"#),
        stderr: String::from("no pattern on the diagnostic stream"),
    });
    assert_eq!(version_from_probe(&r), "Unknown");
}

#[test]
fn probe_timeout_is_sentinel() {
    let r: Result<CommandOutput, ProbeError> = Err(ProbeError::Timeout);
    assert_eq!(version_from_probe(&r), "Unknown");
}

#[test]
fn probe_launch_failure_is_sentinel() {
    let r: Result<CommandOutput, ProbeError> = Err(ProbeError::LaunchFailure);
    assert_eq!(version_from_probe(&r), "Unknown");
}

#[test]
fn probe_nonzero_exit_is_sentinel() {
    let r: Result<CommandOutput, ProbeError> =
        Err(ProbeError::NonZeroExit(String::from("some diagnostic text")));
    assert_eq!(version_from_probe(&r), "Unknown");
}

#[test]
fn completed_command_classification() {
    let r = jvs::probe::classify_completed(
        true,
        String::from("out"),
        String::from(r#"openjdk version "11.0.16""#),
    );
    assert_eq!(version_from_probe(&r), "11.0.16");
    let r = jvs::probe::classify_completed(
        false,
        String::new(),
        String::from(r#"openjdk version "11.0.16""#),
    );
    assert!(matches!(&r, Err(ProbeError::NonZeroExit(t)) if t.contains("11.0.16")));
    assert_eq!(version_from_probe(&r), "Unknown");
}
