use clap::builder::{PossibleValuesParser, RangedU64ValueParser};
use clap::{Arg, ArgAction, ArgMatches, Command};

use screening::ScreeningArgs;

/// The `Address Screening` flags, as the node declares them.
fn screening_command() -> Command {
    Command::new("reth node")
        .next_help_heading("Address Screening")
        .arg(
            Arg::new("enable")
                .long("screening.enable")
                .action(ArgAction::SetTrue)
                .help("Enable address screening via ECSD sidecar."),
        )
        .arg(
            Arg::new("endpoint")
                .long("screening.endpoint")
                .default_value("http://127.0.0.1:9090")
                .help("gRPC endpoint of the ECSD sidecar."),
        )
        .arg(
            Arg::new("timeout_ms")
                .long("screening.timeout-ms")
                .value_parser(RangedU64ValueParser::<u64>::new())
                .default_value("100")
                .help("Request timeout in milliseconds."),
        )
        .arg(
            Arg::new("fail_mode")
                .long("screening.fail-mode")
                .default_value("open")
                .value_parser(PossibleValuesParser::new(["open", "closed"]))
                .help("Behavior when ECSD is unavailable: \"open\" or \"closed\"."),
        )
}

fn args_from(matches: &ArgMatches) -> ScreeningArgs {
    ScreeningArgs {
        enable: matches.get_flag("enable"),
        endpoint: matches.get_one::<String>("endpoint").unwrap().clone(),
        timeout_ms: *matches.get_one::<u64>("timeout_ms").unwrap(),
        fail_mode: matches.get_one::<String>("fail_mode").unwrap().clone(),
    }
}

fn parse_from(argv: &[&str]) -> ScreeningArgs {
    args_from(&screening_command().get_matches_from(argv.iter().copied()))
}

fn try_parse_from(argv: &[&str]) -> Result<ScreeningArgs, clap::Error> {
    screening_command().try_get_matches_from(argv.iter().copied()).map(|m| args_from(&m))
}

#[test]
fn test_default_screening_args() {
    let args = parse_from(&["reth node"]);

    assert!(!args.enable);
    assert_eq!(args.endpoint, "http://127.0.0.1:9090");
    assert_eq!(args.timeout_ms, 100);
    assert_eq!(args.fail_mode, "open");
}

#[test]
fn test_screening_args_all_flags() {
    let args = parse_from(&[
        "reth node",
        "--screening.enable",
        "--screening.endpoint",
        "http://10.0.0.5:9090",
        "--screening.timeout-ms",
        "200",
        "--screening.fail-mode",
        "closed",
    ]);

    assert!(args.enable);
    assert_eq!(args.endpoint, "http://10.0.0.5:9090");
    assert_eq!(args.timeout_ms, 200);
    assert_eq!(args.fail_mode, "closed");
}

#[test]
#[should_panic(expected = "invalid value 'close'")]
fn test_screening_args_invalid_fail_mode() {
    // Typo: "close" instead of "closed" should fail fast
    let _args = try_parse_from(&["reth node", "--screening.fail-mode", "close"])
        .map_err(|e| e.to_string())
        .unwrap();
}

#[test]
#[should_panic(expected = "invalid value 'permissive'")]
fn test_screening_args_invalid_fail_mode_permissive() {
    // Invalid value should fail fast
    let _args = try_parse_from(&["reth node", "--screening.fail-mode", "permissive"])
        .map_err(|e| e.to_string())
        .unwrap();
}

#[test]
fn default_screening_args_match_the_flag_defaults() {
    assert_eq!(ScreeningArgs::default(), parse_from(&["reth node"]));
    let args = ScreeningArgs::default();
    assert!(!args.enable);
    assert_eq!(args.endpoint, "http://127.0.0.1:9090");
    assert_eq!(args.timeout_ms, 100);
    assert_eq!(args.fail_mode, "open");
}
