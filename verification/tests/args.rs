use ris_jobs::args_info::{parse_usize, usize_to_string, ArgsError, ArgsInfo};

fn args(parts: &[&str]) -> Vec<String> {
    parts.iter().map(|s| s.to_string()).collect()
}

#[test]
fn parse_defaults() {
    let info = ArgsInfo::parse(args(&["engine"])).unwrap();
    assert_eq!(info.executable_path, "engine");
    assert!(!info.no_restart);
    assert_eq!(info.workers, None);
    assert_eq!(info.assets, "assets");
    assert_eq!(info.raw_args, vec!["engine".to_string()]);
}

#[test]
fn parse_no_restart_is_case_insensitive() {
    let info = ArgsInfo::parse(args(&["engine", "--NO-RESTART"])).unwrap();
    assert!(info.no_restart);
}

#[test]
fn parse_workers_and_assets() {
    let info =
        ArgsInfo::parse(args(&["engine", "--workers", "4", "--assets", "Custom/Dir"])).unwrap();
    assert_eq!(info.workers, Some(4));
    assert_eq!(info.assets, "Custom/Dir");
    assert!(!info.no_restart);
}

#[test]
fn parse_later_flags_win() {
    let info = ArgsInfo::parse(args(&["engine", "--workers", "4", "--workers", "9"])).unwrap();
    assert_eq!(info.workers, Some(9));
}

#[test]
fn parse_missing_value_is_rejected() {
    assert_eq!(
        ArgsInfo::parse(args(&["engine", "--workers"])),
        Err(ArgsError::MissingValue)
    );
    assert_eq!(
        ArgsInfo::parse(args(&["engine", "--assets"])),
        Err(ArgsError::MissingValue)
    );
}

#[test]
fn parse_bad_worker_count_is_rejected() {
    assert_eq!(
        ArgsInfo::parse(args(&["engine", "--workers", "four"])),
        Err(ArgsError::InvalidWorkers)
    );
}

#[test]
fn parse_unknown_argument_is_rejected() {
    assert_eq!(
        ArgsInfo::parse(args(&["engine", "--frobnicate"])),
        Err(ArgsError::UnexpectedArgument)
    );
}

#[test]
fn parse_usize_accepts_exactly_digit_strings() {
    assert_eq!(parse_usize("0"), Some(0));
    assert_eq!(parse_usize("007"), Some(7));
    assert_eq!(parse_usize("18446744073709551615"), Some(usize::MAX));
    assert_eq!(parse_usize("18446744073709551616"), None);
    assert_eq!(parse_usize(""), None);
    assert_eq!(parse_usize("12a"), None);
    assert_eq!(parse_usize("-3"), None);
    assert_eq!(parse_usize(" 3"), None);
}

#[test]
fn usize_to_string_writes_decimal() {
    assert_eq!(usize_to_string(0), "0");
    assert_eq!(usize_to_string(7), "7");
    assert_eq!(usize_to_string(90210), "90210");
    assert_eq!(usize_to_string(usize::MAX), "18446744073709551615");
}

#[test]
fn generate_then_parse_round_trips() {
    let first =
        ArgsInfo::parse(args(&["engine", "--no-restart", "--workers", "8", "--assets", "pack"]))
            .unwrap();
    let regenerated = first.generate_raw_args();
    assert_eq!(
        regenerated,
        vec!["engine", "--no-restart", "--workers", "8", "--assets", "pack"]
    );
    let reparsed = ArgsInfo::parse(regenerated).unwrap();
    assert_eq!(reparsed.no_restart, first.no_restart);
    assert_eq!(reparsed.workers, first.workers);
    assert_eq!(reparsed.assets, first.assets);
}

#[test]
fn generate_skips_unset_flags() {
    let info = ArgsInfo::parse(args(&["engine"])).unwrap();
    assert_eq!(info.generate_raw_args(), vec!["engine", "--assets", "assets"]);
}
