use lib::test_runner::{parse_args, ArgAction, TestConfig};

#[test]
fn test_config_defaults() {
    let config = TestConfig::default();
    assert!(config.run_unit_tests);
    assert!(config.run_integration_tests);
    assert!(config.run_performance_tests);
    assert!(!config.run_qemu_tests);
    assert!(config.parallel_execution);
    assert!(config.generate_reports);
    assert!(!config.verbose);
}

fn words(v: &[&str]) -> Vec<String> {
    v.iter().map(|s| s.to_string()).collect()
}

#[test]
fn unit_only_then_qemu() {
    let (c, act, stop) = parse_args(&words(&["runner", "--unit-only", "--with-qemu", "-v"]));
    assert_eq!(stop, 4);
    assert_eq!(act, ArgAction::Continue);
    assert!(c.run_unit_tests);
    assert!(!c.run_integration_tests);
    assert!(!c.run_performance_tests);
    assert!(c.run_qemu_tests);
    assert!(c.verbose);
}

#[test]
fn program_name_and_plain_words_are_ignored() {
    let (c, act, stop) = parse_args(&words(&["--no-unit", "file.txt"]));
    assert_eq!(stop, 2);
    assert_eq!(act, ArgAction::Continue);
    assert!(c.run_unit_tests);
}

#[test]
fn help_and_unknown_stop_reading() {
    let (c, act, stop) = parse_args(&words(&["runner", "--no-reports", "-h", "--no-parallel"]));
    assert_eq!(stop, 2);
    assert_eq!(act, ArgAction::ShowHelp);
    assert!(!c.generate_reports);
    assert!(c.parallel_execution);
    let (_, act, stop) = parse_args(&words(&["runner", "--bogus"]));
    assert_eq!(stop, 1);
    assert_eq!(act, ArgAction::UnknownOption);
}

#[test]
fn single_suite_switches() {
    let mut c = TestConfig::default();
    assert_eq!(c.apply_arg("--performance-only"), ArgAction::Continue);
    assert!(c.run_performance_tests && !c.run_unit_tests && !c.run_integration_tests && !c.run_qemu_tests);
    c.apply_arg("--qemu-only");
    assert!(c.run_qemu_tests && !c.run_performance_tests);
    c.apply_arg("--integration-only");
    assert!(c.run_integration_tests && !c.run_qemu_tests);
    c.apply_arg("--no-integration");
    c.apply_arg("--no-performance");
    assert!(!c.run_integration_tests && !c.run_performance_tests);
}
