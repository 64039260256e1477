//! Options of the test runner: which suites run, and how command-line
//! arguments change them.

use vstd::prelude::*;
use crate::text::{starts_with, str_eq};

verus! {

/// Which test suites run and how.
#[derive(Debug, Clone, Copy)]
pub struct TestConfig {
    pub run_unit_tests: bool,
    pub run_integration_tests: bool,
    pub run_performance_tests: bool,
    pub run_qemu_tests: bool,
    pub parallel_execution: bool,
    pub generate_reports: bool,
    pub verbose: bool,
}

/// Every suite but the virtual-machine one, in parallel, with reports, quietly.
pub open spec fn default_config() -> TestConfig {
    TestConfig {
        run_unit_tests: true,
        run_integration_tests: true,
        run_performance_tests: true,
        run_qemu_tests: false,
        parallel_execution: true,
        generate_reports: true,
        verbose: false,
    }
}

impl Default for TestConfig {
    fn default() -> (r: Self)
        ensures
            r == default_config(),
    {
        TestConfig {
            run_unit_tests: true,
            run_integration_tests: true,
            run_performance_tests: true,
            run_qemu_tests: false,
            parallel_execution: true,
            generate_reports: true,
            verbose: false,
        }
    }
}

/// What an argument asks of the runner beyond changing its options.
#[derive(Debug, Clone, Copy, PartialEq, Eq, Structural)]
pub enum ArgAction {
    /// Go on with the next argument.
    Continue,
    /// Show the usage and stop successfully.
    ShowHelp,
    /// An option that is not known: show the usage and stop with a failure.
    UnknownOption,
}

/// The suites selected: unit, integration, performance, virtual machine.
pub open spec fn only(c: TestConfig, unit: bool, integration: bool, performance: bool, qemu: bool) -> TestConfig {
    TestConfig {
        run_unit_tests: unit,
        run_integration_tests: integration,
        run_performance_tests: performance,
        run_qemu_tests: qemu,
        ..c
    }
}

/// The options after one argument, and what the argument asks. Arguments
/// that do not start with two dashes are ignored.
pub open spec fn arg_effect(c: TestConfig, a: Seq<char>) -> (TestConfig, ArgAction) {
    if a == "--unit-only"@ {
        (only(c, true, false, false, false), ArgAction::Continue)
    } else if a == "--integration-only"@ {
        (only(c, false, true, false, false), ArgAction::Continue)
    } else if a == "--performance-only"@ {
        (only(c, false, false, true, false), ArgAction::Continue)
    } else if a == "--qemu-only"@ {
        (only(c, false, false, false, true), ArgAction::Continue)
    } else if a == "--no-unit"@ {
        (TestConfig { run_unit_tests: false, ..c }, ArgAction::Continue)
    } else if a == "--no-integration"@ {
        (TestConfig { run_integration_tests: false, ..c }, ArgAction::Continue)
    } else if a == "--no-performance"@ {
        (TestConfig { run_performance_tests: false, ..c }, ArgAction::Continue)
    } else if a == "--with-qemu"@ {
        (TestConfig { run_qemu_tests: true, ..c }, ArgAction::Continue)
    } else if a == "--no-parallel"@ {
        (TestConfig { parallel_execution: false, ..c }, ArgAction::Continue)
    } else if a == "--no-reports"@ {
        (TestConfig { generate_reports: false, ..c }, ArgAction::Continue)
    } else if a == "--verbose"@ || a == "-v"@ {
        (TestConfig { verbose: true, ..c }, ArgAction::Continue)
    } else if a == "--help"@ || a == "-h"@ {
        (c, ArgAction::ShowHelp)
    } else if "--"@.is_prefix_of(a) {
        (c, ArgAction::UnknownOption)
    } else {
        (c, ArgAction::Continue)
    }
}

/// The options after the arguments from `i` on, stopping at the first that
/// asks for more than going on.
pub open spec fn args_effect(c: TestConfig, args: Seq<Seq<char>>, i: int) -> (TestConfig, ArgAction)
    decreases args.len() - i,
{
    if i < 0 || i >= args.len() {
        (c, ArgAction::Continue)
    } else {
        let (c2, act) = arg_effect(c, args[i]);
        if act == ArgAction::Continue {
            args_effect(c2, args, i + 1)
        } else {
            (c2, act)
        }
    }
}

impl TestConfig {
    /// Apply one command-line argument.
    pub fn apply_arg(&mut self, arg: &str) -> (r: ArgAction)
        ensures
            (*final(self), r) == arg_effect(*old(self), arg@),
    {
        if str_eq(arg, "--unit-only") {
            self.run_unit_tests = true;
            self.run_integration_tests = false;
            self.run_performance_tests = false;
            self.run_qemu_tests = false;
        } else if str_eq(arg, "--integration-only") {
            self.run_unit_tests = false;
            self.run_integration_tests = true;
            self.run_performance_tests = false;
            self.run_qemu_tests = false;
        } else if str_eq(arg, "--performance-only") {
            self.run_unit_tests = false;
            self.run_integration_tests = false;
            self.run_performance_tests = true;
            self.run_qemu_tests = false;
        } else if str_eq(arg, "--qemu-only") {
            self.run_unit_tests = false;
            self.run_integration_tests = false;
            self.run_performance_tests = false;
            self.run_qemu_tests = true;
        } else if str_eq(arg, "--no-unit") {
            self.run_unit_tests = false;
        } else if str_eq(arg, "--no-integration") {
            self.run_integration_tests = false;
        } else if str_eq(arg, "--no-performance") {
            self.run_performance_tests = false;
        } else if str_eq(arg, "--with-qemu") {
            self.run_qemu_tests = true;
        } else if str_eq(arg, "--no-parallel") {
            self.parallel_execution = false;
        } else if str_eq(arg, "--no-reports") {
            self.generate_reports = false;
        } else if str_eq(arg, "--verbose") || str_eq(arg, "-v") {
            self.verbose = true;
        } else if str_eq(arg, "--help") || str_eq(arg, "-h") {
            return ArgAction::ShowHelp;
        } else if starts_with(arg, "--") {
            return ArgAction::UnknownOption;
        }
        ArgAction::Continue
    }
}

/// Where reading a command line from word `i` on stops: at the first word
/// that asks for help or is an unknown option, else after the last word.
pub open spec fn args_stop(c: TestConfig, args: Seq<Seq<char>>, i: int) -> int
    decreases args.len() - i,
{
    if i < 0 || i >= args.len() {
        args.len() as int
    } else {
        let (c2, act) = arg_effect(c, args[i]);
        if act == ArgAction::Continue {
            args_stop(c2, args, i + 1)
        } else {
            i
        }
    }
}

/// The options given by a command line whose first word is the program's
/// name, what stopped the reading of it, if anything, and the position of
/// the word that stopped it (the number of words when nothing did).
pub fn parse_args(args: &Vec<String>) -> (r: (TestConfig, ArgAction, usize))
    ensures
        (r.0, r.1) == args_effect(default_config(), args@.map_values(|s: String| s@), 1),
        r.2 as int == args_stop(default_config(), args@.map_values(|s: String| s@), 1),
{
    let ghost words = args@.map_values(|s: String| s@);
    let mut config = TestConfig::default();
    let mut i: usize = 1;
    if args.len() == 0 {
        return (config, ArgAction::Continue, 0);
    }
    while i < args.len()
        invariant
            words == args@.map_values(|s: String| s@),
            1 <= i <= args@.len(),
            args_effect(config, words, i as int) == args_effect(default_config(), words, 1),
            args_stop(config, words, i as int) == args_stop(default_config(), words, 1),
        decreases args.len() - i,
    {
        let act = config.apply_arg(args[i].as_str());
        if act != ArgAction::Continue {
            return (config, act, i);
        }
        i += 1;
    }
    (config, ArgAction::Continue, args.len())
}

/// Reading stops at a request for help, whatever the options read before.
pub proof fn lemma_help_stops_reading(c: TestConfig, args: Seq<Seq<char>>, i: int)
    requires
        0 <= i < args.len(),
        args[i] == "--help"@,
    ensures
        args_effect(c, args, i) == (c, ArgAction::ShowHelp),
{
    reveal_strlit("--help");
    reveal_strlit("--unit-only");
    reveal_strlit("--integration-only");
    reveal_strlit("--performance-only");
    reveal_strlit("--qemu-only");
    reveal_strlit("--no-unit");
    reveal_strlit("--no-integration");
    reveal_strlit("--no-performance");
    reveal_strlit("--with-qemu");
    reveal_strlit("--no-parallel");
    reveal_strlit("--no-reports");
    reveal_strlit("--verbose");
    reveal_strlit("-v");
    let a = args[i];
    assert(a.len() == 6);
    assert(a != "--unit-only"@);
    assert(a != "--integration-only"@);
    assert(a != "--performance-only"@);
    assert(a != "--qemu-only"@);
    assert(a != "--no-unit"@);
    assert(a != "--no-integration"@);
    assert(a != "--no-performance"@);
    assert(a != "--with-qemu"@);
    assert(a != "--no-parallel"@);
    assert(a != "--no-reports"@);
    assert(a != "--verbose"@);
    assert(a != "-v"@);
    assert(arg_effect(c, a) == (c, ArgAction::ShowHelp));
}

} // verus!
