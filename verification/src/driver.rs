//! One run of the checks: the command line of the tool, the named checks in
//! order, and the tally.
//!
//! A check that crashes is one failed check; the checks after it still run
//! and count.
use vstd::prelude::*;
use vstd::string::{StrSliceExecFns, StringExecFns};
use crate::program::Program;
use crate::sanity_checks::{
    crates_fault, entry_fault, instances_fault, items_fault, test_all_fns, test_crates,
    test_entry_fn, test_instances, test_traits, traits_fault, TestResult,
};
use crate::text::{count_string, decimal, views};

verus! {

/// Whether `s` starts with `prefix`.
pub fn starts_with(s: &str, prefix: &str) -> (r: bool)
    ensures
        r == prefix@.is_prefix_of(s@),
{
    let n = prefix.unicode_len();
    if s.unicode_len() < n {
        return false;
    }
    let mut i: usize = 0;
    while i < n
        invariant
            i <= n,
            n == prefix@.len(),
            n <= s@.len(),
            forall|j: int| 0 <= j < i ==> s@[j] == prefix@[j],
        decreases n - i,
    {
        if s.get_char(i) != prefix.get_char(i) {
            assert(s@.subrange(0, n as int)[i as int] != prefix@[i as int]);
            return false;
        }
        i += 1;
    }
    assert(prefix@ =~= s@.subrange(0, n as int));
    true
}

/// The argument is addressed to this tool and not to the compiler.
pub open spec fn for_tool(arg: Seq<char>) -> bool {
    "--smir"@.is_prefix_of(arg)
}

/// The arguments that are addressed to this tool (`tool`), or those that are
/// not, in their order.
pub open spec fn selected(args: Seq<Seq<char>>, tool: bool) -> Seq<Seq<char>>
    decreases args.len(),
{
    if args.len() == 0 {
        Seq::empty()
    } else if for_tool(args.last()) == tool {
        selected(args.drop_last(), tool).push(args.last())
    } else {
        selected(args.drop_last(), tool)
    }
}

/// Splits a command line into the arguments of this tool, which start with
/// `--smir`, and the arguments of the compiler. Both keep their order.
pub fn split_args(args: &Vec<String>) -> (parts: (Vec<String>, Vec<String>))
    ensures
        views(parts.0@) == selected(views(args@), true),
        views(parts.1@) == selected(views(args@), false),
{
    let mut own: Vec<String> = Vec::new();
    let mut rest: Vec<String> = Vec::new();
    let mut i: usize = 0;
    while i < args.len()
        invariant
            i <= args.len(),
            views(own@) == selected(views(args@).subrange(0, i as int), true),
            views(rest@) == selected(views(args@).subrange(0, i as int), false),
        decreases args.len() - i,
    {
        let ghost own_before = own@;
        let ghost rest_before = rest@;
        let ghost next = views(args@).subrange(0, i + 1);
        assert(next.drop_last() =~= views(args@).subrange(0, i as int));
        assert(next.last() == args@[i as int]@);
        if starts_with(args[i].as_str(), "--smir") {
            own.push(args[i].clone());
            assert(views(own@) =~= views(own_before).push(args@[i as int]@));
        } else {
            rest.push(args[i].clone());
            assert(views(rest@) =~= views(rest_before).push(args@[i as int]@));
        }
        i += 1;
    }
    assert(views(args@).subrange(0, i as int) =~= views(args@));
    (own, rest)
}

/// Whether the two texts are the same.
pub fn same_text(a: &str, b: &str) -> (r: bool)
    ensures
        r == (a@ == b@),
{
    if a.unicode_len() != b.unicode_len() {
        return false;
    }
    let r = starts_with(a, b);
    assert(b@.is_prefix_of(a@) <==> a@ =~= b@);
    r
}

/// Whether the flag is among the arguments.
pub fn holds_arg(args: &Vec<String>, flag: &str) -> (r: bool)
    ensures
        r == views(args@).contains(flag@),
{
    let mut i: usize = 0;
    while i < args.len()
        invariant
            i <= args.len(),
            forall|j: int| 0 <= j < i ==> views(args@)[j] != flag@,
        decreases args.len() - i,
    {
        if same_text(args[i].as_str(), flag) {
            assert(views(args@)[i as int] == flag@);
            return true;
        }
        i += 1;
    }
    false
}

/// What the tool was asked to do.
#[derive(Clone, Copy, Debug, PartialEq, Eq, Structural)]
pub struct Settings {
    /// Run the checks (`--smir-check`); without it the tool only compiles.
    pub check: bool,
    /// Report every check, not only the failed ones (`--smir-verbose`).
    pub verbose: bool,
    /// Also run the checks that are known to fail (`--smir-fixme`).
    pub fixme: bool,
}

/// Reads the settings from the arguments of this tool. Without
/// `--smir-check` nothing else is looked at.
pub fn settings(own_args: &Vec<String>) -> (s: Settings)
    ensures
        s.check == views(own_args@).contains("--smir-check"@),
        s.verbose == (s.check && views(own_args@).contains("--smir-verbose"@)),
        s.fixme == (s.check && views(own_args@).contains("--smir-fixme"@)),
{
    if holds_arg(own_args, "--smir-check") {
        Settings {
            check: true,
            verbose: holds_arg(own_args, "--smir-verbose"),
            fixme: holds_arg(own_args, "--smir-fixme"),
        }
    } else {
        Settings { check: false, verbose: false, fixme: false }
    }
}

/// A line of output for verbose runs: the message behind the tool's tag, or
/// nothing when the run is not verbose.
pub fn info(verbose: bool, msg: String) -> (line: Option<String>)
    ensures
        match line {
            Some(text) => verbose && text@ == "[T-DRIVE] "@ + msg@,
            None => !verbose,
        },
{
    if verbose {
        let mut s = String::from_str("[T-DRIVE] ");
        s.append(msg.as_str());
        Some(s)
    } else {
        None
    }
}

/// How running one named check ended.
#[derive(Debug)]
pub enum CheckOutcome {
    /// The check ran to its end and returned this result.
    Finished(TestResult),
    /// The check crashed.
    Crashed,
}

/// One check by name, and how running it ended.
#[derive(Debug)]
pub struct NamedOutcome {
    pub name: String,
    pub outcome: CheckOutcome,
}

/// The description of what is wrong, if the result is a failure.
pub open spec fn fault(result: TestResult) -> Option<Seq<char>> {
    match result {
        Ok(_) => None,
        Err(m) => Some(m@),
    }
}

/// The fault that an outcome counts as: that of its result, or `Panic!` for a
/// crash.
pub open spec fn fault_of(outcome: CheckOutcome) -> Option<Seq<char>> {
    match outcome {
        CheckOutcome::Finished(result) => fault(result),
        CheckOutcome::Crashed => Some("Panic!"@),
    }
}

/// The line that reports one check: a failure always, a success only in a
/// verbose run.
pub open spec fn check_line(name: Seq<char>, fault: Option<Seq<char>>, verbose: bool) -> Option<
    Seq<char>,
> {
    match fault {
        Some(msg) => Some("Test "@ + name + ": Failed:\n    - "@ + msg),
        None => if verbose {
            Some("[T-DRIVE] "@ + ("Test "@ + name + ": Ok"@))
        } else {
            None
        },
    }
}

/// Turns the outcome of one named check into its result and the line that
/// reports it. A crash becomes the failure `Panic!`.
pub fn run_test(name: &str, outcome: &CheckOutcome, verbose: bool) -> (out: (
    TestResult,
    Option<String>,
))
    ensures
        fault(out.0) == fault_of(*outcome),
        match out.1 {
            Some(line) => check_line(name@, fault_of(*outcome), verbose) == Some(line@),
            None => check_line(name@, fault_of(*outcome), verbose) is None,
        },
{
    let result: TestResult = match outcome {
        CheckOutcome::Crashed => Err(String::from_str("Panic!")),
        CheckOutcome::Finished(Ok(_)) => Ok(()),
        CheckOutcome::Finished(Err(msg)) => Err(msg.clone()),
    };
    let line = match &result {
        Err(msg) => {
            let mut s = String::from_str("Test ");
            s.append(name);
            s.append(": Failed:\n    - ");
            s.append(msg.as_str());
            Some(s)
        },
        Ok(_) => {
            let mut s = String::from_str("Test ");
            s.append(name);
            s.append(": Ok");
            info(verbose, s)
        },
    };
    (result, line)
}

/// Mathematical value of a check that ran: its name and what it found wrong.
pub struct Ran {
    pub name: Seq<char>,
    pub fault: Option<Seq<char>>,
}

/// The mathematical values of a list of named outcomes.
pub open spec fn ran(checks: Seq<NamedOutcome>) -> Seq<Ran> {
    Seq::new(
        checks.len(),
        |i: int| Ran { name: checks[i].name@, fault: fault_of(checks[i].outcome) },
    )
}

/// The number of checks before position `upto` that found no fault.
pub open spec fn successes(checks: Seq<Ran>, upto: int) -> nat
    decreases upto,
{
    if upto <= 0 {
        0
    } else if checks[upto - 1].fault is None {
        successes(checks, upto - 1) + 1
    } else {
        successes(checks, upto - 1)
    }
}

/// The lines that report the checks before position `upto`, in order.
pub open spec fn check_lines(checks: Seq<Ran>, verbose: bool, upto: int) -> Seq<Seq<char>>
    decreases upto,
{
    if upto <= 0 {
        Seq::empty()
    } else {
        match check_line(checks[upto - 1].name, checks[upto - 1].fault, verbose) {
            Some(line) => check_lines(checks, verbose, upto - 1).push(line),
            None => check_lines(checks, verbose, upto - 1),
        }
    }
}

/// Everything that a run prints: the lines of its checks and, in a verbose
/// run, the tally.
pub open spec fn run_lines(checks: Seq<Ran>, verbose: bool) -> Seq<Seq<char>> {
    let lines = check_lines(checks, verbose, checks.len() as int);
    let succeeded = successes(checks, checks.len() as int);
    if verbose {
        lines.push(tally_line(checks.len(), succeeded, (checks.len() - succeeded) as nat))
    } else {
        lines
    }
}

/// The closing line of a verbose run.
pub open spec fn tally_line(total: nat, succeeded: nat, failed: nat) -> Seq<char> {
    "[T-DRIVE] "@ + ("Ran "@ + decimal(total) + " tests. "@ + decimal(succeeded) + " succeeded. "@
        + decimal(failed) + " failed"@)
}

/// The account of one run: the result of each check in order, the lines to
/// print, and the tally.
#[derive(Debug)]
pub struct Report {
    pub results: Vec<TestResult>,
    pub lines: Vec<String>,
    pub succeeded: usize,
    pub failed: usize,
}

impl Report {
    /// The number of checks that ran.
    pub fn total(&self) -> (n: usize)
        ensures
            n == self.results@.len(),
    {
        self.results.len()
    }

    /// A run passes when no check failed.
    pub fn passed(&self) -> (r: bool)
        ensures
            r == (self.failed == 0),
    {
        self.failed == 0
    }
}

/// Accounts for a run of named checks: every outcome becomes one result, a
/// crash the failure `Panic!`; successes and failures are counted; the lines
/// report each failure, in a verbose run each success too, and then the tally.
pub fn summarize(checks: &Vec<NamedOutcome>, verbose: bool) -> (report: Report)
    ensures
        report.results@.len() == checks@.len(),
        forall|i: int|
            0 <= i < checks@.len() ==> fault(#[trigger] report.results@[i]) == fault_of(
                checks@[i].outcome,
            ),
        report.succeeded == successes(ran(checks@), checks@.len() as int),
        report.succeeded + report.failed == checks@.len(),
        views(report.lines@) == run_lines(ran(checks@), verbose),
{
    let mut results: Vec<TestResult> = Vec::new();
    let mut lines: Vec<String> = Vec::new();
    let mut succeeded: usize = 0;
    let mut i: usize = 0;
    while i < checks.len()
        invariant
            i <= checks.len(),
            results@.len() == i,
            forall|j: int|
                0 <= j < i ==> fault(#[trigger] results@[j]) == fault_of(checks@[j].outcome),
            succeeded == successes(ran(checks@), i as int),
            succeeded <= i,
            views(lines@) == check_lines(ran(checks@), verbose, i as int),
        decreases checks.len() - i,
    {
        let (result, line) = run_test(checks[i].name.as_str(), &checks[i].outcome, verbose);
        if result.is_ok() {
            succeeded += 1;
        }
        results.push(result);
        let ghost lines_before = lines@;
        match line {
            Some(text) => {
                lines.push(text);
                assert(views(lines@) =~= views(lines_before).push(text@));
            },
            None => {},
        }
        i += 1;
    }
    let failed = checks.len() - succeeded;
    let ghost lines_before = lines@;
    let mut s = String::from_str("Ran ");
    s.append(count_string(checks.len()).as_str());
    s.append(" tests. ");
    s.append(count_string(succeeded).as_str());
    s.append(" succeeded. ");
    s.append(count_string(failed).as_str());
    s.append(" failed");
    match info(verbose, s) {
        Some(text) => {
            lines.push(text);
            assert(views(lines@) =~= views(lines_before).push(text@));
        },
        None => {},
    }
    Report { results, lines, succeeded, failed }
}

/// The checks of one run, by name, with what each finds wrong in the program:
/// the entry point, the bodies of all items, the crates, the discovered
/// instances, and with `fixme` the traits.
pub open spec fn planned(program: Program, fixme: bool) -> Seq<Ran> {
    let always = seq![
        Ran { name: "sanity_checks::test_entry_fn"@, fault: entry_fault(program) },
        Ran { name: "sanity_checks::test_all_fns"@, fault: items_fault(program) },
        Ran { name: "sanity_checks::test_crates"@, fault: crates_fault(program) },
        Ran { name: "sanity_checks::test_instances"@, fault: instances_fault(program) },
    ];
    if fixme {
        always.push(Ran { name: "sanity_checks::test_traits"@, fault: traits_fault(program) })
    } else {
        always
    }
}

/// The report accounts for every planned check on the program: one result
/// each, in order, the tally, and the lines to print.
pub open spec fn reports(program: Program, asked: Settings, report: Report) -> bool {
    let checks = planned(program, asked.fixme);
    &&& report.results@.len() == checks.len()
    &&& forall|i: int|
        0 <= i < checks.len() ==> fault(#[trigger] report.results@[i]) == checks[i].fault
    &&& report.succeeded == successes(checks, checks.len() as int)
    &&& report.succeeded + report.failed == checks.len()
    &&& views(report.lines@) == run_lines(checks, asked.verbose)
}

/// Runs every check on the program and accounts for the run. The checks that
/// are known to fail run only when the settings ask for them. A failed check
/// does not keep the checks after it from running.
pub fn test_stable_mir(program: &Program, asked: Settings) -> (report: Report)
    ensures
        reports(*program, asked, report),
{
    let fixme = asked.fixme;
    let mut checks: Vec<NamedOutcome> = Vec::new();
    checks.push(
        NamedOutcome {
            name: String::from_str("sanity_checks::test_entry_fn"),
            outcome: CheckOutcome::Finished(test_entry_fn(program)),
        },
    );
    checks.push(
        NamedOutcome {
            name: String::from_str("sanity_checks::test_all_fns"),
            outcome: CheckOutcome::Finished(test_all_fns(program)),
        },
    );
    checks.push(
        NamedOutcome {
            name: String::from_str("sanity_checks::test_crates"),
            outcome: CheckOutcome::Finished(test_crates(program)),
        },
    );
    checks.push(
        NamedOutcome {
            name: String::from_str("sanity_checks::test_instances"),
            outcome: CheckOutcome::Finished(test_instances(program)),
        },
    );
    if fixme {
        checks.push(
            NamedOutcome {
                name: String::from_str("sanity_checks::test_traits"),
                outcome: CheckOutcome::Finished(test_traits(program)),
            },
        );
    }
    assert(ran(checks@) =~= planned(*program, fixme));
    summarize(&checks, asked.verbose)
}

/// Why a run ends before anything is checked or analysed: the program cannot
/// serve as what the run starts from.
#[derive(Clone, Copy, Debug, PartialEq, Eq, Structural)]
pub enum FatalSetupError {
    /// The instance table holds a definition with the same type arguments
    /// twice, so an instance is not known by what it stands for.
    RepeatedInstance,
    /// The program has no entry point.
    MissingEntryPoint,
    /// The entry point is no function, or has no instance without type
    /// arguments.
    EntryWithoutInstance,
    /// The instance of the entry point has no body.
    EntryWithoutBody,
}

/// One whole run as the settings ask for it. Without the request to check,
/// nothing runs and there is no report. A program whose instance table is not
/// well-formed ends the run before any check; otherwise every check runs and
/// the report accounts for all of them.
pub fn run(program: &Program, asked: Settings) -> (res: Result<Option<Report>, FatalSetupError>)
    ensures
        match res {
            Ok(None) => !asked.check,
            Ok(Some(report)) => asked.check && program.well_formed() && reports(
                *program,
                asked,
                report,
            ),
            Err(e) => asked.check && !program.well_formed() && e
                == FatalSetupError::RepeatedInstance,
        },
{
    if !asked.check {
        Ok(None)
    } else if !program.is_well_formed() {
        Err(FatalSetupError::RepeatedInstance)
    } else {
        Ok(Some(test_stable_mir(program, asked)))
    }
}

/// How the compiler's run around the checks ended.
#[derive(Clone, Copy, Debug, PartialEq, Eq, Structural)]
pub enum CompilerOutcome {
    /// The compiler ran to its end; the checks, if any ran, all passed.
    Completed,
    /// The compiler could not produce a program to inspect, so no check ran.
    Failed,
    /// The run was stopped from inside: some check failed.
    Interrupted,
    /// The compiler had nothing to compile.
    Skipped,
}

/// Whether the driver leaves with success: the compiler ran to its end or had
/// nothing to compile. A program that could not be produced and a failed
/// check both make the run fail.
pub fn succeeded(outcome: CompilerOutcome) -> (r: bool)
    ensures
        r == (outcome == CompilerOutcome::Completed || outcome == CompilerOutcome::Skipped),
{
    match outcome {
        CompilerOutcome::Completed | CompilerOutcome::Skipped => true,
        CompilerOutcome::Failed | CompilerOutcome::Interrupted => false,
    }
}

} // verus!
