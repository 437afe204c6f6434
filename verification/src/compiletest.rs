//! How the snapshot test harness is set up for a directory of tests: which
//! program runs, with which flags and environment, and what is expected of
//! each test's exit status.
use vstd::prelude::*;
use vstd::std_specs::convert::FromSpecImpl;
use vstd::string::StringExecFns;
use crate::text::{join, joined, views};

verus! {

/// What is expected of each test's exit status.
#[derive(Clone, Copy, Debug, PartialEq, Eq, Structural)]
pub enum Mode {
    /// The test passes a full execution of the compiler driver.
    Pass,
    /// The test produces a binary that runs on the host.
    Run,
    /// The compiler driver panicked.
    Panic,
    /// The compiler driver emitted an error.
    Fail,
    /// The test passes as long as its annotations and output files match.
    Yolo,
    /// The test passes a full execution of `cargo build`.
    CargoPass,
}

/// The command line of the harness.
#[derive(Debug)]
pub struct Args {
    /// The path where all tests are.
    pub src_base: String,
    /// What is expected of each test.
    pub mode: Mode,
    /// The path of the driver under test.
    pub driver_path: String,
    /// The path where output is stored.
    pub output_dir: String,
    pub verbose: bool,
    /// Run the driver in verbose mode to print what the tests put out.
    pub no_capture: bool,
}

/// When the harness applies suggested fixes to a test.
#[derive(Clone, Copy, Debug, PartialEq, Eq, Structural)]
pub enum RustfixMode {
    Disabled,
    MachineApplicable,
    Everything,
}

/// The harness's own notion of what is expected of a test.
#[derive(Clone, Copy, Debug, PartialEq, Eq, Structural)]
pub enum HarnessMode {
    Pass,
    Run { exit_code: i32 },
    Panic,
    Fail { require_patterns: bool, rustfix: RustfixMode },
    Yolo { rustfix: RustfixMode },
}

/// What the harness is told for each mode: a cargo build is expected to pass
/// like a driver run; a binary is expected to exit with 0; a failing test
/// needs no error patterns; fixes are never applied.
pub open spec fn harness_mode(mode: Mode) -> HarnessMode {
    match mode {
        Mode::Pass | Mode::CargoPass => HarnessMode::Pass,
        Mode::Run => HarnessMode::Run { exit_code: 0 },
        Mode::Panic => HarnessMode::Panic,
        Mode::Fail => HarnessMode::Fail { require_patterns: false, rustfix: RustfixMode::Disabled },
        Mode::Yolo => HarnessMode::Yolo { rustfix: RustfixMode::Disabled },
    }
}

impl From<Mode> for HarnessMode {
    fn from(mode: Mode) -> (r: HarnessMode) {
        match mode {
            Mode::Pass | Mode::CargoPass => HarnessMode::Pass,
            Mode::Run => HarnessMode::Run { exit_code: 0 },
            Mode::Panic => HarnessMode::Panic,
            Mode::Fail => HarnessMode::Fail {
                require_patterns: false,
                rustfix: RustfixMode::Disabled,
            },
            Mode::Yolo => HarnessMode::Yolo { rustfix: RustfixMode::Disabled },
        }
    }
}

impl FromSpecImpl<Mode> for HarnessMode {
    open spec fn obeys_from_spec() -> bool {
        true
    }

    open spec fn from_spec(mode: Mode) -> HarnessMode {
        harness_mode(mode)
    }
}

/// Which program the harness runs on each test.
#[derive(Clone, Copy, Debug, PartialEq, Eq, Structural)]
pub enum Runner {
    /// `cargo`, which in turn runs the driver in place of the compiler.
    Cargo,
    /// The driver itself, in place of the compiler.
    Driver,
}

/// A variable of the environment in which the program runs.
#[derive(Debug, PartialEq, Eq)]
pub struct EnvVar {
    pub name: String,
    pub value: String,
}

/// The setup of the harness, as plain values.
#[derive(Debug)]
pub struct HarnessConfig {
    pub runner: Runner,
    /// The directory of the tests.
    pub root_dir: String,
    /// The program to run in place of the runner's default, if any.
    pub program: Option<String>,
    /// The arguments of the program, if they replace the runner's default.
    pub program_args: Option<Vec<String>>,
    /// Variables added to the program's environment.
    pub envs: Vec<EnvVar>,
    /// A pattern whose matches are cut from the output before it is compared.
    pub filtered: Option<String>,
    pub mode: HarnessMode,
    /// The command shown to the user when output differs from what is stored.
    pub on_conflict: Option<String>,
    /// The directory of the output; `None` for the runner's default.
    pub out_dir: Option<String>,
}

/// The flags that the driver gets: the request to run the checks, and the
/// request to be verbose when the harness is verbose or does not capture.
pub open spec fn flags_of(verbose: bool, no_capture: bool) -> Seq<Seq<char>> {
    if verbose || no_capture {
        seq!["--check-smir"@, "--verbose"@]
    } else {
        seq!["--check-smir"@]
    }
}

/// The flags that the driver gets.
pub fn rustc_flags(args: &Args) -> (flags: Vec<String>)
    ensures
        views(flags@) == flags_of(args.verbose, args.no_capture),
{
    let mut flags: Vec<String> = Vec::new();
    flags.push(String::from_str("--check-smir"));
    if args.verbose || args.no_capture {
        flags.push(String::from_str("--verbose"));
    }
    assert(views(flags@) =~= flags_of(args.verbose, args.no_capture));
    flags
}

/// The mathematical values of a list of environment variables.
pub open spec fn env_views(envs: Seq<EnvVar>) -> Seq<(Seq<char>, Seq<char>)> {
    Seq::new(envs.len(), |i: int| (envs[i].name@, envs[i].value@))
}

/// Sets up tests that run `cargo`, which runs the driver in place of the
/// compiler: `RUST` names the driver, and `CARGO_ENCODED_RUSTFLAGS` holds the
/// driver's flags with the unit separator between them. Until a mode is
/// chosen, a test is expected to fail with error patterns, and no fixes are
/// applied, as the harness does for cargo.
pub fn cargo_config(args: &Args) -> (config: HarnessConfig)
    ensures
        config.runner == Runner::Cargo,
        config.root_dir@ == args.src_base@,
        config.program is None,
        config.program_args is None,
        env_views(config.envs@) == seq![
            ("RUST"@, args.driver_path@),
            (
                "CARGO_ENCODED_RUSTFLAGS"@,
                joined(flags_of(args.verbose, args.no_capture), "\x1f"@),
            ),
        ],
        config.filtered is None,
        config.mode == (HarnessMode::Fail {
            require_patterns: true,
            rustfix: RustfixMode::Disabled,
        }),
        config.on_conflict is None,
        config.out_dir is None,
{
    let mut envs: Vec<EnvVar> = Vec::new();
    envs.push(EnvVar { name: String::from_str("RUST"), value: args.driver_path.clone() });
    envs.push(
        EnvVar {
            name: String::from_str("CARGO_ENCODED_RUSTFLAGS"),
            value: join(&rustc_flags(args), "\x1f"),
        },
    );
    assert(env_views(envs@) =~= seq![
        ("RUST"@, args.driver_path@),
        ("CARGO_ENCODED_RUSTFLAGS"@, joined(flags_of(args.verbose, args.no_capture), "\x1f"@)),
    ]);
    HarnessConfig {
        runner: Runner::Cargo,
        root_dir: args.src_base.clone(),
        program: None,
        program_args: None,
        envs,
        filtered: None,
        mode: HarnessMode::Fail { require_patterns: true, rustfix: RustfixMode::Disabled },
        on_conflict: None,
        out_dir: None,
    }
}

/// Sets up tests that run the driver directly in place of the compiler, with
/// the driver's flags as its arguments. Until a mode is chosen, a test is
/// expected to fail with error patterns, and fixes that the compiler marks
/// as safe to apply are applied, as the harness does for the compiler.
pub fn driver_config(args: &Args) -> (config: HarnessConfig)
    ensures
        config.runner == Runner::Driver,
        config.root_dir@ == args.src_base@,
        config.program is Some && config.program->0@ == args.driver_path@,
        config.program_args is Some && views(config.program_args->0@) == flags_of(
            args.verbose,
            args.no_capture,
        ),
        config.envs@.len() == 0,
        config.filtered is None,
        config.mode == (HarnessMode::Fail {
            require_patterns: true,
            rustfix: RustfixMode::MachineApplicable,
        }),
        config.on_conflict is None,
        config.out_dir is None,
{
    HarnessConfig {
        runner: Runner::Driver,
        root_dir: args.src_base.clone(),
        program: Some(args.driver_path.clone()),
        program_args: Some(rustc_flags(args)),
        envs: Vec::new(),
        filtered: None,
        mode: HarnessMode::Fail { require_patterns: true, rustfix: RustfixMode::MachineApplicable },
        on_conflict: None,
        out_dir: None,
    }
}

/// The pattern of the lines that the driver tags as its own.
pub open spec fn tagged_lines() -> Seq<char> {
    "\\[T-DRIVE\\].*\\n"@
}

/// The whole setup for a command line: the cargo setup for `CargoPass` and the
/// driver setup for every other mode; the driver's own lines cut from the
/// output; the mode as the harness knows it; differing output an error; output
/// in the directory that the command line names.
pub fn config(args: &Args) -> (config: HarnessConfig)
    ensures
        config.runner == if args.mode == Mode::CargoPass {
            Runner::Cargo
        } else {
            Runner::Driver
        },
        config.root_dir@ == args.src_base@,
        args.mode == Mode::CargoPass ==> config.program is None && config.program_args is None
            && env_views(config.envs@) == seq![
            ("RUST"@, args.driver_path@),
            (
                "CARGO_ENCODED_RUSTFLAGS"@,
                joined(flags_of(args.verbose, args.no_capture), "\x1f"@),
            ),
        ],
        args.mode != Mode::CargoPass ==> config.program is Some && config.program->0@
            == args.driver_path@ && config.program_args is Some && views(config.program_args->0@)
            == flags_of(args.verbose, args.no_capture) && config.envs@.len() == 0,
        config.filtered is Some && config.filtered->0@ == tagged_lines(),
        config.mode == harness_mode(args.mode),
        config.on_conflict is Some && config.on_conflict->0@ == "Should Fail"@,
        config.out_dir is Some && config.out_dir->0@ == args.output_dir@,
{
    let mut config = match args.mode {
        Mode::CargoPass => cargo_config(args),
        _ => driver_config(args),
    };
    config.filtered = Some(String::from_str("\\[T-DRIVE\\].*\\n"));
    config.mode = HarnessMode::from(args.mode);
    config.on_conflict = Some(String::from_str("Should Fail"));
    config.out_dir = Some(args.output_dir.clone());
    config
}

} // verus!
