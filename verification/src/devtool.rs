//! The developer tool: what each of its commands runs, with which arguments
//! and environment, and how it reads what the programs it runs print.
//!
//! Nothing here runs a program or touches a file; the functions say what is to
//! be run and decide on what was found.
use vstd::prelude::*;
use vstd::string::{StrSliceExecFns, StringExecFns};
use crate::compiletest::{env_views, EnvVar};
use crate::text::views;

verus! {

#[derive(Debug)]
pub enum Command {
    /// Build the library itself.
    Build { flags: Vec<String> },
    /// Run the test suites.
    Test { bless: bool, verbose: bool, flags: Vec<String> },
    /// Clean out build directories.
    Clean { flags: Vec<String> },
    /// Run the formatter.
    Fmt { check: bool, flags: Vec<String> },
    /// Bump the minimum supported toolchain version to the nightly of `date`.
    MSRV { date: String },
    /// Install or remove the git hook that checks formatting before a push.
    Githook { command: GithookCommand },
}

#[derive(Clone, Copy, Debug, PartialEq, Eq, Structural)]
pub enum GithookCommand {
    /// Install `pre-push.sh` as `.git/hooks/pre-push`.
    Install,
    /// Remove `.git/hooks/pre-push`.
    Uninstall,
}

#[derive(Debug)]
pub struct Cli {
    pub command: Command,
}

/// One thing that a command does.
#[derive(Debug)]
pub enum Step {
    Build { crate_dir: String, flags: Vec<String> },
    Test { bless: bool, verbose: bool, flags: Vec<String> },
    Clean { flags: Vec<String> },
    Fmt { check: bool, crate_dir: String, flags: Vec<String> },
    BumpMsrv { date: String },
    InstallHook,
    UninstallHook,
}

/// Mathematical value of a [`Step`].
pub enum StepView {
    Build { crate_dir: Seq<char>, flags: Seq<Seq<char>> },
    Test { bless: bool, verbose: bool, flags: Seq<Seq<char>> },
    Clean { flags: Seq<Seq<char>> },
    Fmt { check: bool, crate_dir: Seq<char>, flags: Seq<Seq<char>> },
    BumpMsrv { date: Seq<char> },
    InstallHook,
    UninstallHook,
}

impl View for Step {
    type V = StepView;

    open spec fn view(&self) -> StepView {
        match *self {
            Step::Build { crate_dir, flags } => StepView::Build {
                crate_dir: crate_dir@,
                flags: views(flags@),
            },
            Step::Test { bless, verbose, flags } => StepView::Test {
                bless,
                verbose,
                flags: views(flags@),
            },
            Step::Clean { flags } => StepView::Clean { flags: views(flags@) },
            Step::Fmt { check, crate_dir, flags } => StepView::Fmt {
                check,
                crate_dir: crate_dir@,
                flags: views(flags@),
            },
            Step::BumpMsrv { date } => StepView::BumpMsrv { date: date@ },
            Step::InstallHook => StepView::InstallHook,
            Step::UninstallHook => StepView::UninstallHook,
        }
    }
}

/// The mathematical values of a list of steps.
pub open spec fn step_views(steps: Seq<Step>) -> Seq<StepView> {
    Seq::new(steps.len(), |i: int| steps[i]@)
}

/// A fresh list holding the same strings in the same order.
pub fn copy_strings(v: &Vec<String>) -> (r: Vec<String>)
    ensures
        views(r@) == views(v@),
{
    let mut r: Vec<String> = Vec::new();
    let mut i: usize = 0;
    while i < v.len()
        invariant
            i <= v.len(),
            r@.len() == i,
            forall|k: int| 0 <= k < i ==> r@[k]@ == v@[k]@,
        decreases v.len() - i,
    {
        r.push(v[i].clone());
        i += 1;
    }
    assert(views(r@) =~= views(v@));
    r
}

/// The steps of a command, in the order in which they run.
pub open spec fn steps_of(command: Command) -> Seq<StepView> {
    match command {
        Command::Build { flags } => seq![
            StepView::Build { crate_dir: "rustc_public"@, flags: views(flags@) },
        ],
        Command::Test { bless, verbose, flags } => seq![
            StepView::Build { crate_dir: "rustc_public"@, flags: views(flags@) },
            StepView::Build { crate_dir: "test-drive"@, flags: views(flags@) },
            StepView::Test { bless, verbose, flags: views(flags@) },
        ],
        Command::Clean { flags } => seq![StepView::Clean { flags: views(flags@) }],
        Command::Fmt { check, flags } => seq![
            StepView::Fmt { check, crate_dir: "rustc_public"@, flags: views(flags@) },
            StepView::Fmt { check, crate_dir: "devtool"@, flags: views(flags@) },
            StepView::Fmt { check, crate_dir: "test-drive"@, flags: views(flags@) },
        ],
        Command::MSRV { date } => seq![StepView::BumpMsrv { date: date@ }],
        Command::Githook { command } => match command {
            GithookCommand::Install => seq![StepView::InstallHook],
            GithookCommand::Uninstall => seq![StepView::UninstallHook],
        },
    }
}

/// What a command does, step by step: testing builds the library and the
/// driver first; formatting goes over the library, this tool and the driver.
pub fn plan(command: &Command) -> (steps: Vec<Step>)
    ensures
        step_views(steps@) == steps_of(*command),
{
    let mut steps: Vec<Step> = Vec::new();
    match command {
        Command::Build { flags } => {
            steps.push(
                Step::Build {
                    crate_dir: String::from_str("rustc_public"),
                    flags: copy_strings(flags),
                },
            );
        },
        Command::Test { bless, verbose, flags } => {
            steps.push(
                Step::Build {
                    crate_dir: String::from_str("rustc_public"),
                    flags: copy_strings(flags),
                },
            );
            steps.push(
                Step::Build {
                    crate_dir: String::from_str("test-drive"),
                    flags: copy_strings(flags),
                },
            );
            steps.push(Step::Test { bless: *bless, verbose: *verbose, flags: copy_strings(flags) });
        },
        Command::Clean { flags } => {
            steps.push(Step::Clean { flags: copy_strings(flags) });
        },
        Command::Fmt { check, flags } => {
            steps.push(
                Step::Fmt {
                    check: *check,
                    crate_dir: String::from_str("rustc_public"),
                    flags: copy_strings(flags),
                },
            );
            steps.push(
                Step::Fmt {
                    check: *check,
                    crate_dir: String::from_str("devtool"),
                    flags: copy_strings(flags),
                },
            );
            steps.push(
                Step::Fmt {
                    check: *check,
                    crate_dir: String::from_str("test-drive"),
                    flags: copy_strings(flags),
                },
            );
        },
        Command::MSRV { date } => {
            steps.push(Step::BumpMsrv { date: date.clone() });
        },
        Command::Githook { command } => {
            match command {
                GithookCommand::Install => {
                    steps.push(Step::InstallHook);
                },
                GithookCommand::Uninstall => {
                    steps.push(Step::UninstallHook);
                },
            }
        },
    }
    assert(step_views(steps@) =~= steps_of(*command));
    steps
}

/// What the tool knows of its surroundings.
#[derive(Debug)]
pub struct DevCx {
    /// The root of the checkout.
    pub root_dir: String,
    /// The toolchain that compiles the crates.
    pub toolchain: String,
    /// The cargo to run.
    pub cargo_bin: String,
}

/// A program to run, with its arguments and the variables to set for it.
#[derive(Debug)]
pub struct Invocation {
    pub program: String,
    pub args: Vec<String>,
    pub envs: Vec<EnvVar>,
}

/// Appends copies of `more` to `args`.
fn extend(args: &mut Vec<String>, more: &Vec<String>)
    ensures
        views(final(args)@) == views(old(args)@) + views(more@),
{
    let mut i: usize = 0;
    while i < more.len()
        invariant
            i <= more.len(),
            views(args@) == views(old(args)@) + views(more@).subrange(0, i as int),
        decreases more.len() - i,
    {
        let ghost before = args@;
        args.push(more[i].clone());
        assert(views(args@) =~= views(before).push(more@[i as int]@));
        assert(views(args@) =~= views(old(args)@) + views(more@).subrange(0, i + 1));
        i += 1;
    }
    assert(views(more@).subrange(0, i as int) =~= views(more@));
}

/// The arguments of every cargo run: the toolchain, the subcommand, and the
/// manifest of the crate to work on.
pub open spec fn cargo_args(toolchain: Seq<char>, cmd: Seq<char>, manifest: Seq<char>) -> Seq<
    Seq<char>,
> {
    seq!["+"@ + toolchain, cmd, "--manifest-path"@, manifest]
}

/// The variables that a test run sets: where the driver is, and a mark each
/// for a verbose run and for a run that overwrites the stored output.
pub open spec fn test_envs(driver: Seq<char>, bless: bool, verbose: bool) -> Seq<
    (Seq<char>, Seq<char>),
> {
    let path = seq![("RP_TEST_DRIVER_PATH"@, driver)];
    let loud = if verbose {
        path.push(("RP_TEST_DRIVER_VERBOSE"@, "Ciallo"@))
    } else {
        path
    };
    if bless {
        loud.push(("RP_TEST_DRIVER_BLESS"@, "Ciallo"@))
    } else {
        loud
    }
}

impl DevCx {
    /// A run of cargo's subcommand `cmd` on the crate with the given manifest.
    pub fn cargo(&self, cmd: &str, manifest: &str) -> (run: Invocation)
        ensures
            run.program@ == self.cargo_bin@,
            views(run.args@) == cargo_args(self.toolchain@, cmd@, manifest@),
            run.envs@.len() == 0,
    {
        let mut args: Vec<String> = Vec::new();
        let mut toolchain = String::from_str("+");
        toolchain.append(self.toolchain.as_str());
        args.push(toolchain);
        args.push(String::from_str(cmd));
        args.push(String::from_str("--manifest-path"));
        args.push(String::from_str(manifest));
        assert(views(args@) =~= cargo_args(self.toolchain@, cmd@, manifest@));
        Invocation { program: self.cargo_bin.clone(), args, envs: Vec::new() }
    }

    /// A run of git's subcommand `cmd`.
    pub fn git(&self, cmd: &str) -> (run: Invocation)
        ensures
            run.program@ == "git"@,
            views(run.args@) == seq![cmd@],
            run.envs@.len() == 0,
    {
        let mut args: Vec<String> = Vec::new();
        args.push(String::from_str(cmd));
        assert(views(args@) =~= seq![cmd@]);
        Invocation { program: String::from_str("git"), args, envs: Vec::new() }
    }

    /// Builds all targets of a crate, with the user's flags last.
    pub fn build(&self, manifest: &str, flags: &Vec<String>) -> (run: Invocation)
        ensures
            run.program@ == self.cargo_bin@,
            views(run.args@) == cargo_args(self.toolchain@, "build"@, manifest@).push(
                "--all-targets"@,
            ) + views(flags@),
            run.envs@.len() == 0,
    {
        let mut run = self.cargo("build", manifest);
        run.args.push(String::from_str("--all-targets"));
        assert(views(run.args@) =~= cargo_args(self.toolchain@, "build"@, manifest@).push(
            "--all-targets"@,
        ));
        extend(&mut run.args, flags);
        run
    }

    /// Runs the test suites of the crate with the given manifest against the
    /// driver at `driver`.
    pub fn test(
        &self,
        driver: &str,
        manifest: &str,
        bless: bool,
        verbose: bool,
        flags: &Vec<String>,
    ) -> (run: Invocation)
        ensures
            run.program@ == self.cargo_bin@,
            views(run.args@) == cargo_args(self.toolchain@, "test"@, manifest@) + views(flags@),
            env_views(run.envs@) == test_envs(driver@, bless, verbose),
    {
        let mut run = self.cargo("test", manifest);
        extend(&mut run.args, flags);
        run.envs.push(
            EnvVar {
                name: String::from_str("RP_TEST_DRIVER_PATH"),
                value: String::from_str(driver),
            },
        );
        if verbose {
            run.envs.push(
                EnvVar {
                    name: String::from_str("RP_TEST_DRIVER_VERBOSE"),
                    value: String::from_str("Ciallo"),
                },
            );
        }
        if bless {
            run.envs.push(
                EnvVar {
                    name: String::from_str("RP_TEST_DRIVER_BLESS"),
                    value: String::from_str("Ciallo"),
                },
            );
        }
        assert(env_views(run.envs@) =~= test_envs(driver@, bless, verbose));
        run
    }

    /// Cleans the build directories of the workspace with the given manifest.
    pub fn clean(&self, manifest: &str, flags: &Vec<String>) -> (run: Invocation)
        ensures
            run.program@ == self.cargo_bin@,
            views(run.args@) == cargo_args(self.toolchain@, "clean"@, manifest@) + views(flags@),
            run.envs@.len() == 0,
    {
        let mut run = self.cargo("clean", manifest);
        extend(&mut run.args, flags);
        run
    }

    /// Formats a crate, or with `check` only checks its formatting; the
    /// user's flags come before `--check`.
    pub fn fmt(&self, check: bool, manifest: &str, flags: &Vec<String>) -> (run: Invocation)
        ensures
            run.program@ == self.cargo_bin@,
            views(run.args@) == if check {
                (cargo_args(self.toolchain@, "fmt"@, manifest@) + views(flags@)).push("--check"@)
            } else {
                cargo_args(self.toolchain@, "fmt"@, manifest@) + views(flags@)
            },
            run.envs@.len() == 0,
    {
        let mut run = self.cargo("fmt", manifest);
        extend(&mut run.args, flags);
        if check {
            let ghost before = run.args@;
            run.args.push(String::from_str("--check"));
            assert(views(run.args@) =~= views(before).push("--check"@));
        }
        run
    }
}

/// What installing the hook comes to, given what is on disk.
#[derive(Clone, Copy, Debug, PartialEq, Eq, Structural)]
pub enum InstallAction {
    /// The hook is there already: nothing to do.
    AlreadyInstalled,
    /// Link the hook, after making the hooks directory when it is missing.
    Link { create_hooks_dir: bool },
}

/// What removing the hook comes to, given what is on disk.
#[derive(Clone, Copy, Debug, PartialEq, Eq, Structural)]
pub enum UninstallAction {
    /// There is no hook: nothing to do.
    NotInstalled,
    /// Remove the hook.
    Remove,
}

impl DevCx {
    /// What the tool knows of its surroundings: the root of the checkout, the
    /// active toolchain, and the cargo that the environment names, or plain
    /// `cargo` when it names none.
    pub fn new(root_dir: String, toolchain: String, cargo: Option<String>) -> (cx: DevCx)
        ensures
            cx.root_dir == root_dir,
            cx.toolchain == toolchain,
            cx.cargo_bin@ == match cargo {
                Some(named) => named@,
                None => "cargo"@,
            },
    {
        let cargo_bin = match cargo {
            Some(named) => named,
            None => String::from_str("cargo"),
        };
        DevCx { root_dir, toolchain, cargo_bin }
    }

    /// Decides what installing the hook comes to.
    pub fn install_git_book(hook_exists: bool, hooks_dir_exists: bool) -> (action: InstallAction)
        ensures
            action == if hook_exists {
                InstallAction::AlreadyInstalled
            } else {
                InstallAction::Link { create_hooks_dir: !hooks_dir_exists }
            },
    {
        if hook_exists {
            InstallAction::AlreadyInstalled
        } else {
            InstallAction::Link { create_hooks_dir: !hooks_dir_exists }
        }
    }

    /// Decides what removing the hook comes to.
    pub fn uninstall_git_book(hook_exists: bool) -> (action: UninstallAction)
        ensures
            action == if hook_exists {
                UninstallAction::Remove
            } else {
                UninstallAction::NotInstalled
            },
    {
        if hook_exists {
            UninstallAction::Remove
        } else {
            UninstallAction::NotInstalled
        }
    }
}

/// Whether a character is white space: one of the characters that Unicode
/// marks `White_Space`. These are the controls from tab to carriage return,
/// the space, next line, the no-break space, the ogham space mark, the spaces
/// from en quad to hair space, the line and the paragraph separator, the
/// narrow no-break space, the medium mathematical space and the ideographic
/// space.
pub open spec fn white_space(c: char) -> bool {
    let code = c as u32;
    ||| 0x09 <= code <= 0x0D
    ||| code == 0x20
    ||| code == 0x85
    ||| code == 0xA0
    ||| code == 0x1680
    ||| 0x2000 <= code <= 0x200A
    ||| code == 0x2028
    ||| code == 0x2029
    ||| code == 0x202F
    ||| code == 0x205F
    ||| code == 0x3000
}

/// `char::is_whitespace` of the standard library, which its documentation
/// says is true of exactly the characters that Unicode marks `White_Space`.
#[verifier::external_body]
fn is_whitespace(c: char) -> (r: bool)
    ensures
        r == white_space(c),
{
    c.is_whitespace()
}

/// The first position from `from` on whose character is white space (`space`)
/// or is not, or the length of the text when there is none.
pub open spec fn first_at(text: Seq<char>, from: int, space: bool) -> int
    decreases text.len() - from,
{
    if from >= text.len() {
        text.len() as int
    } else if white_space(text[from]) == space {
        from
    } else {
        first_at(text, from + 1, space)
    }
}

/// The end of the text once trailing white space is cut: the position behind
/// the last character before `upto` that is no white space, or 0.
pub open spec fn end_before(text: Seq<char>, upto: int) -> int
    decreases upto,
{
    if upto <= 0 {
        0
    } else if !white_space(text[upto - 1]) {
        upto
    } else {
        end_before(text, upto - 1)
    }
}

/// The first run of characters that are no white space, if the text has one.
pub open spec fn first_word(text: Seq<char>) -> Option<Seq<char>> {
    let start = first_at(text, 0, false);
    if start >= text.len() {
        None
    } else {
        Some(text.subrange(start, first_at(text, start, true)))
    }
}

/// The text without the white space at its start and at its end.
pub open spec fn trimmed(text: Seq<char>) -> Seq<char> {
    let start = first_at(text, 0, false);
    if start >= text.len() {
        Seq::empty()
    } else {
        text.subrange(start, end_before(text, text.len() as int))
    }
}

/// Finds the first position from `from` on whose character is white space
/// (`space`) or is not.
fn scan(text: &str, from: usize, space: bool) -> (at: usize)
    requires
        from <= text@.len(),
    ensures
        at == first_at(text@, from as int, space),
        from <= at <= text@.len(),
{
    let n = text.unicode_len();
    let mut i: usize = from;
    while i < n
        invariant
            from <= i <= n,
            n == text@.len(),
            first_at(text@, from as int, space) == first_at(text@, i as int, space),
        decreases n - i,
    {
        if is_whitespace(text.get_char(i)) == space {
            return i;
        }
        i += 1;
    }
    i
}

/// The active toolchain, read from what `rustup show active-toolchain`
/// printed: its first word. Fails when nothing but white space was printed.
pub fn active_toolchain(printed: &str) -> (res: Result<String, String>)
    ensures
        match res {
            Ok(name) => first_word(printed@) == Some(name@),
            Err(msg) => first_word(printed@) is None && msg@
                == "Could not obtain active Rust toolchain"@,
        },
{
    let start = scan(printed, 0, false);
    if start >= printed.unicode_len() {
        return Err(String::from_str("Could not obtain active Rust toolchain"));
    }
    let end = scan(printed, start, true);
    Ok(String::from_str(printed.substring_char(start, end)))
}

/// The git directory, read from what `git rev-parse --git-common-dir`
/// printed: the text without the white space around it.
pub fn git_dir(printed: &str) -> (dir: String)
    ensures
        dir@ == trimmed(printed@),
{
    let n = printed.unicode_len();
    let start = scan(printed, 0, false);
    if start >= n {
        return String::new();
    }
    let mut end: usize = n;
    while end > 0 && is_whitespace(printed.get_char(end - 1))
        invariant
            end <= n,
            n == printed@.len(),
            start < n,
            start == first_at(printed@, 0, false),
            end_before(printed@, n as int) == end_before(printed@, end as int),
        decreases end,
    {
        end -= 1;
    }
    proof {
        lemma_trim_order(printed@);
    }
    String::from_str(printed.substring_char(start, end))
}

/// Where the text has a character that is no white space, cutting at the
/// start stops before cutting at the end does.
pub proof fn lemma_trim_order(text: Seq<char>)
    requires
        first_at(text, 0, false) < text.len(),
    ensures
        first_at(text, 0, false) < end_before(text, text.len() as int) <= text.len(),
{
    let start = first_at(text, 0, false);
    lemma_first_at_hit(text, 0, false);
    lemma_end_before(text, text.len() as int, start);
}

/// Where `first_at` stops inside the text, the character there is as asked.
pub proof fn lemma_first_at_hit(text: Seq<char>, from: int, space: bool)
    requires
        0 <= from <= text.len(),
        first_at(text, from, space) < text.len(),
    ensures
        from <= first_at(text, from, space),
        white_space(text[first_at(text, from, space)]) == space,
    decreases text.len() - from,
{
    if from < text.len() && white_space(text[from]) != space {
        lemma_first_at_hit(text, from + 1, space);
    }
}

/// `end_before` lies behind every character before `upto` that is no white
/// space.
pub proof fn lemma_end_before(text: Seq<char>, upto: int, at: int)
    requires
        0 <= at < upto <= text.len(),
        !white_space(text[at]),
    ensures
        at < end_before(text, upto) <= upto,
    decreases upto,
{
    if white_space(text[upto - 1]) {
        lemma_end_before(text, upto - 1, at);
    }
}

} // verus!
