use test_drive::compiletest::{
    cargo_config, config, driver_config, rustc_flags, Args, EnvVar, HarnessMode, Mode, Runner,
    RustfixMode,
};

fn args(mode: Mode, verbose: bool, no_capture: bool) -> Args {
    Args {
        src_base: "tests/sanity-checks".to_string(),
        mode,
        driver_path: "target/debug/test-drive".to_string(),
        output_dir: "target/out".to_string(),
        verbose,
        no_capture,
    }
}

#[test]
fn each_mode_has_its_harness_mode() {
    assert_eq!(HarnessMode::from(Mode::Pass), HarnessMode::Pass);
    assert_eq!(HarnessMode::from(Mode::CargoPass), HarnessMode::Pass);
    assert_eq!(HarnessMode::from(Mode::Run), HarnessMode::Run { exit_code: 0 });
    assert_eq!(HarnessMode::from(Mode::Panic), HarnessMode::Panic);
    assert_eq!(
        HarnessMode::from(Mode::Fail),
        HarnessMode::Fail { require_patterns: false, rustfix: RustfixMode::Disabled }
    );
    assert_eq!(HarnessMode::from(Mode::Yolo), HarnessMode::Yolo { rustfix: RustfixMode::Disabled });
}

#[test]
fn the_driver_is_verbose_when_the_harness_is_or_does_not_capture() {
    assert_eq!(rustc_flags(&args(Mode::Pass, false, false)), vec!["--check-smir".to_string()]);
    let loud = vec!["--check-smir".to_string(), "--verbose".to_string()];
    assert_eq!(rustc_flags(&args(Mode::Pass, true, false)), loud);
    assert_eq!(rustc_flags(&args(Mode::Pass, false, true)), loud);
    assert_eq!(rustc_flags(&args(Mode::Pass, true, true)), loud);
}

#[test]
fn the_driver_setup_replaces_program_and_arguments() {
    let setup = driver_config(&args(Mode::Pass, true, false));
    assert_eq!(setup.runner, Runner::Driver);
    assert_eq!(setup.root_dir, "tests/sanity-checks");
    assert_eq!(setup.program, Some("target/debug/test-drive".to_string()));
    assert_eq!(
        setup.program_args,
        Some(vec!["--check-smir".to_string(), "--verbose".to_string()])
    );
    assert!(setup.envs.is_empty());
    assert_eq!(setup.out_dir, None);
    assert_eq!(
        setup.mode,
        HarnessMode::Fail { require_patterns: true, rustfix: RustfixMode::MachineApplicable }
    );
    assert_eq!(setup.filtered, None);
    assert_eq!(setup.on_conflict, None);
}

#[test]
fn the_cargo_setup_names_the_driver_in_the_environment() {
    let setup = cargo_config(&args(Mode::CargoPass, false, true));
    assert_eq!(setup.runner, Runner::Cargo);
    assert_eq!(setup.program, None);
    assert_eq!(setup.program_args, None);
    assert_eq!(
        setup.mode,
        HarnessMode::Fail { require_patterns: true, rustfix: RustfixMode::Disabled }
    );
    assert_eq!(
        setup.envs,
        vec![
            EnvVar { name: "RUST".to_string(), value: "target/debug/test-drive".to_string() },
            EnvVar {
                name: "CARGO_ENCODED_RUSTFLAGS".to_string(),
                value: "--check-smir\x1f--verbose".to_string(),
            },
        ]
    );
}

#[test]
fn the_whole_setup_follows_the_command_line() {
    let setup = config(&args(Mode::Yolo, false, false));
    assert_eq!(setup.runner, Runner::Driver);
    assert_eq!(setup.mode, HarnessMode::Yolo { rustfix: RustfixMode::Disabled });
    assert_eq!(setup.filtered, Some("\\[T-DRIVE\\].*\\n".to_string()));
    assert_eq!(setup.on_conflict, Some("Should Fail".to_string()));
    assert_eq!(setup.out_dir, Some("target/out".to_string()));
    assert_eq!(setup.program_args, Some(vec!["--check-smir".to_string()]));
    let cargo = config(&args(Mode::CargoPass, false, false));
    assert_eq!(cargo.runner, Runner::Cargo);
    assert_eq!(cargo.mode, HarnessMode::Pass);
    assert_eq!(cargo.envs[1].value, "--check-smir");
    assert_eq!(cargo.out_dir, Some("target/out".to_string()));
}
