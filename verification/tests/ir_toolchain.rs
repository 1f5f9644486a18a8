use cargo_optic::ir::driver::{
    cargo_home, driver_cache_directory, require_inactive, EnvironmentChange, RustcDriver,
};
use cargo_optic::ir::toolchain::{
    component_command, configuration_base, effective_program_from, effective_wrapper_from, field,
    inspect_workspace_toolchain, resolve_program_path, rustup_toolchain_name, CargoConfiguration,
    ConfiguredProgram, Inspection, InspectionReply, ToolEnvironment, Toolchain,
};
use cargo_optic::process::{ExitReport, ProcessOutput};

fn toolchain(sysroot: &str) -> Toolchain {
    Toolchain {
        rustc: "rustc".to_owned(),
        release: "1.97.1".to_owned(),
        commit_hash: "abc123".to_owned(),
        host: "test-host".to_owned(),
        llvm_version: "22.1.6".to_owned(),
        sysroot: sysroot.to_owned(),
        rustc_private_lib: format!("{sysroot}/lib"),
        llvm_dis: format!("{sysroot}/llvm-dis"),
        rustup_toolchain: None,
    }
}

fn printed(stdout: &str) -> InspectionReply {
    InspectionReply::Ran(Ok(ProcessOutput {
        report: ExitReport { success: true, status: "exit status: 0".to_owned() },
        stdout: stdout.as_bytes().to_vec(),
        stderr: Vec::new(),
    }))
}

#[test]
fn parses_cargo_programs_with_their_relative_path_origins() {
    let output = r#"
build.rustc = "tools/rustc" # /workspace/.cargo/config.toml
build.rustc-wrapper = "global-wrapper" # /home/user/.cargo/config.toml
build.rustc-workspace-wrapper = "tools/workspace-wrapper" # environment variable `CARGO_BUILD_RUSTC_WORKSPACE_WRAPPER`
"#;

    let configuration = CargoConfiguration::parse(output, "/workspace")
        .expect("the Cargo configuration is valid");

    assert_eq!(
        configuration.rustc.expect("rustc is set").value,
        "/workspace/tools/rustc"
    );
    assert_eq!(
        configuration
            .global_wrapper
            .expect("the global wrapper is set")
            .value,
        "global-wrapper"
    );
    assert_eq!(
        configuration
            .workspace_wrapper
            .expect("the workspace wrapper is set")
            .value,
        "/workspace/tools/workspace-wrapper"
    );
}

#[test]
fn uses_the_workspace_for_environment_and_command_line_paths() {
    assert_eq!(
        configuration_base("environment variable `CARGO_BUILD_RUSTC`", "/workspace"),
        "/workspace"
    );
    assert_eq!(
        configuration_base("command line", "/workspace"),
        "/workspace"
    );
}

#[test]
fn leaves_bare_program_names_for_path_lookup() {
    assert_eq!(
        resolve_program_path("custom-rustc".to_owned(), "/workspace"),
        "custom-rustc"
    );
    assert_eq!(
        resolve_program_path("tools/rustc".to_owned(), "/workspace"),
        "/workspace/tools/rustc"
    );
}

#[test]
fn explicit_compiler_environment_overrides_cargo_configuration() {
    let configured = ConfiguredProgram {
        value: "configured-rustc".to_owned(),
    };

    assert_eq!(
        effective_program_from(
            Some("tools/rustc".to_owned()),
            Some(&configured),
            "rustc",
            "/workspace"
        ),
        "/workspace/tools/rustc"
    );
    assert_eq!(
        effective_wrapper_from(Some(String::new()), Some(&configured), "/workspace"),
        None
    );
}

#[test]
fn accepts_a_complete_stable_compiler_identity() {
    let verbose = "rustc 1.97.1\nrelease: 1.97.1\ncommit-hash: abc123\nhost: test-host\nLLVM version: 22.1.6\n";

    assert_eq!(
        field(verbose, "release").expect("the stable release is complete"),
        "1.97.1"
    );
    assert_eq!(
        field(verbose, "commit-hash").expect("the stable commit is complete"),
        "abc123"
    );
}

#[test]
fn identifies_only_proven_rustup_sysroots() {
    assert_eq!(
        rustup_toolchain_name("/home/user/.rustup/toolchains/1.97.1-test-host"),
        Some("1.97.1-test-host".to_owned())
    );
    assert_eq!(rustup_toolchain_name("/opt/rust"), None);
}

#[test]
fn separates_drivers_for_distinct_canonical_sysroots() {
    let first = toolchain("/rustup/toolchains/first");
    let second = toolchain("/rustup/toolchains/second");

    assert_ne!(
        driver_cache_directory("/cargo-home", &first, "fn main() {}"),
        driver_cache_directory("/cargo-home", &second, "fn main() {}")
    );
    assert_ne!(
        driver_cache_directory("/cargo-home", &first, "fn main() {}"),
        driver_cache_directory("/cargo-home", &first, "fn main() { }")
    );
}

#[test]
fn inspections_reach_a_toolchain() {
    let environment = ToolEnvironment {
        cargo: None,
        rustc: None,
        rustc_wrapper: None,
        rustc_workspace_wrapper: None,
    };
    let mut state = Inspection::Configuring;
    for reply in [
        printed(""),
        printed("release: 1.97.1\ncommit-hash: abc123\nhost: test-host\nLLVM version: 22.1.6\n"),
        printed("/rustup/toolchains/stable\n"),
        InspectionReply::Resolved(Ok("/rustup/toolchains/stable".to_owned())),
        InspectionReply::Found(true),
    ] {
        state = inspect_workspace_toolchain("/workspace", &environment, state, reply);
    }

    match state {
        Inspection::Finished(Ok((context, toolchain))) => {
            assert_eq!(context.rustc, "rustc");
            assert_eq!(toolchain.release, "1.97.1");
            assert_eq!(toolchain.rustup_toolchain.as_deref(), Some("stable"));
        }
        _ => panic!("the inspection is over"),
    }
}

#[test]
fn a_driver_is_configured_through_the_environment() {
    let driver = RustcDriver {
        executable: "/driver".to_owned(),
        original_global_wrapper: Some("sccache".to_owned()),
        workspace_wrapper: None,
    };
    let changes = driver.configure("/analysis", "/analysis/identity", "abc123");

    assert!(changes.iter().any(|change| matches!(
        change,
        EnvironmentChange::Assign { name, value } if name == "RUSTC_WRAPPER" && value == "/driver"
    )));
    assert!(changes.iter().any(|change| matches!(
        change,
        EnvironmentChange::Assign { name, value }
            if name == "OPTIC_ORIGINAL_RUSTC_WRAPPER" && value == "sccache"
    )));
    assert!(driver.wrapper_chain().iter().any(|program| program == "sccache"));
    assert!(require_inactive(&None).is_ok());
    assert!(require_inactive(&Some("1".to_owned())).is_err());
}

#[test]
fn components_are_installed_for_rustup_toolchains() {
    assert_eq!(
        component_command(&Some("stable".to_owned()), "rustc-dev").as_deref(),
        Some("rustup component add --toolchain stable rustc-dev")
    );
    assert_eq!(component_command(&None, "rustc-dev"), None);
    assert!(cargo_home(&None, &None).is_err());
}
