use cargo_optic::ir::capture::{remarks_directory, CompileOutcome};
use cargo_optic::ir::cargo_output::{
    CargoProcessEvent, CargoRun, CargoRunState, ReaderMessage, StdoutReader,
};
use cargo_optic::ir::compile::{
    check_fresh, compile, compile_with_events, supported_bitcode, CaptureInputs, Compilation,
    CompileReply, DriverEnvironment, FreshnessCheck, Preparation, PreparationReply,
};
use cargo_optic::ir::driver::{CacheReply, CacheStep, EnvironmentChange};
use cargo_optic::ir::error::{Error, Failure};
use cargo_optic::ir::remark_files::DirectoryEntry;
use cargo_optic::ir::request::{BuildRequest, CaptureProfile};
use cargo_optic::ir::toolchain::{Inspection, InspectionReply, ToolEnvironment, Toolchain};
use cargo_optic::process::{ExitReport, ProcessOutput};
use cargo_optic::source::{FailureKind, SourceError};

const VERSION: &str =
    "release: 1.97.1\ncommit-hash: abc123\nhost: test-host\nLLVM version: 22.1.6\n";

fn request(capture_remarks: bool) -> BuildRequest {
    BuildRequest {
        workspace_root: "/workspace".to_owned(),
        manifest_path: None,
        package: None,
        target: None,
        profile: None,
        features: Vec::new(),
        all_features: false,
        no_default_features: false,
        target_triple: None,
        locked: false,
        offline: false,
        frozen: false,
        capture_profile: CaptureProfile::Faithful,
        capture_remarks,
        analysis_directory: "/analysis".to_owned(),
    }
}

fn inputs() -> CaptureInputs {
    CaptureInputs {
        tools: ToolEnvironment {
            cargo: None,
            rustc: None,
            rustc_wrapper: None,
            rustc_workspace_wrapper: None,
        },
        driver: DriverEnvironment {
            wrapper_active: None,
            cargo_home: Some("/cargo-home".to_owned()),
            home: None,
            driver_source: "fn main() {}".to_owned(),
        },
        variables: Vec::new(),
    }
}

fn ran(success: bool, stdout: &str) -> Result<ProcessOutput, SourceError> {
    Ok(ProcessOutput {
        report: ExitReport { success, status: "exit status: 1".to_owned() },
        stdout: stdout.as_bytes().to_vec(),
        stderr: b"problem".to_vec(),
    })
}

fn failure(kind: FailureKind) -> SourceError {
    SourceError { kind, message: "fixture".to_owned() }
}

fn output(stdout: &str, stderr: &str) -> Vec<ReaderMessage> {
    let mut messages = Vec::new();
    let mut reader = StdoutReader::new();
    reader.push(stdout.as_bytes(), &mut messages);
    reader.finish(&mut messages);
    messages.push(ReaderMessage::Event(CargoProcessEvent::Stderr {
        bytes: stderr.as_bytes().to_vec(),
    }));
    messages
}

fn ended(success: bool) -> ExitReport {
    ExitReport { success, status: "exit status: 101".to_owned() }
}

fn run(success: bool, stdout: &str, stderr: &str) -> Result<CargoRun, Error> {
    let mut state = CargoRunState::new();
    for message in output(stdout, stderr) {
        state = state.accept(message).0;
    }
    state.finish("cargo rustc", Ok(ended(success)))
}

/// What the outside steps of an analysis answer.
struct World {
    version: &'static str,
    found_tool: bool,
    libraries: Vec<&'static str>,
    first_entry: Option<()>,
    cached: bool,
    driver_version: &'static str,
    compiles: bool,
    cargo_succeeds: bool,
    stdout: &'static str,
    stderr: &'static str,
    manifest: bool,
    bitcode: Vec<&'static str>,
}

fn world() -> World {
    World {
        version: VERSION,
        found_tool: true,
        libraries: vec!["librustc_middle-1.rmeta"],
        first_entry: None,
        cached: false,
        driver_version: "3\n",
        compiles: true,
        cargo_succeeds: true,
        stdout: "",
        stderr: "",
        manifest: true,
        bitcode: vec!["/analysis/crate.bc"],
    }
}

impl World {
    fn inspection(&self, inspection: &Inspection) -> InspectionReply {
        match inspection {
            Inspection::Configuring => InspectionReply::Ran(ran(true, "")),
            Inspection::Versioning(..) => InspectionReply::Ran(ran(true, self.version)),
            Inspection::Locating(..) => {
                InspectionReply::Ran(ran(true, "/rustup/toolchains/stable\n"))
            }
            Inspection::Resolving(..) => {
                InspectionReply::Resolved(Ok("/rustup/toolchains/stable".to_owned()))
            }
            _ => InspectionReply::Found(self.found_tool),
        }
    }

    fn preparation(&self, preparation: &Preparation) -> PreparationReply {
        match preparation {
            Preparation::Listing => PreparationReply::Listed(Ok(self
                .libraries
                .iter()
                .map(|name| Ok((*name).to_owned()))
                .collect())),
            Preparation::Caching(_, step) => PreparationReply::Cache(match step {
                CacheStep::FindExecutable => CacheReply::Found(self.cached),
                CacheStep::FindAnything | CacheStep::FindTemporary => CacheReply::Found(false),
                CacheStep::AskCached | CacheStep::AskNew => {
                    CacheReply::Ran(ran(true, self.driver_version))
                }
                CacheStep::Compile => CacheReply::Ran(ran(self.compiles, "")),
                _ => CacheReply::Done(Ok(())),
            }),
            Preparation::Ready(_) => PreparationReply::Cache(CacheReply::Found(true)),
        }
    }

    fn entries(&self) -> Vec<Result<DirectoryEntry, SourceError>> {
        self.bitcode
            .iter()
            .map(|path| {
                Ok(DirectoryEntry {
                    is_file: true,
                    name: path.rsplit('/').next().unwrap().to_owned(),
                    path: (*path).to_owned(),
                })
            })
            .collect()
    }

    fn analyze(
        &self,
        request: &BuildRequest,
        inputs: &CaptureInputs,
    ) -> Result<CompileOutcome, Error> {
        self.watch(request, inputs).0
    }

    fn watch(
        &self,
        request: &BuildRequest,
        inputs: &CaptureInputs,
    ) -> (Result<CompileOutcome, Error>, Vec<CargoProcessEvent>) {
        let mut state = Compilation::start();
        let mut messages = Vec::new().into_iter();
        let mut events = Vec::new();
        loop {
            let reply = match &state {
                Compilation::Inspecting(inspection) => {
                    CompileReply::Inspection(self.inspection(inspection))
                }
                Compilation::Creating(..) | Compilation::CreatingRemarks(..) => {
                    CompileReply::Done(Ok(()))
                }
                Compilation::Listing(..) => CompileReply::FirstEntry(Ok(self.first_entry.map(Ok))),
                Compilation::Preparing(_, _, preparation) => {
                    CompileReply::Preparation(self.preparation(preparation))
                }
                Compilation::Running(..) => {
                    messages = output(self.stdout, self.stderr).into_iter();
                    CompileReply::Started(Ok(()))
                }
                Compilation::Reading(..) => match messages.next() {
                    Some(message) => CompileReply::Output(message),
                    None => CompileReply::Ended(Ok(ended(self.cargo_succeeds))),
                },
                Compilation::Finding(..) => CompileReply::Found(self.manifest),
                Compilation::Requiring(..) => CompileReply::Evidence(
                    self.manifest,
                    supported_bitcode("/analysis", self.entries()),
                ),
                Compilation::Finished(_) => break,
            };
            let (next, event) = compile_with_events(request, inputs, state, reply);
            state = next;
            events.extend(event);
        }
        match state {
            Compilation::Finished(result) => (result, events),
            _ => unreachable!("the loop ends with a finished analysis"),
        }
    }

    fn message(&self) -> String {
        match self.analyze(&request(false), &inputs()) {
            Ok(_) => panic!("the analysis fails"),
            Err(error) => error.message(),
        }
    }

    fn check(&self, expected: &Toolchain) -> Result<bool, Error> {
        let (request, inputs) = (request(false), inputs());
        let mut state = FreshnessCheck::Inspecting(Inspection::Configuring);
        loop {
            let reply = match &state {
                FreshnessCheck::Inspecting(inspection) => {
                    CompileReply::Inspection(self.inspection(inspection))
                }
                FreshnessCheck::Preparing(_, _, preparation) => {
                    CompileReply::Preparation(self.preparation(preparation))
                }
                FreshnessCheck::Running(_, changes) => {
                    assert!(changes.iter().any(|change| matches!(
                        change,
                        EnvironmentChange::Assign { name, value }
                            if name == "OPTIC_FRESHNESS_CHECK" && value == "1"
                    )));
                    CompileReply::Ran(run(self.cargo_succeeds, self.stdout, self.stderr))
                }
                FreshnessCheck::Finished(_) => break,
            };
            state = check_fresh(&request, expected, &inputs, state, reply);
        }
        match state {
            FreshnessCheck::Finished(result) => result,
            _ => unreachable!("the loop ends with a finished check"),
        }
    }
}

const FRESH: &str = "{\"reason\":\"compiler-artifact\",\"fresh\":true}\n";
const STALE: &str = "{\"reason\":\"compiler-artifact\",\"fresh\":false}\n";

fn compiled_toolchain() -> Toolchain {
    match world().analyze(&request(false), &inputs()) {
        Ok(CompileOutcome::Compiled { compilation }) => compilation.toolchain,
        _ => panic!("the target is compiled"),
    }
}

#[test]
fn analyses_compile_the_selected_target() {
    let toolchain = compiled_toolchain();
    assert_eq!(toolchain.commit_hash, "abc123");
    assert_eq!(toolchain.rustup_toolchain.as_deref(), Some("stable"));

    let reused = World { cached: true, ..world() };
    assert!(reused.analyze(&request(true), &inputs()).is_ok());
}

#[test]
fn rejects_a_nonempty_analysis_directory() {
    let occupied = World { first_entry: Some(()), ..world() };
    assert!(matches!(
        occupied.analyze(&request(false), &inputs()),
        Err(Failure::AnalysisDirectoryNotEmpty { path }) if path == "/analysis"
    ));
}

#[test]
fn remark_capture_creates_its_output_directory() {
    let listed = |capture_remarks: bool| {
        let mut state = Compilation::start();
        while !matches!(state, Compilation::Listing(..)) {
            let reply = match &state {
                Compilation::Inspecting(inspection) => {
                    CompileReply::Inspection(world().inspection(inspection))
                }
                _ => CompileReply::Done(Ok(())),
            };
            state = compile(&request(capture_remarks), &inputs(), state, reply);
        }
        compile(
            &request(capture_remarks),
            &inputs(),
            state,
            CompileReply::FirstEntry(Ok(None)),
        )
    };

    assert!(matches!(listed(true), Compilation::CreatingRemarks(..)));
    assert!(matches!(listed(false), Compilation::Preparing(..)));
    assert_eq!(remarks_directory("/analysis"), "/analysis/remarks");
}

#[test]
fn watched_analyses_report_their_output_and_keep_their_outcome() {
    let talking = World {
        cargo_succeeds: false,
        stdout: "plain output\n",
        stderr: "error: no target\n",
        ..world()
    };
    let (outcome, events) = talking.watch(&request(false), &inputs());
    assert_eq!(
        events,
        [
            CargoProcessEvent::Stdout { bytes: b"plain output\n".to_vec() },
            CargoProcessEvent::Stderr { bytes: b"error: no target\n".to_vec() },
        ]
    );
    let message = "cargo rustc failed with status exit status: 101\nplain output\nerror: no target\n";
    match outcome {
        Err(error) => assert_eq!(error.message(), message),
        Ok(_) => panic!("the analysis fails"),
    }

    let quiet = |ending: CompileReply| {
        let mut state = Compilation::start();
        while !matches!(state, Compilation::Running(..)) {
            let reply = match &state {
                Compilation::Inspecting(inspection) => {
                    CompileReply::Inspection(world().inspection(inspection))
                }
                Compilation::Listing(..) => CompileReply::FirstEntry(Ok(None)),
                Compilation::Preparing(_, _, preparation) => {
                    CompileReply::Preparation(world().preparation(preparation))
                }
                _ => CompileReply::Done(Ok(())),
            };
            state = compile(&request(false), &inputs(), state, reply);
        }
        let mut replies = Vec::new();
        if !matches!(ending, CompileReply::Started(_)) {
            replies.push(CompileReply::Started(Ok(())));
            for message in output("plain output\n", "error: no target\n") {
                replies.push(CompileReply::Output(message));
            }
        }
        replies.push(ending);
        for reply in replies {
            state = compile(&request(false), &inputs(), state, reply);
        }
        match state {
            Compilation::Finished(Err(error)) => error.message(),
            _ => panic!("the analysis fails"),
        }
    };
    assert_eq!(quiet(CompileReply::Ended(Ok(ended(false)))), message);
    assert_eq!(
        quiet(CompileReply::Started(Err(failure(FailureKind::NotFound)))),
        "failed to start cargo rustc: fixture"
    );
    assert!(quiet(CompileReply::Ended(Err(failure(FailureKind::Other)))).contains("fixture"));
}

#[test]
fn fresh_analyses_need_reported_artifacts() {
    let fresh = World { manifest: false, stdout: FRESH, ..world() };
    match fresh.analyze(&request(false), &inputs()) {
        Ok(CompileOutcome::Fresh { invocation, artifact_count }) => {
            assert_eq!(artifact_count, 1);
            assert!(invocation.rustc.is_none());
        }
        _ => panic!("the target is fresh"),
    }
    let missing = "Cargo compiled the selected target but produced no supported LLVM artifacts";
    assert_eq!(World { manifest: false, ..world() }.message(), missing);
    assert_eq!(World { manifest: false, stdout: STALE, ..world() }.message(), missing);
    assert_eq!(World { bitcode: Vec::new(), ..world() }.message(), missing);
}

#[test]
fn analyses_name_what_they_miss() {
    assert_eq!(
        World { version: "release: 1.97.1\n", ..world() }.message(),
        "rustc -vV did not report commit-hash"
    );
    assert!(World { found_tool: false, ..world() }
        .message()
        .starts_with("the active toolchain does not contain llvm-dis at /rustup/"));
    assert!(World { libraries: vec!["libstd-1.rlib"], ..world() }
        .message()
        .starts_with("the active toolchain does not contain rustc-dev libraries at /rustup/"));
    assert_eq!(
        World { first_entry: Some(()), ..world() }.message(),
        "analysis directory must be empty, got /analysis"
    );
    assert_eq!(
        World { driver_version: "2\n", ..world() }.message(),
        "invalid compiler environment: compiled rustc driver did not report protocol version 3"
    );
    assert!(World { compiles: false, ..world() }
        .message()
        .ends_with("failed with status exit status: 1\nproblem"));
    assert_eq!(
        World { cargo_succeeds: false, stderr: "error: no target\n", ..world() }.message(),
        "cargo rustc failed with status exit status: 101\nerror: no target\n"
    );

    let mut active = inputs();
    active.driver.wrapper_active = Some("1".to_owned());
    match world().analyze(&request(false), &active) {
        Err(error) => assert_eq!(
            error.message(),
            "invalid compiler environment: a Cargo Optic rustc wrapper is already active"
        ),
        Ok(_) => panic!("an active wrapper ends the analysis"),
    }

    let mut homeless = inputs();
    homeless.driver.cargo_home = None;
    match world().analyze(&request(false), &homeless) {
        Err(error) => assert_eq!(
            error.message(),
            "invalid compiler environment: CARGO_HOME and HOME are not set"
        ),
        Ok(_) => panic!("a driver needs a home"),
    }

    let mut state = Compilation::start();
    state = compile(
        &request(false),
        &inputs(),
        state,
        CompileReply::Inspection(InspectionReply::Ran(Err(failure(FailureKind::NotFound)))),
    );
    match state {
        Compilation::Finished(Err(error)) => {
            assert_eq!(error.message(), "failed to start cargo: fixture");
        }
        _ => panic!("Cargo has to start"),
    }
}

#[test]
fn freshness_checks_compare_the_toolchain_first() {
    let expected = compiled_toolchain();
    assert!(World { stdout: FRESH, ..world() }.check(&expected).unwrap());
    assert!(!World { stdout: STALE, ..world() }.check(&expected).unwrap());
    assert!(!world().check(&expected).unwrap());

    let stopped = World {
        cargo_succeeds: false,
        stderr: "cargo-optic selected target is not fresh\n",
        ..world()
    };
    assert!(!stopped.check(&expected).unwrap());
    assert!(World { cargo_succeeds: false, ..world() }.check(&expected).is_err());

    let other = Toolchain { release: "1.0.0".to_owned(), ..compiled_toolchain() };
    assert!(!World { stdout: FRESH, ..world() }.check(&other).unwrap());
}

#[test]
fn bitcode_is_listed_in_the_order_of_its_paths() {
    let world = World {
        bitcode: vec!["/analysis/b.bc", "/analysis/notes.txt", "/analysis/a.bc"],
        ..world()
    };
    let paths: Vec<String> = supported_bitcode("/analysis", world.entries())
        .unwrap()
        .into_iter()
        .map(|item| item.path)
        .collect();
    assert!(paths.windows(2).all(|pair| pair[0] < pair[1]));
    assert!(paths.iter().all(|path| path.ends_with(".bc")));

    let error = supported_bitcode("/analysis", vec![Err(failure(FailureKind::Other))]).unwrap_err();
    assert_eq!(error.message(), "failed to walk /analysis: fixture");
}
