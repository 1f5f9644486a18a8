use cargo_optic::ir::capture::{describe, CompiledCapture, EvidenceEvent, EvidenceMetadata};
use cargo_optic::ir::disassembly::{Disassembly, DisassemblyReply};
use cargo_optic::ir::error::Error;
use cargo_optic::ir::ingestion::{ingest_with_events, Ingestion, IngestionReply, IngestionStep};
use cargo_optic::ir::mono::{END_RECORD, MANIFEST_MAGIC, PLACEMENT_RECORD, PROTOCOL_VERSION};
use cargo_optic::ir::remark_files::DirectoryEntry;
use cargo_optic::ir::request::{BuildRequest, CaptureProfile};
use cargo_optic::ir::toolchain::Toolchain;
use cargo_optic::process::ExitReport;
use cargo_optic::sorting::PathItem;
use cargo_optic::source::{FailureKind, LoadedReader, SourceError};

const MODULE: &str = "declare void @external(i32)\n\ndefine void @defined() {\n  ret void\n}\n";
const REMARK: &str = "--- !Passed\nPass: inline\nName: Inlined\nFunction: f\n...\n";

fn request(capture_remarks: bool) -> BuildRequest {
    BuildRequest {
        workspace_root: "/workspace".to_owned(),
        manifest_path: None,
        package: None,
        target: None,
        profile: None,
        features: Vec::new(),
        all_features: false,
        no_default_features: false,
        target_triple: None,
        locked: false,
        offline: false,
        frozen: false,
        capture_profile: CaptureProfile::Faithful,
        capture_remarks,
        analysis_directory: "/analysis".to_owned(),
    }
}

fn compilation(request: &BuildRequest) -> CompiledCapture {
    CompiledCapture {
        invocation: describe(request, "cargo", Vec::new(), Vec::new()),
        toolchain: Toolchain {
            rustc: "rustc".to_owned(),
            release: "1.97.1".to_owned(),
            commit_hash: "commit".to_owned(),
            host: "test-host".to_owned(),
            llvm_version: "22.1.6".to_owned(),
            sysroot: "/sysroot".to_owned(),
            rustc_private_lib: "/sysroot/lib".to_owned(),
            llvm_dis: "/sysroot/bin/llvm-dis".to_owned(),
            rustup_toolchain: None,
        },
    }
}

fn push_string(manifest: &mut Vec<u8>, value: &str) {
    manifest.extend_from_slice(&(value.len() as u32).to_le_bytes());
    manifest.extend_from_slice(value.as_bytes());
}

fn manifest() -> Vec<u8> {
    let mut manifest = Vec::new();
    manifest.extend_from_slice(&MANIFEST_MAGIC);
    manifest.extend_from_slice(&PROTOCOL_VERSION.to_le_bytes());
    push_string(&mut manifest, "commit");
    manifest.extend_from_slice(&2_u32.to_le_bytes());
    push_string(&mut manifest, "rustc");
    push_string(&mut manifest, "lib.rs");
    manifest.extend_from_slice(&PLACEMENT_RECORD.to_le_bytes());
    push_string(&mut manifest, "example");
    push_string(&mut manifest, "example::kernel");
    manifest.extend_from_slice(&0_u32.to_le_bytes());
    push_string(&mut manifest, "example::kernel::<u64>");
    push_string(&mut manifest, "defined");
    push_string(&mut manifest, "example-cgu.0");
    push_string(&mut manifest, "External");
    push_string(&mut manifest, "Default");
    manifest.extend_from_slice(&0_u32.to_le_bytes());
    manifest.extend_from_slice(&32_u64.to_le_bytes());
    manifest.extend_from_slice(&END_RECORD.to_le_bytes());
    manifest
}

fn failure() -> SourceError {
    SourceError { kind: FailureKind::Other, message: "fixture".to_owned() }
}

fn entry(path: &str) -> Result<DirectoryEntry, SourceError> {
    Ok(DirectoryEntry {
        is_file: true,
        name: path.rsplit('/').next().unwrap().to_owned(),
        path: path.to_owned(),
    })
}

fn opened(
    contents: &[u8],
) -> Result<(LoadedReader, Result<u64, SourceError>), SourceError> {
    Ok((LoadedReader::new(contents.to_vec(), None), Ok(contents.len() as u64)))
}

/// What the outside steps of an ingestion answer.
struct World {
    remarks: bool,
    manifest: Vec<u8>,
    disassembles: bool,
    text: &'static str,
    removes: bool,
    remark_text: String,
}

fn world() -> World {
    World {
        remarks: true,
        manifest: manifest(),
        disassembles: true,
        text: MODULE,
        removes: true,
        remark_text: REMARK.to_owned(),
    }
}

struct Ended {
    result: Result<EvidenceMetadata, Error>,
    events: Vec<String>,
    removals: usize,
}

fn name(event: &EvidenceEvent) -> String {
    match event {
        EvidenceEvent::Placement { record } => format!("placement {}", record.raw_symbol),
        EvidenceEvent::ModuleStarted { module } => format!("module {}", module.text_path),
        EvidenceEvent::RemarkFileStarted { file } => format!("file {}", file.name),
        EvidenceEvent::Remark { remark } => format!("remark {}", remark.remark_name),
        _ => "symbol".to_owned(),
    }
}

impl World {
    fn ingest(&self) -> Ended {
        let request = request(self.remarks);
        let mut state = Ingestion::new(compilation(&request));
        let mut events = Vec::new();
        let mut removals = 0;
        let mut walk =
            vec![entry("/analysis/remarks/b.opt.opt.yaml"), entry("/analysis/remarks/a.opt.opt.yaml")]
                .into_iter();
        loop {
            let reply = match state.step() {
                IngestionStep::Requiring => IngestionReply::Evidence(
                    true,
                    Ok(vec![PathItem { path: "/analysis/b.bc".to_owned() }]),
                ),
                IngestionStep::Opening => IngestionReply::Opened(opened(&self.manifest)),
                IngestionStep::Listing => IngestionReply::Entries(vec![
                    entry("/analysis/b.bc"),
                    entry("/analysis/notes.txt"),
                    entry("/analysis/a.bc"),
                ]),
                IngestionStep::Disassembling(index, run) => {
                    let path = state.module(*index).unwrap();
                    assert_eq!(path, ["/analysis/a.bc", "/analysis/b.bc"][*index]);
                    IngestionReply::Disassembly(match run {
                        Disassembly::Starting => DisassemblyReply::Started(Ok(())),
                        Disassembly::Reading(_) => DisassemblyReply::Read(Ok(Vec::new())),
                        _ => DisassemblyReply::Ended(Ok(ExitReport {
                            success: self.disassembles,
                            status: "exit status: 1".to_owned(),
                        })),
                    })
                }
                IngestionStep::OpeningText(_) => {
                    IngestionReply::Opened(opened(self.text.as_bytes()))
                }
                IngestionStep::Removing(_, _) => {
                    removals += 1;
                    IngestionReply::Removed(if self.removes { Ok(()) } else { Err(failure()) })
                }
                IngestionStep::Walking(_) => IngestionReply::Entry(walk.next()),
                IngestionStep::Measuring(_, _) => {
                    IngestionReply::Measured(Ok(self.remark_text.len() as u64))
                }
                IngestionStep::OpeningFile(_) => {
                    IngestionReply::Opened(opened(self.remark_text.as_bytes()))
                }
                IngestionStep::Placements(_)
                | IngestionStep::Scanning(_, _)
                | IngestionStep::StartingFile(_)
                | IngestionStep::Reading(_, _) => IngestionReply::Continue,
                IngestionStep::Done => break,
            };
            match ingest_with_events(&request, state, reply) {
                Ok((next, event)) => {
                    events.extend(event.as_ref().map(name));
                    state = next;
                }
                Err(error) => return Ended { result: Err(error), events, removals },
            }
        }
        Ended { result: Ok(state.finish(&request).unwrap()), events, removals }
    }

    fn message(&self) -> String {
        match self.ingest().result {
            Err(error) => error.message(),
            Ok(_) => panic!("the ingestion fails"),
        }
    }
}

#[test]
fn evidence_is_reported_in_one_order() {
    let ended = world().ingest();
    assert_eq!(
        ended.events,
        [
            "placement defined",
            "module /analysis/a.bc.ll",
            "symbol",
            "symbol",
            "module /analysis/b.bc.ll",
            "symbol",
            "symbol",
            "file a.opt.opt.yaml",
            "remark Inlined",
            "file b.opt.opt.yaml",
            "remark Inlined",
        ]
    );
    assert_eq!(ended.removals, 2);

    let metadata = ended.result.ok().unwrap();
    assert!(metadata.remarks_captured);
    assert_eq!(metadata.toolchain.commit_hash, "commit");
    let rustc = metadata.invocation.rustc.unwrap();
    assert_eq!((rustc.program.as_str(), rustc.arguments.len()), ("rustc", 1));
}

#[test]
fn remarks_are_read_only_on_request() {
    let ended = World { remarks: false, ..world() }.ingest();
    assert!(!ended.result.ok().unwrap().remarks_captured);
    assert_eq!(ended.events.len(), 7);
}

#[test]
fn generated_text_is_removed_before_a_module_fails() {
    let failed = World { disassembles: false, ..world() }.ingest();
    assert_eq!((failed.removals, failed.events.len()), (1, 1));
    assert!(failed.result.err().unwrap().message().contains("exit status: 1"));

    let malformed = World { text: "define void\n", removes: false, ..world() }.ingest();
    assert_eq!(malformed.removals, 1);
    assert!(!malformed.result.err().unwrap().message().contains("fixture"));

    assert!(World { removes: false, ..world() }.message().contains("fixture"));
}

#[test]
fn remark_files_start_before_they_are_parsed() {
    let broken = World { remark_text: format!("{REMARK}--- !Passed\nPass: [\n...\n"), ..world() };
    let ended = broken.ingest();
    assert!(ended.result.is_err());
    assert_eq!(ended.events[7..], ["file a.opt.opt.yaml", "remark Inlined"]);
}

#[test]
fn manifests_are_complete_before_modules_are_read() {
    let complete = manifest();
    let cut = World { manifest: complete[..complete.len() - 4].to_vec(), ..world() }.ingest();
    assert!(cut.result.is_err());
    assert_eq!((cut.events.len(), cut.removals), (1, 0));

    let request = request(false);
    let state: Ingestion<LoadedReader> = Ingestion::new(compilation(&request));
    assert!(state.finish(&request).is_none());
}
