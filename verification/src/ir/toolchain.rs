//! Discovers Cargo's selected compiler and its matching LLVM tools.
//!
//! Cargo configuration, explicit compiler environment variables, and the active rustup override
//! can all select a compiler. [`CargoContext`] resolves that selection once so configuration
//! discovery, capture, and the exact-version driver use the same Cargo and rustc commands.
//!
//! [`Inspection`] names the outside steps one after the other and decides what follows from each.

use super::error::{
    filesystem_failure, process_failure, EnvironmentProblem, Error, ErrorData, Failure,
};
use crate::chars;
use crate::chars::{
    add_text, contains, copy_option, lines, no_texts, rsplit_once, split_once, starts_with,
    strip_prefix, trim,
};
use crate::json::parse_json_string;
use crate::paths;
use crate::paths::{file_name, is_absolute, join, parent};
use crate::process;
use crate::process::{require_success, ProcessOutput};
use crate::source::SourceError;
use crate::text::{lossy_text, same_text};
use vstd::prelude::*;
use vstd::string::StringExecFns;

verus! {

/// The environment variables that select tools.
#[derive(Debug, PartialEq, Eq)]
pub struct ToolEnvironment {
    /// The value of `CARGO`.
    pub cargo: Option<String>,
    /// The value of `RUSTC`.
    pub rustc: Option<String>,
    /// The value of `RUSTC_WRAPPER`.
    pub rustc_wrapper: Option<String>,
    /// The value of `RUSTC_WORKSPACE_WRAPPER`.
    pub rustc_workspace_wrapper: Option<String>,
}

/// The mathematical counterpart of [`ToolEnvironment`].
pub struct ToolEnvironmentData {
    /// The value of `CARGO`.
    pub cargo: Option<Seq<char>>,
    /// The value of `RUSTC`.
    pub rustc: Option<Seq<char>>,
    /// The value of `RUSTC_WRAPPER`.
    pub rustc_wrapper: Option<Seq<char>>,
    /// The value of `RUSTC_WORKSPACE_WRAPPER`.
    pub rustc_workspace_wrapper: Option<Seq<char>>,
}

impl View for ToolEnvironment {
    type V = ToolEnvironmentData;

    open spec fn view(&self) -> ToolEnvironmentData {
        ToolEnvironmentData {
            cargo: crate::chars::option_view(self.cargo),
            rustc: crate::chars::option_view(self.rustc),
            rustc_wrapper: crate::chars::option_view(self.rustc_wrapper),
            rustc_workspace_wrapper: crate::chars::option_view(self.rustc_workspace_wrapper),
        }
    }
}

/// Cargo and compiler commands selected for one workspace.
#[derive(Debug, PartialEq, Eq)]
pub struct CargoContext {
    /// The Cargo workspace.
    pub workspace_root: String,
    /// The Cargo program.
    pub cargo: String,
    /// The compiler program.
    pub rustc: String,
    /// The configured wrapper of every compiler invocation.
    pub global_wrapper: Option<String>,
    /// The configured wrapper of workspace invocations.
    pub workspace_wrapper: Option<String>,
}

/// The mathematical counterpart of [`CargoContext`].
pub struct CargoContextData {
    /// The Cargo workspace.
    pub workspace_root: Seq<char>,
    /// The Cargo program.
    pub cargo: Seq<char>,
    /// The compiler program.
    pub rustc: Seq<char>,
    /// The configured wrapper of every compiler invocation.
    pub global_wrapper: Option<Seq<char>>,
    /// The configured wrapper of workspace invocations.
    pub workspace_wrapper: Option<Seq<char>>,
}

impl View for CargoContext {
    type V = CargoContextData;

    open spec fn view(&self) -> CargoContextData {
        CargoContextData {
            workspace_root: self.workspace_root@,
            cargo: self.cargo@,
            rustc: self.rustc@,
            global_wrapper: crate::chars::option_view(self.global_wrapper),
            workspace_wrapper: crate::chars::option_view(self.workspace_wrapper),
        }
    }
}

impl Clone for CargoContext {
    fn clone(&self) -> (result: Self)
        ensures
            result@ == self@,
    {
        CargoContext {
            workspace_root: self.workspace_root.clone(),
            cargo: self.cargo.clone(),
            rustc: self.rustc.clone(),
            global_wrapper: copy_option(&self.global_wrapper),
            workspace_wrapper: copy_option(&self.workspace_wrapper),
        }
    }
}

/// A program that Cargo configuration names.
#[derive(Debug, PartialEq, Eq)]
pub struct ConfiguredProgram {
    /// The program, relative to where Cargo looks it up.
    pub value: String,
}

/// The mathematical counterpart of [`ConfiguredProgram`].
pub struct ConfiguredProgramData {
    /// The program, relative to where Cargo looks it up.
    pub value: Seq<char>,
}

impl View for ConfiguredProgram {
    type V = ConfiguredProgramData;

    open spec fn view(&self) -> ConfiguredProgramData {
        ConfiguredProgramData {
            value: self.value@,
        }
    }
}

impl Clone for ConfiguredProgram {
    fn clone(&self) -> (result: Self)
        ensures
            result@ == self@,
    {
        ConfiguredProgram {
            value: self.value.clone(),
        }
    }
}

/// The mathematical counterpart of an optional value.
pub open spec fn configured_program_option(value: Option<ConfiguredProgram>) -> Option<ConfiguredProgramData> {
    match value {
        Some(value) => Some(value@),
        None => None,
    }
}

/// The programs that Cargo configuration names.
#[derive(Debug, PartialEq, Eq)]
pub struct CargoConfiguration {
    /// The compiler.
    pub rustc: Option<ConfiguredProgram>,
    /// The wrapper of every compiler invocation.
    pub global_wrapper: Option<ConfiguredProgram>,
    /// The wrapper of workspace invocations.
    pub workspace_wrapper: Option<ConfiguredProgram>,
}

/// The mathematical counterpart of [`CargoConfiguration`].
pub struct CargoConfigurationData {
    /// The compiler.
    pub rustc: Option<ConfiguredProgramData>,
    /// The wrapper of every compiler invocation.
    pub global_wrapper: Option<ConfiguredProgramData>,
    /// The wrapper of workspace invocations.
    pub workspace_wrapper: Option<ConfiguredProgramData>,
}

impl View for CargoConfiguration {
    type V = CargoConfigurationData;

    open spec fn view(&self) -> CargoConfigurationData {
        CargoConfigurationData {
            rustc: configured_program_option(self.rustc),
            global_wrapper: configured_program_option(self.global_wrapper),
            workspace_wrapper: configured_program_option(self.workspace_wrapper),
        }
    }
}

/// The exact active compiler and matching LLVM disassembler.
#[derive(Debug, PartialEq, Eq)]
pub struct Toolchain {
    /// The compiler executable selected by Cargo.
    pub rustc: String,
    /// The rustc release string.
    pub release: String,
    /// The rustc commit hash.
    pub commit_hash: String,
    /// The compiler host triple.
    pub host: String,
    /// The embedded LLVM version.
    pub llvm_version: String,
    /// The canonical compiler sysroot.
    pub sysroot: String,
    /// The directory that contains rustc-private libraries for this host.
    pub rustc_private_lib: String,
    /// The matching `llvm-dis` executable.
    pub llvm_dis: String,
    /// The rustup toolchain directory name, when the sysroot proves one.
    pub rustup_toolchain: Option<String>,
}

/// The mathematical counterpart of [`Toolchain`].
pub struct ToolchainData {
    /// The compiler executable selected by Cargo.
    pub rustc: Seq<char>,
    /// The rustc release string.
    pub release: Seq<char>,
    /// The rustc commit hash.
    pub commit_hash: Seq<char>,
    /// The compiler host triple.
    pub host: Seq<char>,
    /// The embedded LLVM version.
    pub llvm_version: Seq<char>,
    /// The canonical compiler sysroot.
    pub sysroot: Seq<char>,
    /// The directory that contains rustc-private libraries for this host.
    pub rustc_private_lib: Seq<char>,
    /// The matching `llvm-dis` executable.
    pub llvm_dis: Seq<char>,
    /// The rustup toolchain directory name, when the sysroot proves one.
    pub rustup_toolchain: Option<Seq<char>>,
}

impl View for Toolchain {
    type V = ToolchainData;

    open spec fn view(&self) -> ToolchainData {
        ToolchainData {
            rustc: self.rustc@,
            release: self.release@,
            commit_hash: self.commit_hash@,
            host: self.host@,
            llvm_version: self.llvm_version@,
            sysroot: self.sysroot@,
            rustc_private_lib: self.rustc_private_lib@,
            llvm_dis: self.llvm_dis@,
            rustup_toolchain: crate::chars::option_view(self.rustup_toolchain),
        }
    }
}

impl Clone for Toolchain {
    fn clone(&self) -> (result: Self)
        ensures
            result@ == self@,
    {
        Toolchain {
            rustc: self.rustc.clone(),
            release: self.release.clone(),
            commit_hash: self.commit_hash.clone(),
            host: self.host.clone(),
            llvm_version: self.llvm_version.clone(),
            sysroot: self.sysroot.clone(),
            rustc_private_lib: self.rustc_private_lib.clone(),
            llvm_dis: self.llvm_dis.clone(),
            rustup_toolchain: copy_option(&self.rustup_toolchain),
        }
    }
}

/// What the compiler reports about itself.
#[derive(Debug, PartialEq, Eq)]
pub struct CompilerFacts {
    /// The release string.
    pub release: String,
    /// The commit hash.
    pub commit_hash: String,
    /// The host triple.
    pub host: String,
    /// The embedded LLVM version.
    pub llvm_version: String,
}

/// The mathematical counterpart of [`CompilerFacts`].
pub struct CompilerFactsData {
    /// The release string.
    pub release: Seq<char>,
    /// The commit hash.
    pub commit_hash: Seq<char>,
    /// The host triple.
    pub host: Seq<char>,
    /// The embedded LLVM version.
    pub llvm_version: Seq<char>,
}

impl View for CompilerFacts {
    type V = CompilerFactsData;

    open spec fn view(&self) -> CompilerFactsData {
        CompilerFactsData {
            release: self.release@,
            commit_hash: self.commit_hash@,
            host: self.host@,
            llvm_version: self.llvm_version@,
        }
    }
}

/// A program path has a directory in it.
pub open spec fn has_separator(path: Seq<char>) -> bool {
    path.contains('/')
}

/// The path of a program that was named relative to a base.
pub open spec fn resolved(value: Seq<char>, base: Seq<char>) -> Seq<char> {
    if paths::absolute(value) || !has_separator(value) {
        value
    } else {
        paths::joined(base, value)
    }
}

fn has_path_separator(path: &str) -> (result: bool)
    ensures
        result == has_separator(path@),
{
    let all = chars::chars_of(path);
    let mut index: usize = 0;
    while index < all.len()
        invariant
            index <= all@.len(),
            all@ == path@,
            forall|i: int| 0 <= i < index ==> all@[i] != '/',
        decreases all.len() - index,
    {
        if all[index] == '/' {
            assert(path@[index as int] == '/');
            return true;
        }
        index += 1;
    }
    false
}

/// Resolves a program path. A bare name stays for the path lookup.
pub fn resolve_program_path(value: String, base: &str) -> (result: String)
    ensures
        result@ == resolved(value@, base@),
{
    if is_absolute(value.as_str()) || !has_path_separator(value.as_str()) {
        return value;
    }
    join(base, value.as_str())
}

/// The directory to which a configured path is relative.
pub open spec fn base_of(origin: Seq<char>, workspace_root: Seq<char>) -> Seq<char> {
    if "environment variable `"@.is_prefix_of(origin) || "command line"@.is_prefix_of(origin) {
        workspace_root
    } else {
        match paths::parent_of(origin) {
            None => workspace_root,
            Some(directory) => match paths::parent_of(directory) {
                None => workspace_root,
                Some(base) => base,
            },
        }
    }
}

/// Returns the directory to which a configured path is relative.
pub fn configuration_base(origin: &str, workspace_root: &str) -> (result: String)
    ensures
        result@ == base_of(origin@, workspace_root@),
{
    if starts_with(origin, "environment variable `") || starts_with(origin, "command line") {
        return String::from_str(workspace_root);
    }
    match parent(origin) {
        None => String::from_str(workspace_root),
        Some(directory) => match parent(directory.as_str()) {
            None => String::from_str(workspace_root),
            Some(base) => base,
        },
    }
}

impl ConfiguredProgram {
    /// Resolves a configured program.
    pub fn new(value: String, origin: &str, workspace_root: &str) -> (result: Self)
        ensures
            result@.value == resolved(value@, base_of(origin@, workspace_root@)),
    {
        let base = configuration_base(origin, workspace_root);
        ConfiguredProgram { value: resolve_program_path(value, base.as_str()) }
    }
}

/// A configuration without programs.
pub open spec fn no_programs() -> CargoConfigurationData {
    CargoConfigurationData { rustc: None, global_wrapper: None, workspace_wrapper: None }
}

impl Default for CargoConfiguration {
    fn default() -> (result: Self)
        ensures
            result@ == no_programs(),
    {
        CargoConfiguration { rustc: None, global_wrapper: None, workspace_wrapper: None }
    }
}

/// A configuration with one more program.
pub open spec fn with_program(
    configuration: CargoConfigurationData,
    field: Seq<char>,
    program: ConfiguredProgramData,
) -> CargoConfigurationData {
    if field == "build.rustc"@ {
        CargoConfigurationData { rustc: Some(program), ..configuration }
    } else if field == "build.rustc-wrapper"@ {
        CargoConfigurationData { global_wrapper: Some(program), ..configuration }
    } else {
        CargoConfigurationData { workspace_wrapper: Some(program), ..configuration }
    }
}

/// A configuration field that names a program.
pub open spec fn program_field(field: Seq<char>) -> bool {
    field == "build.rustc"@ || field == "build.rustc-wrapper"@ || field
        == "build.rustc-workspace-wrapper"@
}

/// The configuration behind a field with a decoded value.
pub open spec fn with_value(
    configuration: CargoConfigurationData,
    field: Seq<char>,
    decoded: Result<Seq<char>, Seq<char>>,
    origin: Seq<char>,
    workspace_root: Seq<char>,
) -> Result<CargoConfigurationData, ErrorData> {
    match decoded {
        Err(problem) => Err(
            Failure::CompilerEnvironment {
                problem: EnvironmentProblem::InvalidValue { field, problem },
            },
        ),
        Ok(value) => Ok(
            with_program(
                configuration,
                field,
                ConfiguredProgramData { value: resolved(value, base_of(origin, workspace_root)) },
            ),
        ),
    }
}

/// The configuration behind a line of Cargo output.
pub open spec fn with_line(
    configuration: CargoConfigurationData,
    line: Seq<char>,
    workspace_root: Seq<char>,
) -> Result<CargoConfigurationData, ErrorData> {
    match chars::split_first(line, " = "@) {
        None => Ok(configuration),
        Some((field, remainder)) => if !program_field(field) {
            Ok(configuration)
        } else {
            match chars::split_last(remainder, " # "@) {
                None => Err(
                    Failure::CompilerEnvironment { problem: EnvironmentProblem::NoOrigin { field } },
                ),
                Some((encoded, origin)) => with_value(
                    configuration,
                    field,
                    crate::json::json_string(encoded),
                    origin,
                    workspace_root,
                ),
            }
        },
    }
}

/// The configuration behind lines of Cargo output.
pub open spec fn with_lines(
    configuration: CargoConfigurationData,
    lines: Seq<Seq<char>>,
    workspace_root: Seq<char>,
) -> Result<CargoConfigurationData, ErrorData>
    decreases lines.len(),
{
    if lines.len() == 0 {
        Ok(configuration)
    } else {
        match with_line(configuration, lines[0], workspace_root) {
            Err(error) => Err(error),
            Ok(more) => with_lines(more, lines.skip(1), workspace_root),
        }
    }
}

/// A configuration or an error agrees with the expected one.
pub open spec fn configuration_agrees(
    result: Result<CargoConfiguration, Error>,
    expected: Result<CargoConfigurationData, ErrorData>,
) -> bool {
    match (result, expected) {
        (Ok(configuration), Ok(meant)) => configuration@ == meant,
        (Err(error), Err(meant)) => error@ == meant,
        _ => false,
    }
}

/// The configuration that the output of Cargo describes.
pub open spec fn configuration_of(
    launched: Result<ProcessOutput, SourceError>,
    program: Seq<char>,
    workspace_root: Seq<char>,
) -> Result<CargoConfigurationData, ErrorData> {
    match launched {
        Err(source) => Err(Failure::StartProcess { program, source }),
        Ok(output) => if !output.report.success {
            let diagnostics = crate::text::lossy(output.stderr@);
            if chars::has(diagnostics, "config value `build` is not set"@) {
                Ok(no_programs())
            } else {
                Err(Failure::ProcessFailed { program, status: output.report.status@, diagnostics })
            }
        } else {
            with_lines(
                no_programs(),
                chars::lines_of(crate::text::lossy(output.stdout@)),
                workspace_root,
            )
        },
    }
}

impl CargoConfiguration {
    /// Takes what Cargo printed for its `build` configuration with origins.
    pub fn read(
        launched: Result<ProcessOutput, SourceError>,
        program: &str,
        workspace_root: &str,
    ) -> (result: Result<Self, Error>)
        ensures
            configuration_agrees(result, configuration_of(launched, program@, workspace_root@)),
    {
        match launched {
            Err(source) => Err(
                Failure::StartProcess { program: String::from_str(program), source },
            ),
            Ok(output) => if !output.report.success {
                let diagnostics = lossy_text(output.stderr.as_slice());
                if contains(diagnostics.as_str(), "config value `build` is not set") {
                    Ok(CargoConfiguration::default())
                } else {
                    Err(
                        Failure::ProcessFailed {
                            program: String::from_str(program),
                            status: output.report.status,
                            diagnostics,
                        },
                    )
                }
            } else {
                let text = lossy_text(output.stdout.as_slice());
                CargoConfiguration::parse(text.as_str(), workspace_root)
            },
        }
    }

    /// Reads the lines that name a program.
    pub fn parse(output: &str, workspace_root: &str) -> (result: Result<Self, Error>)
        ensures
            configuration_agrees(
                result,
                with_lines(no_programs(), chars::lines_of(output@), workspace_root@),
            ),
    {
        let mut configuration = CargoConfiguration::default();
        let list = lines(output);
        let ghost all = chars::views(list@);
        let mut index: usize = 0;
        assert(all.skip(0) =~= all);
        while index < list.len()
            invariant
                index <= list@.len(),
                all == chars::views(list@),
                all == chars::lines_of(output@),
                with_lines(configuration@, all.skip(index as int), workspace_root@) == with_lines(
                    no_programs(),
                    all,
                    workspace_root@,
                ),
            decreases list.len() - index,
        {
            assert(all.skip(index as int)[0] == list@[index as int]@);
            assert(all.skip(index as int).skip(1) =~= all.skip(index + 1));
            match configuration.accept_line(list[index].as_str(), workspace_root) {
                Err(error) => {
                    return Err(error);
                },
                Ok(more) => {
                    configuration = more;
                },
            }
            index += 1;
        }
        assert(all.skip(index as int).len() == 0);
        Ok(configuration)
    }

    fn accept_line(self, line: &str, workspace_root: &str) -> (result: Result<Self, Error>)
        ensures
            configuration_agrees(result, with_line(self@, line@, workspace_root@)),
    {
        match split_once(line, " = ") {
            None => Ok(self),
            Some((field, remainder)) => {
                if !(same_text(field.as_str(), "build.rustc") || same_text(
                    field.as_str(),
                    "build.rustc-wrapper",
                ) || same_text(field.as_str(), "build.rustc-workspace-wrapper")) {
                    return Ok(self);
                }
                match rsplit_once(remainder.as_str(), " # ") {
                    None => Err(
                        Failure::CompilerEnvironment {
                            problem: EnvironmentProblem::NoOrigin { field },
                        },
                    ),
                    Some((encoded, origin)) => {
                        let decoded = parse_json_string(encoded.as_str());
                        self.accept_value(field, decoded, origin.as_str(), workspace_root)
                    },
                }
            },
        }
    }

    /// Takes the decoded value of a field that names a program.
    pub fn accept_value(
        self,
        field: String,
        decoded: Result<String, String>,
        origin: &str,
        workspace_root: &str,
    ) -> (result: Result<Self, Error>)
        ensures
            configuration_agrees(
                result,
                with_value(self@, field@, decoded_view(decoded), origin@, workspace_root@),
            ),
    {
        match decoded {
            Err(problem) => Err(
                Failure::CompilerEnvironment {
                    problem: EnvironmentProblem::InvalidValue { field, problem },
                },
            ),
            Ok(value) => {
                let program = ConfiguredProgram::new(value, origin, workspace_root);
                Ok(
                    if same_text(field.as_str(), "build.rustc") {
                        CargoConfiguration { rustc: Some(program), ..self }
                    } else if same_text(field.as_str(), "build.rustc-wrapper") {
                        CargoConfiguration { global_wrapper: Some(program), ..self }
                    } else {
                        CargoConfiguration { workspace_wrapper: Some(program), ..self }
                    },
                )
            },
        }
    }
}

/// The characters of a decoded value or of what is wrong with it.
pub open spec fn decoded_view(decoded: Result<String, String>) -> Result<Seq<char>, Seq<char>> {
    match decoded {
        Ok(value) => Ok(value@),
        Err(problem) => Err(problem@),
    }
}

/// The Cargo program that an environment selects.
pub open spec fn cargo_program(cargo: Option<Seq<char>>) -> Seq<char> {
    match cargo {
        Some(cargo) => if cargo.len() > 0 {
            cargo
        } else {
            "cargo"@
        },
        None => "cargo"@,
    }
}

/// Selects the Cargo program. An empty variable does not count.
pub fn selected_cargo(cargo: &Option<String>) -> (result: String)
    ensures
        result@ == cargo_program(chars::option_view(*cargo)),
{
    match cargo {
        Some(cargo) => if !cargo.as_str().is_empty() {
            cargo.clone()
        } else {
            String::from_str("cargo")
        },
        None => String::from_str("cargo"),
    }
}

/// The program that environment and configuration select.
pub open spec fn effective_program(
    environment: Option<Seq<char>>,
    configured: Option<ConfiguredProgramData>,
    default: Seq<char>,
    workspace_root: Seq<char>,
) -> Seq<char> {
    match environment {
        Some(value) => resolved(value, workspace_root),
        None => match configured {
            Some(program) => program.value,
            None => default,
        },
    }
}

/// Selects a program. An explicit environment variable overrides Cargo configuration.
pub fn effective_program_from(
    environment: Option<String>,
    configured: Option<&ConfiguredProgram>,
    default: &str,
    workspace_root: &str,
) -> (result: String)
    ensures
        result@ == effective_program(
            chars::option_view(environment),
            match configured {
                Some(program) => Some(program@),
                None => None,
            },
            default@,
            workspace_root@,
        ),
{
    match environment {
        Some(value) => resolve_program_path(value, workspace_root),
        None => match configured {
            Some(program) => program.value.clone(),
            None => String::from_str(default),
        },
    }
}

/// The wrapper that environment and configuration select.
pub open spec fn effective_wrapper(
    environment: Option<Seq<char>>,
    configured: Option<ConfiguredProgramData>,
    workspace_root: Seq<char>,
) -> Option<Seq<char>> {
    match environment {
        Some(value) => if value.len() == 0 {
            None
        } else {
            Some(resolved(value, workspace_root))
        },
        None => match configured {
            Some(program) => Some(program.value),
            None => None,
        },
    }
}

/// Selects a wrapper. An empty environment variable disables the configured one.
pub fn effective_wrapper_from(
    environment: Option<String>,
    configured: Option<&ConfiguredProgram>,
    workspace_root: &str,
) -> (result: Option<String>)
    ensures
        chars::option_view(result) == effective_wrapper(
            chars::option_view(environment),
            match configured {
                Some(program) => Some(program@),
                None => None,
            },
            workspace_root@,
        ),
{
    match environment {
        Some(value) => if value.as_str().is_empty() {
            None
        } else {
            Some(resolve_program_path(value, workspace_root))
        },
        None => match configured {
            Some(program) => Some(program.value.clone()),
            None => None,
        },
    }
}

/// The commands that environment and configuration select for a workspace.
pub open spec fn context_of(
    workspace_root: Seq<char>,
    environment: ToolEnvironmentData,
    configuration: CargoConfigurationData,
) -> CargoContextData {
    CargoContextData {
        workspace_root,
        cargo: cargo_program(environment.cargo),
        rustc: effective_program(
            environment.rustc,
            configuration.rustc,
            "rustc"@,
            workspace_root,
        ),
        global_wrapper: effective_wrapper(
            environment.rustc_wrapper,
            configuration.global_wrapper,
            workspace_root,
        ),
        workspace_wrapper: effective_wrapper(
            environment.rustc_workspace_wrapper,
            configuration.workspace_wrapper,
            workspace_root,
        ),
    }
}

impl CargoContext {
    /// Selects the commands for a workspace.
    pub fn discover(
        workspace_root: &str,
        environment: &ToolEnvironment,
        configuration: &CargoConfiguration,
    ) -> (result: Self)
        ensures
            result@ == context_of(workspace_root@, environment@, configuration@),
    {
        CargoContext {
            workspace_root: String::from_str(workspace_root),
            cargo: selected_cargo(&environment.cargo),
            rustc: effective_program_from(
                copy_option(&environment.rustc),
                configuration.rustc.as_ref(),
                "rustc",
                workspace_root,
            ),
            global_wrapper: effective_wrapper_from(
                copy_option(&environment.rustc_wrapper),
                configuration.global_wrapper.as_ref(),
                workspace_root,
            ),
            workspace_wrapper: effective_wrapper_from(
                copy_option(&environment.rustc_workspace_wrapper),
                configuration.workspace_wrapper.as_ref(),
                workspace_root,
            ),
        }
    }
}

/// What follows a name and a colon on the first line that has them.
pub open spec fn field_value(lines: Seq<Seq<char>>, name: Seq<char>) -> Option<Seq<char>>
    decreases lines.len(),
{
    if lines.len() == 0 {
        None
    } else {
        match chars::behind(lines[0], name) {
            None => field_value(lines.skip(1), name),
            Some(rest) => match chars::behind(rest, ":"@) {
                None => field_value(lines.skip(1), name),
                Some(value) => Some(value),
            },
        }
    }
}

/// The value of a field in compiler version output.
pub open spec fn field_of(verbose: Seq<char>, name: Seq<char>) -> Option<Seq<char>> {
    match field_value(chars::lines_of(verbose), name) {
        None => None,
        Some(value) => if chars::trimmed(value).len() > 0 {
            Some(chars::trimmed(value))
        } else {
            None
        },
    }
}

/// Finds a field in compiler version output.
pub fn find_field(verbose: &str, name: &str) -> (result: Option<String>)
    ensures
        chars::option_view(result) == field_of(verbose@, name@),
{
    let list = lines(verbose);
    let ghost all = chars::views(list@);
    let mut index: usize = 0;
    assert(all.skip(0) =~= all);
    while index < list.len()
        invariant
            index <= list@.len(),
            all == chars::views(list@),
            all == chars::lines_of(verbose@),
            field_value(all.skip(index as int), name@) == field_value(all, name@),
        decreases list.len() - index,
    {
        assert(all.skip(index as int)[0] == list@[index as int]@);
        assert(all.skip(index as int).skip(1) =~= all.skip(index + 1));
        if let Some(rest) = strip_prefix(list[index].as_str(), name) {
            if let Some(value) = strip_prefix(rest.as_str(), ":") {
                let text = trim(value.as_str());
                if text.as_str().is_empty() {
                    return None;
                }
                return Some(text);
            }
        }
        index += 1;
    }
    assert(all.skip(index as int).len() == 0);
    None
}

/// Requires a field in compiler version output.
pub fn field(verbose: &str, name: &str) -> (result: Result<String, Error>)
    ensures
        match (result, field_of(verbose@, name@)) {
            (Ok(value), Some(expected)) => value@ == expected,
            (Err(error), None) => error@ == (Failure::MissingToolchainField { field: name@ }),
            _ => false,
        },
{
    match find_field(verbose, name) {
        Some(value) => Ok(value),
        None => Err(Failure::MissingToolchainField { field: String::from_str(name) }),
    }
}

/// What the compiler reports about itself in its version output.
pub open spec fn facts_of(verbose: Seq<char>) -> Result<CompilerFactsData, ErrorData> {
    match field_of(verbose, "release"@) {
        None => Err(Failure::MissingToolchainField { field: "release"@ }),
        Some(release) => match field_of(verbose, "commit-hash"@) {
            None => Err(Failure::MissingToolchainField { field: "commit-hash"@ }),
            Some(commit_hash) => match field_of(verbose, "host"@) {
                None => Err(Failure::MissingToolchainField { field: "host"@ }),
                Some(host) => match field_of(verbose, "LLVM version"@) {
                    None => Err(Failure::MissingToolchainField { field: "LLVM version"@ }),
                    Some(llvm_version) => Ok(
                        CompilerFactsData { release, commit_hash, host, llvm_version },
                    ),
                },
            },
        },
    }
}

fn compiler_facts(verbose: &str) -> (result: Result<CompilerFacts, Error>)
    ensures
        match (result, facts_of(verbose@)) {
            (Ok(facts), Ok(expected)) => facts@ == expected,
            (Err(error), Err(expected)) => error@ == expected,
            _ => false,
        },
{
    let release = match field(verbose, "release") {
        Err(error) => {
            return Err(error);
        },
        Ok(value) => value,
    };
    let commit_hash = match field(verbose, "commit-hash") {
        Err(error) => {
            return Err(error);
        },
        Ok(value) => value,
    };
    let host = match field(verbose, "host") {
        Err(error) => {
            return Err(error);
        },
        Ok(value) => value,
    };
    match field(verbose, "LLVM version") {
        Err(error) => Err(error),
        Ok(llvm_version) => Ok(CompilerFacts { release, commit_hash, host, llvm_version }),
    }
}

/// The readable output of a compiler invocation, or why there is none.
pub open spec fn rustc_text(
    launched: Result<ProcessOutput, SourceError>,
    program: Seq<char>,
) -> Result<Seq<char>, ErrorData> {
    match launched {
        Err(source) => Err(Failure::StartProcess { program, source }),
        Ok(output) => if output.report.success {
            Ok(crate::text::lossy(output.stdout@))
        } else {
            Err(
                Failure::ProcessFailed {
                    program,
                    status: output.report.status@,
                    diagnostics: crate::text::lossy(output.stderr@),
                },
            )
        },
    }
}

/// Takes what a compiler invocation printed.
pub fn run_rustc(launched: Result<ProcessOutput, SourceError>, program: &str) -> (result: Result<
    String,
    Error,
>)
    ensures
        match (result, rustc_text(launched, program@)) {
            (Ok(text), Ok(expected)) => text@ == expected,
            (Err(error), Err(expected)) => error@ == expected,
            _ => false,
        },
{
    match require_success(launched) {
        Err(fault) => Err(process_failure(program, fault)),
        Ok(stdout) => Ok(lossy_text(stdout.as_slice())),
    }
}

/// The directory of a host in a sysroot.
pub open spec fn host_directory(sysroot: Seq<char>, host: Seq<char>) -> Seq<char> {
    paths::joined(paths::joined(paths::joined(sysroot, "lib"@), "rustlib"@), host)
}

/// The name of the rustup toolchain with a sysroot.
pub open spec fn toolchain_name(sysroot: Seq<char>) -> Option<Seq<char>> {
    match paths::parent_of(sysroot) {
        None => None,
        Some(directory) => if paths::name_of(directory) == Some("toolchains"@) {
            paths::name_of(sysroot)
        } else {
            None
        },
    }
}

/// Returns the rustup toolchain name that a sysroot proves.
pub fn rustup_toolchain_name(sysroot: &str) -> (result: Option<String>)
    ensures
        chars::option_view(result) == toolchain_name(sysroot@),
{
    match parent(sysroot) {
        None => None,
        Some(directory) => match file_name(directory.as_str()) {
            None => None,
            Some(name) => if same_text(name.as_str(), "toolchains") {
                file_name(sysroot)
            } else {
                None
            },
        },
    }
}

/// The toolchain of a compiler with a canonical sysroot.
pub open spec fn toolchain_of(
    rustc: Seq<char>,
    facts: CompilerFactsData,
    sysroot: Seq<char>,
) -> ToolchainData {
    let directory = host_directory(sysroot, facts.host);
    ToolchainData {
        rustc,
        release: facts.release,
        commit_hash: facts.commit_hash,
        host: facts.host,
        llvm_version: facts.llvm_version,
        sysroot,
        rustc_private_lib: paths::joined(directory, "lib"@),
        llvm_dis: paths::joined(paths::joined(directory, "bin"@), "llvm-dis"@),
        rustup_toolchain: toolchain_name(sysroot),
    }
}

fn assemble(rustc: &str, facts: CompilerFacts, sysroot: String) -> (result: Toolchain)
    ensures
        result@ == toolchain_of(rustc@, facts@, sysroot@),
{
    let library = join(sysroot.as_str(), "lib");
    let rustlib = join(library.as_str(), "rustlib");
    let directory = join(rustlib.as_str(), facts.host.as_str());
    let bin = join(directory.as_str(), "bin");
    Toolchain {
        rustc: String::from_str(rustc),
        release: facts.release,
        commit_hash: facts.commit_hash,
        host: facts.host,
        llvm_version: facts.llvm_version,
        rustc_private_lib: join(directory.as_str(), "lib"),
        llvm_dis: join(bin.as_str(), "llvm-dis"),
        rustup_toolchain: rustup_toolchain_name(sysroot.as_str()),
        sysroot,
    }
}

/// The command that installs a component of a toolchain.
pub open spec fn install_command(toolchain: Option<Seq<char>>, component: Seq<char>) -> Option<
    Seq<char>,
> {
    match toolchain {
        Some(name) => Some(
            "rustup component add --toolchain "@ + name + " "@ + component,
        ),
        None => None,
    }
}

/// Returns the command that installs a component of a toolchain, if the toolchain is known.
pub fn component_command(toolchain: &Option<String>, component: &str) -> (result: Option<String>)
    ensures
        chars::option_view(result) == install_command(chars::option_view(*toolchain), component@),
{
    match toolchain {
        Some(name) => {
            let mut command = String::from_str("rustup component add --toolchain ");
            command.append(name.as_str());
            command.append(" ");
            command.append(component);
            Some(command)
        },
        None => None,
    }
}

/// A toolchain is complete if its disassembler exists.
pub open spec fn complete_toolchain(toolchain: ToolchainData, present: bool) -> Result<
    ToolchainData,
    ErrorData,
> {
    if present {
        Ok(toolchain)
    } else {
        Err(
            Failure::MissingLlvmDis {
                release: toolchain.release,
                commit_hash: toolchain.commit_hash,
                path: toolchain.llvm_dis,
                install_command: install_command(toolchain.rustup_toolchain, "llvm-tools"@),
            },
        )
    }
}

/// How far the inspection of a toolchain has come.
pub enum Inspection {
    /// Cargo prints its configuration.
    Configuring,
    /// The compiler prints its version.
    Versioning(CargoContext),
    /// The compiler prints its sysroot.
    Locating(CargoContext, CompilerFacts),
    /// The sysroot is made canonical.
    Resolving(CargoContext, CompilerFacts, String),
    /// The disassembler is looked for.
    Testing(CargoContext, Toolchain),
    /// The inspection is over.
    Finished(Result<(CargoContext, Toolchain), Error>),
}

/// The mathematical counterpart of [`Inspection`].
pub enum InspectionData {
    /// Cargo prints its configuration.
    Configuring,
    /// The compiler prints its version.
    Versioning(CargoContextData),
    /// The compiler prints its sysroot.
    Locating(CargoContextData, CompilerFactsData),
    /// The sysroot is made canonical.
    Resolving(CargoContextData, CompilerFactsData, Seq<char>),
    /// The disassembler is looked for.
    Testing(CargoContextData, ToolchainData),
    /// The inspection is over.
    Finished(Result<(CargoContextData, ToolchainData), ErrorData>),
}

impl View for Inspection {
    type V = InspectionData;

    open spec fn view(&self) -> InspectionData {
        match self {
            Inspection::Configuring => InspectionData::Configuring,
            Inspection::Versioning(cargo) => InspectionData::Versioning(cargo@),
            Inspection::Locating(cargo, facts) => InspectionData::Locating(cargo@, facts@),
            Inspection::Resolving(cargo, facts, reported) => InspectionData::Resolving(
                cargo@,
                facts@,
                reported@,
            ),
            Inspection::Testing(cargo, toolchain) => InspectionData::Testing(cargo@, toolchain@),
            Inspection::Finished(Ok((cargo, toolchain))) => InspectionData::Finished(
                Ok((cargo@, toolchain@)),
            ),
            Inspection::Finished(Err(error)) => InspectionData::Finished(Err(error@)),
        }
    }
}

/// What an outside step of an inspection gave.
pub enum InspectionReply {
    /// A program ran.
    Ran(Result<ProcessOutput, SourceError>),
    /// A path was made canonical.
    Resolved(Result<String, SourceError>),
    /// A file was looked for.
    Found(bool),
}

/// An outside step of an inspection.
#[derive(Debug)]
pub enum InspectionStep {
    /// Run a program in the workspace.
    Run {
        /// The program.
        program: String,
        /// Its arguments.
        arguments: Vec<String>,
        /// Grant unstable access to this program alone.
        bootstrap: bool,
    },
    /// Make a path canonical.
    Resolve(String),
    /// Look for a regular file.
    Find(String),
    /// Nothing is left to do.
    Nothing,
}

/// The mathematical counterpart of [`InspectionStep`].
pub enum StepData {
    /// Run a program in the workspace.
    Run {
        /// The program.
        program: Seq<char>,
        /// Its arguments.
        arguments: Seq<Seq<char>>,
        /// Grant unstable access to this program alone.
        bootstrap: bool,
    },
    /// Make a path canonical.
    Resolve(Seq<char>),
    /// Look for a regular file.
    Find(Seq<char>),
    /// Nothing is left to do.
    Nothing,
}

impl View for InspectionStep {
    type V = StepData;

    open spec fn view(&self) -> StepData {
        match self {
            InspectionStep::Run { program, arguments, bootstrap } => StepData::Run {
                program: program@,
                arguments: chars::views(arguments@),
                bootstrap: *bootstrap,
            },
            InspectionStep::Resolve(path) => StepData::Resolve(path@),
            InspectionStep::Find(path) => StepData::Find(path@),
            InspectionStep::Nothing => StepData::Nothing,
        }
    }
}

/// The outside step that an inspection waits for.
pub open spec fn wanted_step(environment: ToolEnvironmentData, state: InspectionData) -> StepData {
    match state {
        InspectionData::Configuring => StepData::Run {
            program: cargo_program(environment.cargo),
            arguments: seq![
                "-Z"@,
                "unstable-options"@,
                "config"@,
                "get"@,
                "build"@,
                "--show-origin"@,
            ],
            bootstrap: true,
        },
        InspectionData::Versioning(cargo) => StepData::Run {
            program: cargo.rustc,
            arguments: seq!["-vV"@],
            bootstrap: false,
        },
        InspectionData::Locating(cargo, _) => StepData::Run {
            program: cargo.rustc,
            arguments: seq!["--print"@, "sysroot"@],
            bootstrap: false,
        },
        InspectionData::Resolving(_, _, reported) => StepData::Resolve(reported),
        InspectionData::Testing(_, toolchain) => StepData::Find(toolchain.llvm_dis),
        InspectionData::Finished(_) => StepData::Nothing,
    }
}

/// The state behind the reply to the step that an inspection waits for. Another reply changes
/// nothing.
pub open spec fn inspection_after(
    workspace_root: Seq<char>,
    environment: ToolEnvironmentData,
    state: InspectionData,
    reply: InspectionReply,
) -> InspectionData {
    match (state, reply) {
        (InspectionData::Configuring, InspectionReply::Ran(launched)) => match configuration_of(
            launched,
            cargo_program(environment.cargo),
            workspace_root,
        ) {
            Err(error) => InspectionData::Finished(Err(error)),
            Ok(configuration) => InspectionData::Versioning(
                context_of(workspace_root, environment, configuration),
            ),
        },
        (InspectionData::Versioning(cargo), InspectionReply::Ran(launched)) => match rustc_text(
            launched,
            cargo.rustc,
        ) {
            Err(error) => InspectionData::Finished(Err(error)),
            Ok(verbose) => match facts_of(verbose) {
                Err(error) => InspectionData::Finished(Err(error)),
                Ok(facts) => InspectionData::Locating(cargo, facts),
            },
        },
        (InspectionData::Locating(cargo, facts), InspectionReply::Ran(launched)) => match rustc_text(
            launched,
            cargo.rustc,
        ) {
            Err(error) => InspectionData::Finished(Err(error)),
            Ok(text) => InspectionData::Resolving(cargo, facts, chars::trimmed(text)),
        },
        (
            InspectionData::Resolving(cargo, facts, reported),
            InspectionReply::Resolved(resolution),
        ) => match resolution {
            Err(source) => InspectionData::Finished(
                Err(
                    Failure::Filesystem {
                        operation: "canonicalize compiler sysroot"@,
                        path: reported,
                        source,
                    },
                ),
            ),
            Ok(sysroot) => InspectionData::Testing(
                cargo,
                toolchain_of(cargo.rustc, facts, sysroot@),
            ),
        },
        (InspectionData::Testing(cargo, toolchain), InspectionReply::Found(present)) => match
            complete_toolchain(toolchain, present) {
            Err(error) => InspectionData::Finished(Err(error)),
            Ok(toolchain) => InspectionData::Finished(Ok((cargo, toolchain))),
        },
        _ => state,
    }
}

impl Inspection {
    /// Returns the outside step that the inspection waits for.
    pub fn step(&self, environment: &ToolEnvironment) -> (result: InspectionStep)
        ensures
            result@ == wanted_step(environment@, self@),
    {
        match self {
            Inspection::Configuring => {
                let mut arguments = no_texts();
                add_text(&mut arguments, "-Z");
                add_text(&mut arguments, "unstable-options");
                add_text(&mut arguments, "config");
                add_text(&mut arguments, "get");
                add_text(&mut arguments, "build");
                add_text(&mut arguments, "--show-origin");
                assert(chars::views(arguments@) =~= seq![
                    "-Z"@,
                    "unstable-options"@,
                    "config"@,
                    "get"@,
                    "build"@,
                    "--show-origin"@,
                ]);
                InspectionStep::Run {
                    program: selected_cargo(&environment.cargo),
                    arguments,
                    bootstrap: true,
                }
            },
            Inspection::Versioning(cargo) => {
                let mut arguments = no_texts();
                add_text(&mut arguments, "-vV");
                assert(chars::views(arguments@) =~= seq!["-vV"@]);
                InspectionStep::Run { program: cargo.rustc.clone(), arguments, bootstrap: false }
            },
            Inspection::Locating(cargo, _) => {
                let mut arguments = no_texts();
                add_text(&mut arguments, "--print");
                add_text(&mut arguments, "sysroot");
                assert(chars::views(arguments@) =~= seq!["--print"@, "sysroot"@]);
                InspectionStep::Run { program: cargo.rustc.clone(), arguments, bootstrap: false }
            },
            Inspection::Resolving(_, _, reported) => InspectionStep::Resolve(reported.clone()),
            Inspection::Testing(_, toolchain) => InspectionStep::Find(toolchain.llvm_dis.clone()),
            Inspection::Finished(_) => InspectionStep::Nothing,
        }
    }
}

/// Takes the reply to the outside step that an inspection of the compiler selected by Cargo for
/// `workspace_root` waits for.
pub fn inspect_workspace_toolchain(
    workspace_root: &str,
    environment: &ToolEnvironment,
    state: Inspection,
    reply: InspectionReply,
) -> (result: Inspection)
    ensures
        result@ == inspection_after(workspace_root@, environment@, state@, reply),
{
    match (state, reply) {
        (Inspection::Configuring, InspectionReply::Ran(launched)) => {
            let program = selected_cargo(&environment.cargo);
            match CargoConfiguration::read(launched, program.as_str(), workspace_root) {
                Err(error) => Inspection::Finished(Err(error)),
                Ok(configuration) => Inspection::Versioning(
                    CargoContext::discover(workspace_root, environment, &configuration),
                ),
            }
        },
        (Inspection::Versioning(cargo), InspectionReply::Ran(launched)) => match run_rustc(
            launched,
            cargo.rustc.as_str(),
        ) {
            Err(error) => Inspection::Finished(Err(error)),
            Ok(verbose) => match compiler_facts(verbose.as_str()) {
                Err(error) => Inspection::Finished(Err(error)),
                Ok(facts) => Inspection::Locating(cargo, facts),
            },
        },
        (Inspection::Locating(cargo, facts), InspectionReply::Ran(launched)) => match run_rustc(
            launched,
            cargo.rustc.as_str(),
        ) {
            Err(error) => Inspection::Finished(Err(error)),
            Ok(text) => Inspection::Resolving(cargo, facts, trim(text.as_str())),
        },
        (Inspection::Resolving(cargo, facts, reported), InspectionReply::Resolved(resolution)) =>
            match resolution {
            Err(source) => Inspection::Finished(
                Err(
                    filesystem_failure(
                        "canonicalize compiler sysroot",
                        reported.as_str(),
                        source,
                    ),
                ),
            ),
            Ok(sysroot) => {
                let toolchain = assemble(cargo.rustc.as_str(), facts, sysroot);
                Inspection::Testing(cargo, toolchain)
            },
        },
        (Inspection::Testing(cargo, toolchain), InspectionReply::Found(present)) => {
            if present {
                Inspection::Finished(Ok((cargo, toolchain)))
            } else {
                let command = component_command(&toolchain.rustup_toolchain, "llvm-tools");
                Inspection::Finished(
                    Err(
                        Failure::MissingLlvmDis {
                            release: toolchain.release,
                            commit_hash: toolchain.commit_hash,
                            path: toolchain.llvm_dis,
                            install_command: command,
                        },
                    ),
                )
            }
        },
        (state, _) => state,
    }
}

/// Takes the current directory, in which an inspection without a workspace starts.
pub fn inspect_toolchain(current: Result<String, SourceError>) -> (result: Result<String, Error>)
    ensures
        match (result, current) {
            (Ok(directory), Ok(expected)) => directory == expected,
            (Err(error), Err(source)) => error@ == (Failure::Filesystem {
                operation: "read current directory for"@,
                path: "."@,
                source,
            }),
            _ => false,
        },
{
    match current {
        Ok(directory) => Ok(directory),
        Err(source) => Err(filesystem_failure("read current directory for", ".", source)),
    }
}

} // verus!
