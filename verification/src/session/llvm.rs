//! Classifies the selected compiler configuration before retaining optimized bitcode.
//!
//! Only the proven LLVM recipe changes temporary-file retention. Effective provenance comes from the
//! compiler session after backend initialization, never from guessed Cargo profile defaults.

use crate::chars;
use crate::compiler::protocol;
use crate::compiler::writer;
use crate::compiler::writer::{optimization_name, OptLevel};
use crate::text::same_text;
use crate::records::{LlvmLto, UnsupportedLlvmConfiguration};
use vstd::prelude::*;
use vstd::string::StringExecFns;

verus! {

/// The compiler source revision whose retained bitcode was verified.
pub const VERIFIED_COMMIT: &'static str = "48a229ceaefd4985c50990b14116b6d856af0985";

/// The LTO mode on a compiler command line.
#[derive(Clone, Copy, Debug, PartialEq, Eq, Structural)]
pub enum LtoCli {
    /// `-Clto=no`.
    No,
    /// `-Clto=yes`.
    Yes,
    /// `-Clto`.
    NoParam,
    /// `-Clto=thin`.
    Thin,
    /// `-Clto=fat`.
    Fat,
    /// Not given.
    Unspecified,
}

/// The effective LTO mode of a session.
#[derive(Clone, Copy, Debug, PartialEq, Eq, Structural)]
pub enum SessionLto {
    /// No LTO.
    No,
    /// ThinLTO across crates.
    Thin,
    /// ThinLTO within the crate.
    ThinLocal,
    /// Fat LTO.
    Fat,
}

/// What a session was asked for.
#[derive(Debug)]
pub struct SessionOptions {
    /// The source revision of the compiler.
    pub commit: String,
    /// The backend that was asked for.
    pub backend: Option<String>,
    /// The default backend of the target.
    pub default_backend: Option<String>,
    /// The compilation is incremental.
    pub incremental: bool,
    /// LTO is left to the linker plugin.
    pub linker_plugin: bool,
    /// The target requires LTO.
    pub requires_lto: bool,
    /// The LTO mode on the command line.
    pub lto: LtoCli,
}

/// The backend of a session.
pub open spec fn backend_of(backend: Option<Seq<char>>, default_backend: Option<Seq<char>>) -> Seq<
    char,
> {
    match (backend, default_backend) {
        (Some(backend), _) => backend,
        (None, Some(backend)) => backend,
        (None, None) => "llvm"@,
    }
}

/// A mode is fat LTO.
pub open spec fn is_fat(lto: LtoCli) -> bool {
    lto == LtoCli::Yes || lto == LtoCli::NoParam || lto == LtoCli::Fat
}

/// The code of the first reason not to retain LLVM, or that of the supported recipe.
pub open spec fn support_of(options: SessionOptions) -> u32 {
    if options.commit@ != VERIFIED_COMMIT@ {
        protocol::LLVM_UNSUPPORTED_UNVERIFIED_COMPILER
    } else if backend_of(
        chars::option_view(options.backend),
        chars::option_view(options.default_backend),
    ) != "llvm"@ {
        protocol::LLVM_UNSUPPORTED_OTHER_BACKEND
    } else if options.incremental {
        protocol::LLVM_UNSUPPORTED_INCREMENTAL
    } else if options.linker_plugin {
        protocol::LLVM_UNSUPPORTED_LINKER_PLUGIN
    } else if options.requires_lto || is_fat(options.lto) {
        protocol::LLVM_UNSUPPORTED_FAT
    } else if options.lto == LtoCli::Thin {
        protocol::LLVM_UNSUPPORTED_CROSS_CRATE_THIN
    } else {
        protocol::LLVM_SUPPORTED
    }
}

/// Classifies a session before either temporary-file option changes. Only a supported session
/// retains its temporary files.
pub fn configure(options: &SessionOptions) -> (result: u32)
    ensures
        result == support_of(*options),
{
    let is_llvm = match (&options.backend, &options.default_backend) {
        (Some(backend), _) => same_text(backend.as_str(), "llvm"),
        (None, Some(backend)) => same_text(backend.as_str(), "llvm"),
        (None, None) => true,
    };
    if !same_text(options.commit.as_str(), VERIFIED_COMMIT) {
        protocol::LLVM_UNSUPPORTED_UNVERIFIED_COMPILER
    } else if !is_llvm {
        protocol::LLVM_UNSUPPORTED_OTHER_BACKEND
    } else if options.incremental {
        protocol::LLVM_UNSUPPORTED_INCREMENTAL
    } else if options.linker_plugin {
        protocol::LLVM_UNSUPPORTED_LINKER_PLUGIN
    } else if options.requires_lto || options.lto == LtoCli::Yes || options.lto == LtoCli::NoParam
        || options.lto == LtoCli::Fat {
        protocol::LLVM_UNSUPPORTED_FAT
    } else if options.lto == LtoCli::Thin {
        protocol::LLVM_UNSUPPORTED_CROSS_CRATE_THIN
    } else {
        protocol::LLVM_SUPPORTED
    }
}

/// What a session reports after backend initialization.
#[derive(Debug)]
pub struct SessionFacts {
    /// The backend.
    pub backend: String,
    /// The target tuple or target-specification identity.
    pub target: String,
    /// The effective optimization level.
    pub optimization: OptLevel,
    /// The effective LTO mode.
    pub lto: SessionLto,
    /// The compilation is incremental.
    pub incremental: bool,
    /// LTO is left to the linker plugin.
    pub linker_plugin: bool,
    /// The configured number of codegen units.
    pub codegen_units: usize,
}

/// The observed configuration of a session.
#[derive(Debug)]
pub struct ObservedConfiguration {
    /// The backend name reported after its initialization.
    pub backend: String,
    /// The effective target tuple or target-specification identity.
    pub target: String,
    /// The effective optimization level in the compiler's spelling.
    pub optimization: String,
    /// The effective LTO code.
    pub lto: u32,
    /// The compilation is incremental.
    pub incremental: bool,
    /// LTO is left to the linker plugin.
    pub linker_plugin: bool,
    /// The configured number of codegen units.
    pub codegen_units: u32,
    /// The code of an unsupported configuration, with zero for supported collection.
    pub unsupported: u32,
}

/// Why a configuration cannot be recorded.
#[derive(Clone, Copy, Debug, PartialEq, Eq, Structural)]
pub enum ObservationProblem {
    /// LLVM is retained in a session that does not support it.
    Unsupported,
    /// The number of codegen units does not fit.
    CodegenUnits,
}

/// The code of an effective LTO mode.
pub open spec fn effective_lto(lto: SessionLto) -> u32 {
    match lto {
        SessionLto::No => protocol::LTO_OFF,
        SessionLto::ThinLocal => protocol::LTO_LOCAL_THIN,
        SessionLto::Thin => protocol::LTO_CROSS_CRATE_THIN,
        SessionLto::Fat => protocol::LTO_FAT,
    }
}

/// The problem with the facts of a session.
pub open spec fn observation_problem(facts: SessionFacts, unsupported: u32) -> Option<
    ObservationProblem,
> {
    if unsupported == 0 && (facts.backend@ != "llvm"@ || effective_lto(facts.lto) > 1) {
        Some(ObservationProblem::Unsupported)
    } else if facts.codegen_units > u32::MAX {
        Some(ObservationProblem::CodegenUnits)
    } else {
        None
    }
}

/// A configuration records the facts of a session.
pub open spec fn records(
    configuration: ObservedConfiguration,
    facts: SessionFacts,
    unsupported: u32,
) -> bool {
    &&& configuration.backend@ == facts.backend@
    &&& configuration.target@ == facts.target@
    &&& configuration.optimization@ == writer::optimization_text(facts.optimization)
    &&& configuration.lto == effective_lto(facts.lto)
    &&& configuration.incremental == facts.incremental
    &&& configuration.linker_plugin == facts.linker_plugin
    &&& configuration.codegen_units == facts.codegen_units
    &&& configuration.unsupported == unsupported
}

impl ObservationProblem {
    /// The sentence that describes a problem.
    pub open spec fn sentence(self) -> Seq<char> {
        match self {
            ObservationProblem::Unsupported =>
                "retained LLVM requires the supported backend and LTO mode"@,
            ObservationProblem::CodegenUnits =>
                "out of range integral type conversion attempted"@,
        }
    }

    /// Describes the problem.
    pub fn message(self) -> (result: &'static str)
        ensures
            result@ == self.sentence(),
    {
        match self {
            ObservationProblem::Unsupported =>
                "retained LLVM requires the supported backend and LTO mode",
            ObservationProblem::CodegenUnits =>
                "out of range integral type conversion attempted",
        }
    }
}

impl ObservedConfiguration {
    /// Records the facts of a session.
    pub fn observed(facts: SessionFacts, unsupported: u32) -> (result: Result<
        Self,
        ObservationProblem,
    >)
        ensures
            match result {
                Ok(configuration) => observation_problem(facts, unsupported) is None && records(
                    configuration,
                    facts,
                    unsupported,
                ),
                Err(problem) => observation_problem(facts, unsupported) == Some(problem),
            },
    {
        let lto: u32 = match facts.lto {
            SessionLto::No => protocol::LTO_OFF,
            SessionLto::ThinLocal => protocol::LTO_LOCAL_THIN,
            SessionLto::Thin => protocol::LTO_CROSS_CRATE_THIN,
            SessionLto::Fat => protocol::LTO_FAT,
        };
        if unsupported == 0 && (!same_text(facts.backend.as_str(), "llvm") || lto > 1) {
            return Err(ObservationProblem::Unsupported);
        }
        if facts.codegen_units > u32::MAX as usize {
            return Err(ObservationProblem::CodegenUnits);
        }
        Ok(
            ObservedConfiguration {
                backend: facts.backend,
                target: facts.target,
                optimization: String::from_str(optimization_name(facts.optimization)),
                lto,
                incremental: facts.incremental,
                linker_plugin: facts.linker_plugin,
                codegen_units: facts.codegen_units as u32,
                unsupported,
            },
        )
    }

    /// The extension of retained bitcode.
    pub open spec fn retained_extension(self) -> Option<Seq<char>> {
        if self.unsupported != 0 {
            None
        } else if self.lto == 0 {
            Some("bc"@)
        } else {
            Some("thin-lto-after-pm.bc"@)
        }
    }

    /// Selects the proven post-optimization write point, not a pre-LTO or no-opt snapshot.
    ///
    /// Without LTO the compiler writes `bc` after optimization. Local ThinLTO saves
    /// `thin-lto-after-pm` after its pass manager.
    pub fn extension(&self) -> (result: Option<&'static str>)
        ensures
            match (result, self.retained_extension()) {
                (Some(extension), Some(expected)) => extension@ == expected,
                (None, None) => true,
                _ => false,
            },
    {
        if self.unsupported != 0 {
            return None;
        }
        if self.lto == 0 {
            Some("bc")
        } else {
            Some("thin-lto-after-pm.bc")
        }
    }
}

/// LLVM is retained only by a verified compiler with the LLVM backend, without incremental
/// compilation, the linker plugin, or LTO beyond the crate.
pub proof fn only_the_proven_recipe_retains_llvm(options: SessionOptions)
    ensures
        support_of(options) == protocol::LLVM_SUPPORTED <==> {
            &&& options.commit@ == VERIFIED_COMMIT@
            &&& backend_of(
                chars::option_view(options.backend),
                chars::option_view(options.default_backend),
            ) == "llvm"@
            &&& !options.incremental
            &&& !options.linker_plugin
            &&& !options.requires_lto
            &&& options.lto == LtoCli::No || options.lto == LtoCli::Unspecified
        },
{
}

/// Each code of a session names the first reason that holds, in this order: a compiler of another
/// revision, another backend, incremental compilation, the linker plugin, fat LTO, ThinLTO across
/// crates. A session with none of them is supported.
pub proof fn sessions_are_classified(options: SessionOptions)
    ensures
        ({
            let verified = options.commit@ == "48a229ceaefd4985c50990b14116b6d856af0985"@;
            let llvm = match (options.backend, options.default_backend) {
                (Some(backend), _) => backend@ == "llvm"@,
                (None, Some(backend)) => backend@ == "llvm"@,
                (None, None) => true,
            };
            let fat = options.requires_lto || options.lto == LtoCli::Yes || options.lto
                == LtoCli::NoParam || options.lto == LtoCli::Fat;
            let thin = options.lto == LtoCli::Thin;
            let plain = verified && llvm && !options.incremental;
            let code = support_of(options);
            &&& !verified <==> protocol::support_of(code) == Some(
                Some(UnsupportedLlvmConfiguration::UnverifiedCompiler),
            )
            &&& verified && !llvm <==> protocol::support_of(code) == Some(
                Some(UnsupportedLlvmConfiguration::OtherBackend),
            )
            &&& verified && llvm && options.incremental <==> protocol::support_of(code) == Some(
                Some(UnsupportedLlvmConfiguration::Incremental),
            )
            &&& plain && options.linker_plugin <==> protocol::support_of(code) == Some(
                Some(UnsupportedLlvmConfiguration::LinkerPluginLto),
            )
            &&& plain && !options.linker_plugin && fat <==> protocol::support_of(code) == Some(
                Some(UnsupportedLlvmConfiguration::FatLto),
            )
            &&& plain && !options.linker_plugin && !fat && thin <==> protocol::support_of(code)
                == Some(Some(UnsupportedLlvmConfiguration::CrossCrateThinLto))
            &&& plain && !options.linker_plugin && !fat && !thin <==> code == 0
        }),
{
}

/// A recorded configuration holds what the session reported, each LTO mode under the code that
/// decodes to it. Supported collection is recorded only for the LLVM backend without LTO or with
/// ThinLTO within the crate.
pub proof fn observations_keep_the_facts(
    configuration: ObservedConfiguration,
    facts: SessionFacts,
    unsupported: u32,
)
    requires
        observation_problem(facts, unsupported) is None,
        records(configuration, facts, unsupported),
    ensures
        configuration.backend@ == facts.backend@,
        configuration.target@ == facts.target@,
        configuration.incremental == facts.incremental,
        configuration.linker_plugin == facts.linker_plugin,
        configuration.codegen_units == facts.codegen_units,
        configuration.unsupported == unsupported,
        facts.lto == SessionLto::No <==> protocol::lto_of(configuration.lto) == Some(LlvmLto::Off),
        facts.lto == SessionLto::ThinLocal <==> protocol::lto_of(configuration.lto) == Some(
            LlvmLto::LocalThin,
        ),
        facts.lto == SessionLto::Thin <==> protocol::lto_of(configuration.lto) == Some(
            LlvmLto::CrossCrateThin,
        ),
        facts.lto == SessionLto::Fat <==> protocol::lto_of(configuration.lto) == Some(LlvmLto::Fat),
        unsupported == 0 ==> facts.backend@ == "llvm"@ && (facts.lto == SessionLto::No || facts.lto
            == SessionLto::ThinLocal),
{
}

/// Facts that fit are recorded: with an unsupported session always, with a supported one if the
/// backend is LLVM and LTO stays within the crate.
pub proof fn fitting_facts_are_recorded(facts: SessionFacts, unsupported: u32)
    requires
        facts.codegen_units <= u32::MAX,
        unsupported != 0 || (facts.backend@ == "llvm"@ && (facts.lto == SessionLto::No || facts.lto
            == SessionLto::ThinLocal)),
    ensures
        observation_problem(facts, unsupported) is None,
{
}

/// Bitcode is retained only in supported sessions: optimized bitcode without LTO, and the output of
/// the ThinLTO pass manager otherwise.
pub proof fn retained_bitcode_is_optimized(
    configuration: ObservedConfiguration,
    facts: SessionFacts,
    unsupported: u32,
)
    requires
        observation_problem(facts, unsupported) is None,
        records(configuration, facts, unsupported),
    ensures
        configuration.retained_extension() is None <==> unsupported != 0,
        unsupported == 0 && facts.lto == SessionLto::No ==> configuration.retained_extension()
            == Some("bc"@),
        unsupported == 0 && facts.lto == SessionLto::ThinLocal
            ==> configuration.retained_extension() == Some("thin-lto-after-pm.bc"@),
{
}

} // verus!
