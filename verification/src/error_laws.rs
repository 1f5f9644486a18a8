//! What the messages of failures hold.

use crate::compiler;
use crate::ir;
use crate::ir::capture_laws;
use crate::records;
use crate::records::{DefinitionKind, InvalidRecord};
use crate::source::SourceError;
use vstd::prelude::*;

verus! {

proof fn middles_stand_in(front: Seq<char>, middle: Seq<char>, back: Seq<char>)
    ensures
        capture_laws::stands_in(front + middle + back, middle),
{
    let whole = front + middle + back;
    let at = front.len() as int;
    assert(whole.subrange(at, at + middle.len()) =~= middle);
}

proof fn ends_stand_last(front: Seq<char>, end: Seq<char>)
    ensures
        end.is_suffix_of(front + end),
{
    let whole = front + end;
    assert(whole.subrange(whole.len() - end.len(), whole.len() as int) =~= end);
}

/// The message of a failure at a path names the operation and the path. That of a capture ends with
/// the cause, and that of a build with the path.
pub proof fn file_failures_name_their_path(
    operation: Seq<char>,
    path: Seq<char>,
    source: SourceError,
)
    ensures
        ({
            let capture = ir::error::sentence(
                ir::error::Failure::Filesystem { operation, path, source },
            );
            let build = compiler::error::sentence(
                compiler::error::Failure::Filesystem { operation, path, source },
            );
            &&& capture_laws::stands_in(capture, operation)
            &&& capture_laws::stands_in(capture, path)
            &&& source.message@.is_suffix_of(capture)
            &&& capture_laws::stands_in(build, operation)
            &&& path.is_suffix_of(build)
        }),
{
    let cause = source.message@;
    let start = "failed to "@;
    let whole = start + operation + " "@ + path + ": "@ + cause;
    middles_stand_in(start, operation, " "@ + path + ": "@ + cause);
    assert(start + operation + (" "@ + path + ": "@ + cause) =~= whole);
    middles_stand_in(start + operation + " "@, path, ": "@ + cause);
    assert(start + operation + " "@ + path + (": "@ + cause) =~= whole);
    ends_stand_last(start + operation + " "@ + path + ": "@, cause);
    middles_stand_in(start, operation, " "@ + path);
    assert(start + operation + (" "@ + path) =~= start + operation + " "@ + path);
    ends_stand_last(start + operation + " "@, path);
}

/// The message of a program that could not be started names the program. That of a capture ends with
/// the cause.
pub proof fn start_failures_name_their_program(program: Seq<char>, source: SourceError)
    ensures
        ({
            let capture = ir::error::sentence(
                ir::error::Failure::StartProcess { program, source },
            );
            let build = compiler::error::sentence(
                compiler::error::Failure::StartProcess { program, source },
            );
            &&& capture_laws::stands_in(capture, program)
            &&& source.message@.is_suffix_of(capture)
            &&& program.is_suffix_of(build)
        }),
{
    let cause = source.message@;
    let start = "failed to start "@;
    middles_stand_in(start, program, ": "@ + cause);
    assert(start + program + (": "@ + cause) =~= start + program + ": "@ + cause);
    ends_stand_last(start + program + ": "@, cause);
    ends_stand_last(start, program);
}

/// The message of a program that failed starts with the program, names its status and ends with its
/// diagnostics.
pub proof fn failed_programs_show_their_diagnostics(
    program: Seq<char>,
    status: Seq<char>,
    diagnostics: Seq<char>,
)
    ensures
        ({
            let message = ir::error::sentence(
                ir::error::Failure::ProcessFailed { program, status, diagnostics },
            );
            &&& program.is_prefix_of(message)
            &&& capture_laws::stands_in(message, status)
            &&& diagnostics.is_suffix_of(message)
        }),
{
    let middle = " failed with status "@;
    let whole = program + middle + status + "\n"@ + diagnostics;
    assert(whole.subrange(0, program.len() as int) =~= program);
    middles_stand_in(program + middle, status, "\n"@ + diagnostics);
    assert(program + middle + status + ("\n"@ + diagnostics) =~= whole);
    ends_stand_last(program + middle + status + "\n"@, diagnostics);
}

/// A definition needs a symbol, and a direct alias needs a target. Nothing else is asked of them.
pub proof fn definitions_need_names(symbol: Seq<char>, kind: DefinitionKind)
    ensures
        symbol.len() == 0 ==> records::definition_fault(symbol, kind) == Some(
            InvalidRecord::EmptySymbol,
        ),
        symbol.len() > 0 && kind == DefinitionKind::DirectAlias(Seq::empty())
            ==> records::definition_fault(symbol, kind) == Some(InvalidRecord::EmptyTarget),
        symbol.len() > 0 && kind != DefinitionKind::DirectAlias(Seq::empty())
            ==> records::definition_fault(symbol, kind) is None,
{
    if let DefinitionKind::DirectAlias(target) = kind {
        if target.len() == 0 {
            assert(target =~= Seq::empty());
        }
    }
}

} // verus!
