//! What the compiler wrapper and the identity driver decide.
//!
//! Cargo passes every compiler invocation to the wrapper. The wrapper forwards ordinary invocations
//! and puts the driver before the compiler in the selected one. The driver then writes the identity
//! of each function that the compiler placed.

use crate::chars;
use crate::chars::{add_text, no_texts};
use crate::order;
use crate::order::is_text_less;
use crate::text::same_text;
use crate::wire;
use crate::wire::{put_bytes, put_text, put_u32, put_u64};
use vstd::bytes::*;
use vstd::prelude::*;
use vstd::string::StringExecFns;

verus! {

/// Why the wrapper cannot start a compiler.
#[derive(Debug)]
#[allow(inconsistent_fields)]
pub enum WrapperProblem<S> {
    /// There is no compiler path.
    NoCompiler,
    /// A variable is missing.
    Unset {
        /// The variable.
        variable: S,
    },
    /// The path of the driver is unknown.
    NoExecutable {
        /// What went wrong.
        problem: S,
    },
}

/// A mathematical failure.
pub type ProblemData = WrapperProblem<Seq<char>>;

/// Why the wrapper cannot start a compiler.
pub type Problem = WrapperProblem<String>;

impl View for WrapperProblem<String> {
    type V = ProblemData;

    open spec fn view(&self) -> ProblemData {
        match self {
            WrapperProblem::NoCompiler => WrapperProblem::NoCompiler,
            WrapperProblem::Unset { variable } => WrapperProblem::Unset {
                variable: variable@,
            },
            WrapperProblem::NoExecutable { problem } => WrapperProblem::NoExecutable {
                problem: problem@,
            },
        }
    }
}

/// The sentence that describes a failure.
pub open spec fn sentence(failure: ProblemData) -> Seq<char> {
    match failure {
        WrapperProblem::NoCompiler => "optic rustc wrapper did not receive a compiler path"@,
        WrapperProblem::Unset { variable } => variable + " is not set"@,
        WrapperProblem::NoExecutable { problem } => "failed to find the optic rustc driver path: "@ + problem,
    }
}

impl WrapperProblem<String> {
    /// Describes the failure.
    pub fn message(&self) -> (result: String)
        ensures
            result@ == sentence(self@),
    {
        match self {
            WrapperProblem::NoCompiler => String::from_str("optic rustc wrapper did not receive a compiler path"),
            WrapperProblem::Unset { variable } => {
                let mut text = String::from_str(variable.as_str());
                text.append(" is not set");
                text
            },
            WrapperProblem::NoExecutable { problem } => {
                let mut text = String::from_str("failed to find the optic rustc driver path: ");
                text.append(problem.as_str());
                text
            },
        }
    }
}

/// The command that takes the place of the wrapper.
#[derive(Debug, PartialEq, Eq)]
pub struct WrapperCommand {
    /// The program.
    pub program: String,
    /// Its arguments.
    pub arguments: Vec<String>,
    /// The driver analyzes this invocation.
    pub inner: bool,
}

/// The mathematical counterpart of [`WrapperCommand`].
pub struct WrapperCommandData {
    /// The program.
    pub program: Seq<char>,
    /// Its arguments.
    pub arguments: Seq<Seq<char>>,
    /// The driver analyzes this invocation.
    pub inner: bool,
}

impl View for WrapperCommand {
    type V = WrapperCommandData;

    open spec fn view(&self) -> WrapperCommandData {
        WrapperCommandData {
            program: self.program@,
            arguments: crate::chars::views(self.arguments@),
            inner: self.inner,
        }
    }
}

/// The position of the compiler among the arguments.
pub open spec fn compiler_index(has_workspace_wrapper: bool) -> int {
    if has_workspace_wrapper {
        1
    } else {
        0
    }
}

/// The argument with which the selected invocation names its directory for temporaries.
pub open spec fn temps_text(directory: Seq<char>) -> Seq<char> {
    "temps-dir="@ + directory
}

/// Returns the argument with which the selected invocation names its directory for temporaries.
pub fn temps_argument(directory: &str) -> (result: String)
    ensures
        result@ == temps_text(directory@),
{
    let mut argument = String::from_str("temps-dir=");
    argument.append(directory);
    argument
}

/// Two adjacent arguments, the first behind an index, name the directory for temporaries.
pub open spec fn selects(arguments: Seq<Seq<char>>, index: int, directory: Seq<char>) -> bool {
    exists|i: int|
        index < i && i + 1 < arguments.len() && #[trigger] arguments[i] == "-Z"@ && arguments[i + 1]
            == temps_text(directory)
}

/// The arguments of an invocation behind the wrapper.
pub open spec fn forwarded(
    arguments: Seq<Seq<char>>,
    index: int,
    selected: bool,
    executable: Seq<char>,
) -> Seq<Seq<char>> {
    if selected {
        arguments.update(index, executable).insert(index + 1, arguments[index])
    } else {
        arguments
    }
}

/// The command that runs arguments.
pub open spec fn command_of(
    arguments: Seq<Seq<char>>,
    original_wrapper: Option<Seq<char>>,
    inner: bool,
) -> WrapperCommandData {
    match original_wrapper {
        Some(program) => WrapperCommandData { program, arguments, inner },
        None => WrapperCommandData {
            program: arguments[0],
            arguments: arguments.skip(1),
            inner,
        },
    }
}

/// What takes the place of the wrapper.
pub open spec fn wrapped(
    arguments: Seq<Seq<char>>,
    has_workspace_wrapper: bool,
    directory: Option<Seq<char>>,
    executable: Result<Seq<char>, Seq<char>>,
    original_wrapper: Option<Seq<char>>,
) -> Result<WrapperCommandData, ProblemData> {
    let index = compiler_index(has_workspace_wrapper);
    if arguments.len() <= index {
        Err(WrapperProblem::NoCompiler)
    } else {
        match directory {
            None => Err(WrapperProblem::Unset { variable: "OPTIC_SELECTED_TEMPS_DIR"@ }),
            Some(directory) => if selects(arguments, index, directory) {
                match executable {
                    Err(problem) => Err(WrapperProblem::NoExecutable { problem }),
                    Ok(executable) => Ok(
                        command_of(
                            forwarded(arguments, index, true, executable),
                            original_wrapper,
                            true,
                        ),
                    ),
                }
            } else {
                Ok(command_of(arguments, original_wrapper, false))
            },
        }
    }
}

fn is_selected(arguments: &Vec<String>, index: usize, directory: &str) -> (result: bool)
    requires
        index <= 1,
        index < arguments@.len(),
    ensures
        result == selects(chars::views(arguments@), index as int, directory@),
{
    let expected = temps_argument(directory);
    let ghost all = chars::views(arguments@);
    let mut at: usize = index + 1;
    while at < arguments.len() && at + 1 < arguments.len()
        invariant
            index < at <= arguments@.len(),
            all == chars::views(arguments@),
            expected@ == temps_text(directory@),
            forall|i: int|
                index < i < at && i + 1 < all.len() ==> !(#[trigger] all[i] == "-Z"@ && all[i + 1]
                    == temps_text(directory@)),
        decreases arguments.len() - at,
    {
        assert(all[at as int] == arguments@[at as int]@);
        assert(all[at + 1] == arguments@[at + 1]@);
        if same_text(arguments[at].as_str(), "-Z") && same_text(
            arguments[at + 1].as_str(),
            expected.as_str(),
        ) {
            return true;
        }
        at += 1;
    }
    false
}

/// The result of looking for the driver, as characters.
pub open spec fn executable_view(executable: Result<String, String>) -> Result<
    Seq<char>,
    Seq<char>,
> {
    match executable {
        Ok(path) => Ok(path@),
        Err(problem) => Err(problem@),
    }
}

/// Decides what takes the place of the wrapper.
pub fn run_wrapper(
    arguments: Vec<String>,
    has_workspace_wrapper: bool,
    directory: Option<String>,
    executable: Result<String, String>,
    original_wrapper: Option<String>,
) -> (result: Result<WrapperCommand, Problem>)
    ensures
        match (
            result,
            wrapped(
                chars::views(arguments@),
                has_workspace_wrapper,
                chars::option_view(directory),
                executable_view(executable),
                chars::option_view(original_wrapper),
            ),
        ) {
            (Ok(command), Ok(expected)) => command@ == expected,
            (Err(problem), Err(expected)) => problem@ == expected,
            _ => false,
        },
{
    let index: usize = if has_workspace_wrapper {
        1
    } else {
        0
    };
    if arguments.len() <= index {
        return Err(WrapperProblem::NoCompiler);
    }
    let directory = match directory {
        None => {
            return Err(
                WrapperProblem::Unset { variable: String::from_str("OPTIC_SELECTED_TEMPS_DIR") },
            );
        },
        Some(directory) => directory,
    };
    let ghost before = chars::views(arguments@);
    let inner = is_selected(&arguments, index, directory.as_str());
    let mut arguments = arguments;
    if inner {
        match executable {
            Err(problem) => {
                return Err(WrapperProblem::NoExecutable { problem });
            },
            Ok(path) => {
                let compiler = arguments[index].clone();
                arguments.set(index, path);
                arguments.insert(index + 1, compiler);
                assert(chars::views(arguments@) =~= forwarded(before, index as int, true, path@));
            },
        }
    }
    let ghost all = chars::views(arguments@);
    match original_wrapper {
        Some(program) => Ok(WrapperCommand { program, arguments, inner }),
        None => {
            let program = arguments.remove(0);
            assert(program@ == all[0]);
            assert(chars::views(arguments@) =~= all.skip(1));
            Ok(WrapperCommand { program, arguments, inner })
        },
    }
}

/// An invocation that is not selected is forwarded with its arguments unchanged. In a selected one,
/// only the driver stands before the compiler.
pub proof fn wrappers_keep_arguments(
    arguments: Seq<Seq<char>>,
    has_workspace_wrapper: bool,
    executable: Seq<char>,
)
    requires
        arguments.len() > compiler_index(has_workspace_wrapper),
    ensures
        ({
            let index = compiler_index(has_workspace_wrapper);
            &&& forwarded(arguments, index, false, executable) == arguments
            &&& forwarded(arguments, index, true, executable)[index] == executable
            &&& forwarded(arguments, index, true, executable).remove(index) == arguments
        }),
{
    let index = compiler_index(has_workspace_wrapper);
    let after = forwarded(arguments, index, true, executable);
    assert(after.remove(index) =~= arguments);
}

/// The identity of one function and the codegen units that hold it.
#[derive(Debug, PartialEq, Eq)]
pub struct FunctionIdentity {
    /// The definition path.
    pub definition: String,
    /// The definition path with its arguments.
    pub display_name: String,
    /// The symbol name.
    pub raw_symbol: String,
    /// The codegen units in the order in which they were recorded.
    pub codegen_units: Vec<String>,
}

/// The mathematical counterpart of [`FunctionIdentity`].
pub struct FunctionIdentityData {
    /// The definition path.
    pub definition: Seq<char>,
    /// The definition path with its arguments.
    pub display_name: Seq<char>,
    /// The symbol name.
    pub raw_symbol: Seq<char>,
    /// The codegen units in the order in which they were recorded.
    pub codegen_units: Seq<Seq<char>>,
}

impl View for FunctionIdentity {
    type V = FunctionIdentityData;

    open spec fn view(&self) -> FunctionIdentityData {
        FunctionIdentityData {
            definition: self.definition@,
            display_name: self.display_name@,
            raw_symbol: self.raw_symbol@,
            codegen_units: crate::chars::views(self.codegen_units@),
        }
    }
}

/// The mathematical counterparts of a list.
pub open spec fn function_identity_list(values: Seq<FunctionIdentity>) -> Seq<FunctionIdentityData> {
    values.map_values(|value: FunctionIdentity| value@)
}

/// The number of leading identities whose symbols come before a symbol.
pub open spec fn place_of(items: Seq<FunctionIdentityData>, raw_symbol: Seq<char>) -> int
    decreases items.len(),
{
    if items.len() == 0 || !order::text_less(items[0].raw_symbol, raw_symbol) {
        0
    } else {
        1 + place_of(items.skip(1), raw_symbol)
    }
}

/// Identities with one more placement.
pub open spec fn with_placement(
    items: Seq<FunctionIdentityData>,
    definition: Seq<char>,
    display_name: Seq<char>,
    raw_symbol: Seq<char>,
    codegen_unit: Seq<char>,
) -> Seq<FunctionIdentityData> {
    let index = place_of(items, raw_symbol);
    if index < items.len() && items[index].raw_symbol == raw_symbol {
        items.update(
            index,
            FunctionIdentityData {
                codegen_units: items[index].codegen_units.push(codegen_unit),
                ..items[index]
            },
        )
    } else {
        items.insert(
            index,
            FunctionIdentityData {
                definition,
                display_name,
                raw_symbol,
                codegen_units: seq![codegen_unit],
            },
        )
    }
}

/// The symbols stand in ascending order, so none occurs twice.
pub open spec fn distinct_symbols(items: Seq<FunctionIdentityData>) -> bool {
    forall|i: int, j: int|
        0 <= i < j < items.len() ==> order::text_less(
            (#[trigger] items[i]).raw_symbol,
            (#[trigger] items[j]).raw_symbol,
        )
}

proof fn place_is(items: Seq<FunctionIdentityData>, raw_symbol: Seq<char>, index: int)
    requires
        0 <= index <= items.len(),
        forall|i: int|
            0 <= i < index ==> order::text_less((#[trigger] items[i]).raw_symbol, raw_symbol),
        index < items.len() ==> !order::text_less(items[index].raw_symbol, raw_symbol),
    ensures
        place_of(items, raw_symbol) == index,
    decreases items.len(),
{
    if index > 0 {
        assert(order::text_less(items[0].raw_symbol, raw_symbol));
        let tail = items.skip(1);
        assert forall|i: int| 0 <= i < index - 1 implies order::text_less(
            (#[trigger] tail[i]).raw_symbol,
            raw_symbol,
        ) by {
            assert(tail[i] == items[i + 1]);
        }
        place_is(tail, raw_symbol, index - 1);
    }
}

proof fn place_bounds(items: Seq<FunctionIdentityData>, raw_symbol: Seq<char>)
    ensures
        0 <= place_of(items, raw_symbol) <= items.len(),
        forall|i: int|
            0 <= i < place_of(items, raw_symbol) ==> order::text_less(
                (#[trigger] items[i]).raw_symbol,
                raw_symbol,
            ),
        place_of(items, raw_symbol) < items.len() ==> !order::text_less(
            items[place_of(items, raw_symbol)].raw_symbol,
            raw_symbol,
        ),
    decreases items.len(),
{
    if items.len() > 0 && order::text_less(items[0].raw_symbol, raw_symbol) {
        let tail = items.skip(1);
        place_bounds(tail, raw_symbol);
        assert forall|i: int| 0 <= i < place_of(items, raw_symbol) implies order::text_less(
            (#[trigger] items[i]).raw_symbol,
            raw_symbol,
        ) by {
            if i > 0 {
                assert(tail[i - 1] == items[i]);
            }
        }
    }
}

/// Recording a placement keeps the symbols distinct and in order.
pub proof fn placements_are_grouped(
    items: Seq<FunctionIdentityData>,
    definition: Seq<char>,
    display_name: Seq<char>,
    raw_symbol: Seq<char>,
    codegen_unit: Seq<char>,
)
    requires
        distinct_symbols(items),
    ensures
        distinct_symbols(
            with_placement(items, definition, display_name, raw_symbol, codegen_unit),
        ),
{
    let index = place_of(items, raw_symbol);
    place_bounds(items, raw_symbol);
    let after = with_placement(items, definition, display_name, raw_symbol, codegen_unit);
    assert forall|i: int, j: int| 0 <= i < j < after.len() implies order::text_less(
        (#[trigger] after[i]).raw_symbol,
        (#[trigger] after[j]).raw_symbol,
    ) by {
        if index < items.len() && items[index].raw_symbol == raw_symbol {
            assert(after[i].raw_symbol == items[i].raw_symbol);
            assert(after[j].raw_symbol == items[j].raw_symbol);
        } else {
            if index < items.len() {
                order::text_less_is_strict(raw_symbol, items[index].raw_symbol);
            }
            if j < index {
                assert(after[i] == items[i] && after[j] == items[j]);
            } else if j == index {
                assert(after[i] == items[i]);
            } else if i < index {
                assert(after[i] == items[i] && after[j] == items[j - 1]);
            } else if i == index {
                assert(after[j] == items[j - 1]);
                if j - 1 > index {
                    order::bytes_less_transitive(
                        vstd::utf8::encode_utf8(raw_symbol),
                        vstd::utf8::encode_utf8(items[index].raw_symbol),
                        vstd::utf8::encode_utf8(items[j - 1].raw_symbol),
                    );
                }
            } else {
                assert(after[i] == items[i - 1] && after[j] == items[j - 1]);
            }
        }
    }
}

/// The identities of one compilation.
pub struct IdentityItems {
    items: Vec<FunctionIdentity>,
}

impl IdentityItems {
    /// The identities.
    pub closed spec fn items(&self) -> Seq<FunctionIdentityData> {
        function_identity_list(self.items@)
    }

    /// Starts without identities.
    pub fn new() -> (result: Self)
        ensures
            result.items() == Seq::<FunctionIdentityData>::empty(),
    {
        let result = IdentityItems { items: Vec::new() };
        assert(result.items() =~= Seq::<FunctionIdentityData>::empty());
        result
    }

    /// Records that a codegen unit holds a function.
    pub fn record(
        &mut self,
        definition: String,
        display_name: String,
        raw_symbol: String,
        codegen_unit: String,
    )
        ensures
            final(self).items() == with_placement(
                old(self).items(),
                definition@,
                display_name@,
                raw_symbol@,
                codegen_unit@,
            ),
    {
        let ghost before = self.items();
        let mut index: usize = 0;
        while index < self.items.len() && is_text_less(
            self.items[index].raw_symbol.as_str(),
            raw_symbol.as_str(),
        )
            invariant
                index <= self.items@.len(),
                self.items() == before,
                before.len() == self.items@.len(),
                forall|i: int|
                    0 <= i < index ==> order::text_less(
                        (#[trigger] before[i]).raw_symbol,
                        raw_symbol@,
                    ),
            decreases self.items.len() - index,
        {
            assert(before[index as int] == self.items@[index as int]@);
            index += 1;
        }
        proof {
            if index < self.items@.len() {
                assert(before[index as int] == self.items@[index as int]@);
            }
            place_is(before, raw_symbol@, index as int);
        }
        if index < self.items.len() && same_text(
            self.items[index].raw_symbol.as_str(),
            raw_symbol.as_str(),
        ) {
            let ghost known = self.items@;
            let FunctionIdentity { definition, display_name, raw_symbol, codegen_units } =
                self.items.remove(index);
            let ghost units = codegen_units@;
            let mut codegen_units = codegen_units;
            codegen_units.push(codegen_unit);
            proof {
                chars::views_push(units, codegen_unit);
            }
            self.items.insert(
                index,
                FunctionIdentity { definition, display_name, raw_symbol, codegen_units },
            );
            assert(self.items() =~= before.update(
                index as int,
                FunctionIdentityData {
                    codegen_units: before[index as int].codegen_units.push(codegen_unit@),
                    ..before[index as int]
                },
            ));
        } else {
            let mut codegen_units = no_texts();
            add_text(&mut codegen_units, codegen_unit.as_str());
            assert(chars::views(codegen_units@) =~= seq![codegen_unit@]);
            let identity = FunctionIdentity {
                definition,
                display_name,
                raw_symbol,
                codegen_units,
            };
            self.items.insert(index, identity);
            assert(self.items() =~= before.insert(index as int, identity@));
        }
    }

    /// Writes the identity manifest.
    pub fn write_manifest(&self, rustc_commit: &str) -> (result: Result<Vec<u8>, ValueTooLong>)
        ensures
            match result {
                Ok(bytes) => manifest_fits(rustc_commit@, self.items()) && bytes@
                    == manifest_bytes(rustc_commit@, self.items()),
                Err(_) => !manifest_fits(rustc_commit@, self.items()),
            },
    {
        let ghost all = self.items();
        let mut out: Vec<u8> = Vec::new();
        put_bytes(&mut out, MANIFEST_MAGIC.as_slice());
        put_u32(&mut out, 1);
        if put_text(&mut out, rustc_commit).is_err() {
            return Err(ValueTooLong);
        }
        put_u64(&mut out, self.items.len() as u64);
        let ghost head = out@;
        assert(head =~= manifest_head(rustc_commit@, all.len()));
        let mut index: usize = 0;
        assert(out@ =~= head + items_bytes(all.take(0)));
        while index < self.items.len()
            invariant
                index <= self.items@.len(),
                all == function_identity_list(self.items@),
                out@ == head + items_bytes(all.take(index as int)),
                wire::text_fits(rustc_commit@),
                forall|i: int| 0 <= i < index ==> item_fits(#[trigger] all[i]),
                all == self.items(),
            decreases self.items.len() - index,
        {
            let ghost before = out@;
            assert(all[index as int] == self.items@[index as int]@);
            if write_item(&mut out, &self.items[index]).is_err() {
                return Err(ValueTooLong);
            }
            proof {
                let after = all.take(index + 1);
                assert(after.drop_last() =~= all.take(index as int));
                assert(after.last() == all[index as int]);
                wire::regroup(
                    head,
                    items_bytes(all.take(index as int)),
                    item_bytes(all[index as int]),
                );
            }
            index += 1;
        }
        assert(all.take(all.len() as int) =~= all);
        Ok(out)
    }
}

/// A value does not fit its length field.
#[derive(Clone, Copy, Debug, PartialEq, Eq, Structural)]
pub struct ValueTooLong;

/// The bytes with which an identity manifest starts: `CARGO_OPTIC_ID` and two zeros.
pub const MANIFEST_MAGIC: [u8; 16] = [
    0x43,
    0x41,
    0x52,
    0x47,
    0x4f,
    0x5f,
    0x4f,
    0x50,
    0x54,
    0x49,
    0x43,
    0x5f,
    0x49,
    0x44,
    0x00,
    0x00,
];

/// The header of an identity manifest.
pub open spec fn manifest_head(rustc_commit: Seq<char>, count: nat) -> Seq<u8> {
    MANIFEST_MAGIC@ + spec_u32_to_le_bytes(1) + wire::text_bytes(rustc_commit)
        + spec_u64_to_le_bytes(count as u64)
}

/// The texts of a list, one behind the other.
pub open spec fn texts_bytes(texts: Seq<Seq<char>>) -> Seq<u8>
    decreases texts.len(),
{
    if texts.len() == 0 {
        Seq::empty()
    } else {
        texts_bytes(texts.drop_last()) + wire::text_bytes(texts.last())
    }
}

/// The names of an identity.
pub open spec fn item_head(item: FunctionIdentityData) -> Seq<u8> {
    wire::text_bytes(item.definition) + wire::text_bytes(item.display_name) + wire::text_bytes(
        item.raw_symbol,
    ) + spec_u32_to_le_bytes(item.codegen_units.len() as u32)
}

/// The encoding of an identity.
pub open spec fn item_bytes(item: FunctionIdentityData) -> Seq<u8> {
    item_head(item) + texts_bytes(item.codegen_units)
}

/// The encoding of identities.
pub open spec fn items_bytes(items: Seq<FunctionIdentityData>) -> Seq<u8>
    decreases items.len(),
{
    if items.len() == 0 {
        Seq::empty()
    } else {
        items_bytes(items.drop_last()) + item_bytes(items.last())
    }
}

/// The encoding of an identity manifest.
pub open spec fn manifest_bytes(
    rustc_commit: Seq<char>,
    items: Seq<FunctionIdentityData>,
) -> Seq<u8> {
    manifest_head(rustc_commit, items.len()) + items_bytes(items)
}

/// All values of an identity fit their length fields.
pub open spec fn item_fits(item: FunctionIdentityData) -> bool {
    &&& wire::text_fits(item.definition)
    &&& wire::text_fits(item.display_name)
    &&& wire::text_fits(item.raw_symbol)
    &&& item.codegen_units.len() <= u32::MAX
    &&& forall|i: int|
        0 <= i < item.codegen_units.len() ==> wire::text_fits(#[trigger] item.codegen_units[i])
}

/// All values of a manifest fit their length fields.
pub open spec fn manifest_fits(rustc_commit: Seq<char>, items: Seq<FunctionIdentityData>) -> bool {
    &&& wire::text_fits(rustc_commit)
    &&& forall|i: int| 0 <= i < items.len() ==> item_fits(#[trigger] items[i])
}

fn write_item(out: &mut Vec<u8>, item: &FunctionIdentity) -> (result: Result<(), ValueTooLong>)
    ensures
        match result {
            Ok(()) => item_fits(item@) && final(out)@ == old(out)@ + item_bytes(item@),
            Err(_) => !item_fits(item@),
        },
{
    if put_text(out, item.definition.as_str()).is_err() {
        return Err(ValueTooLong);
    }
    if put_text(out, item.display_name.as_str()).is_err() {
        return Err(ValueTooLong);
    }
    if put_text(out, item.raw_symbol.as_str()).is_err() {
        return Err(ValueTooLong);
    }
    if item.codegen_units.len() > u32::MAX as usize {
        return Err(ValueTooLong);
    }
    put_u32(out, item.codegen_units.len() as u32);
    let ghost units = item@.codegen_units;
    let ghost start = old(out)@ + item_head(item@);
    assert(out@ =~= start);
    let mut index: usize = 0;
    assert(out@ =~= start + texts_bytes(units.take(0)));
    while index < item.codegen_units.len()
        invariant
            index <= item.codegen_units@.len(),
            units == item@.codegen_units,
            units.len() == item.codegen_units@.len(),
            out@ == start + texts_bytes(units.take(index as int)),
            forall|i: int| 0 <= i < index ==> wire::text_fits(#[trigger] units[i]),
        decreases item.codegen_units.len() - index,
    {
        assert(units[index as int] == item.codegen_units@[index as int]@);
        if put_text(out, item.codegen_units[index].as_str()).is_err() {
            return Err(ValueTooLong);
        }
        proof {
            let after = units.take(index + 1);
            assert(after.drop_last() =~= units.take(index as int));
            assert(after.last() == units[index as int]);
            wire::regroup(
                start,
                texts_bytes(units.take(index as int)),
                wire::text_bytes(units[index as int]),
            );
        }
        index += 1;
    }
    assert(units.take(units.len() as int) =~= units);
    proof {
        wire::regroup(old(out)@, item_head(item@), texts_bytes(units));
    }
    Ok(())
}

} // verus!
