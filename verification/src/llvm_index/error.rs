//! What can be wrong with disassembled LLVM text.

use crate::source::SourceError;
use crate::text::push_decimal;
use vstd::prelude::*;
use vstd::string::StringExecFns;

verus! {

/// A rule of the indexed text that the input broke.
#[derive(Clone, Copy, Debug, PartialEq, Eq, Structural)]
pub enum Fault {
    /// A header is longer than its byte budget.
    HeaderBudget,
    /// The input is longer than an offset can count.
    OffsetOverflow,
    /// A header ends before its next token.
    MissingToken,
    /// Another token than an opening parenthesis.
    NotParenthesis,
    /// Another token than an equals sign.
    NotEquals,
    /// A quoted token has no closing quote.
    UnclosedQuote,
    /// A quoted token holds a bare line break.
    BareNewline,
    /// An escape ends before its digits.
    MissingEscapeDigits,
    /// An escape holds another byte than a hexadecimal digit.
    BadEscape,
    /// A delimiter closes another one than was opened last.
    MismatchedDelimiter,
    /// A closing delimiter stands where none is open.
    UnopenedDelimiter,
    /// A function body has no closing brace.
    UnclosedBody,
    /// A token is no global symbol.
    NotSymbol,
    /// A symbol starts with a digit but is no numeric slot.
    NotSlot,
    /// A symbol is not valid UTF-8.
    NotUtf8,
    /// A function header has no name.
    NoFunctionName,
    /// A function header has no body.
    NoFunctionBody,
    /// An alias has no type.
    NoAliasType,
    /// An alias type is not followed by a comma.
    NoAliasComma,
    /// An alias target has no pointer type.
    NoPointerType,
    /// An alias has a second operand.
    ExtraOperand,
    /// An alias suffix is neither a partition nor metadata.
    BadSuffix,
    /// A partition name is not a string.
    NoPartitionString,
    /// A byte string constant has no string.
    NoByteString,
    /// A constant has an unknown form.
    UnknownConstant,
    /// A constant expression has no operand list.
    NoOperands,
    /// A global is neither a variable, an alias nor an ifunc.
    UnknownGlobal,
    /// A definition has an empty symbol.
    EmptySymbol,
    /// A direct alias has an empty target.
    EmptyTarget,
}

impl Fault {
    /// The sentence that describes the fault.
    pub open spec fn sentence(self) -> Seq<char> {
        match self {
            Fault::HeaderBudget => "LLVM header exceeds the 1 MiB budget"@,
            Fault::OffsetOverflow => "LLVM byte offset exceeds u64"@,
            Fault::MissingToken => "Expected an LLVM header token, got EOF"@,
            Fault::NotParenthesis => "Expected LLVM token ("@,
            Fault::NotEquals => "Expected LLVM token ="@,
            Fault::UnclosedQuote => "Expected a closing LLVM quote, got EOF"@,
            Fault::BareNewline => "Expected an escaped LLVM newline"@,
            Fault::MissingEscapeDigits => "Expected two LLVM escape digits, got EOF"@,
            Fault::BadEscape => "Expected an LLVM hex escape"@,
            Fault::MismatchedDelimiter => "Expected a matching LLVM delimiter"@,
            Fault::UnopenedDelimiter => "Expected an opening LLVM delimiter"@,
            Fault::UnclosedBody => "Expected a closing LLVM body brace, got EOF"@,
            Fault::NotSymbol => "Expected an LLVM global symbol"@,
            Fault::NotSlot => "Expected a numeric LLVM slot or a named symbol"@,
            Fault::NotUtf8 => "Expected a UTF-8 LLVM symbol"@,
            Fault::NoFunctionName => "Expected an LLVM function name"@,
            Fault::NoFunctionBody => "Expected an LLVM function body"@,
            Fault::NoAliasType => "Expected an LLVM alias type"@,
            Fault::NoAliasComma => "Expected a comma after the LLVM alias type"@,
            Fault::NoPointerType => "Expected an LLVM pointer type before the target"@,
            Fault::ExtraOperand => "Expected an LLVM alias suffix, got another operand"@,
            Fault::BadSuffix => "Expected an LLVM partition or metadata suffix"@,
            Fault::NoPartitionString => "Expected an LLVM partition string"@,
            Fault::NoByteString => "Expected an LLVM byte string"@,
            Fault::UnknownConstant => "Expected a supported LLVM constant form"@,
            Fault::NoOperands => "Expected LLVM constant operands in parentheses"@,
            Fault::UnknownGlobal => "Expected an LLVM global, alias, or ifunc"@,
            Fault::EmptySymbol => "Expected a nonempty LLVM symbol"@,
            Fault::EmptyTarget => "Expected a nonempty LLVM alias target"@,
        }
    }

    /// Describes the fault.
    pub fn as_str(self) -> (result: &'static str)
        ensures
            result@ == self.sentence(),
    {
        match self {
            Fault::HeaderBudget => "LLVM header exceeds the 1 MiB budget",
            Fault::OffsetOverflow => "LLVM byte offset exceeds u64",
            Fault::MissingToken => "Expected an LLVM header token, got EOF",
            Fault::NotParenthesis => "Expected LLVM token (",
            Fault::NotEquals => "Expected LLVM token =",
            Fault::UnclosedQuote => "Expected a closing LLVM quote, got EOF",
            Fault::BareNewline => "Expected an escaped LLVM newline",
            Fault::MissingEscapeDigits => "Expected two LLVM escape digits, got EOF",
            Fault::BadEscape => "Expected an LLVM hex escape",
            Fault::MismatchedDelimiter => "Expected a matching LLVM delimiter",
            Fault::UnopenedDelimiter => "Expected an opening LLVM delimiter",
            Fault::UnclosedBody => "Expected a closing LLVM body brace, got EOF",
            Fault::NotSymbol => "Expected an LLVM global symbol",
            Fault::NotSlot => "Expected a numeric LLVM slot or a named symbol",
            Fault::NotUtf8 => "Expected a UTF-8 LLVM symbol",
            Fault::NoFunctionName => "Expected an LLVM function name",
            Fault::NoFunctionBody => "Expected an LLVM function body",
            Fault::NoAliasType => "Expected an LLVM alias type",
            Fault::NoAliasComma => "Expected a comma after the LLVM alias type",
            Fault::NoPointerType => "Expected an LLVM pointer type before the target",
            Fault::ExtraOperand => "Expected an LLVM alias suffix, got another operand",
            Fault::BadSuffix => "Expected an LLVM partition or metadata suffix",
            Fault::NoPartitionString => "Expected an LLVM partition string",
            Fault::NoByteString => "Expected an LLVM byte string",
            Fault::UnknownConstant => "Expected a supported LLVM constant form",
            Fault::NoOperands => "Expected LLVM constant operands in parentheses",
            Fault::UnknownGlobal => "Expected an LLVM global, alias, or ifunc",
            Fault::EmptySymbol => "Expected a nonempty LLVM symbol",
            Fault::EmptyTarget => "Expected a nonempty LLVM alias target",
        }
    }
}

/// Why indexing stopped.
#[derive(Debug)]
pub enum IndexError {
    /// The text breaks a rule at a byte offset.
    Malformed {
        /// Where the rule is broken.
        offset: u64,
        /// The broken rule.
        fault: Fault,
    },
    /// The source failed.
    Read(SourceError),
}

impl IndexError {
    /// The description of the error: a fault names its byte offset, a source failure stays as it is.
    pub open spec fn description(self) -> Seq<char> {
        match self {
            IndexError::Malformed { offset, fault } => fault.sentence() + " at byte "@
                + crate::text::decimal(offset as nat),
            IndexError::Read(error) => error.message@,
        }
    }

    /// Describes the error.
    pub fn message(&self) -> (result: String)
        ensures
            result@ == self.description(),
    {
        match self {
            IndexError::Malformed { offset, fault } => {
                let mut text = String::from_str(fault.as_str());
                text.append(" at byte ");
                push_decimal(&mut text, *offset);
                text
            },
            IndexError::Read(error) => error.message.clone(),
        }
    }
}

} // verus!
