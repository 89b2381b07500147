//! Assembly errors, and the two-pass assembler entry point: lexing into a
//! token stream, then code generation into a 256-nibble memory image.

use vstd::prelude::*;
use crate::codegen;
use crate::lexing;
use crate::nibble::u4;

verus! {

/// The stage an assembly error arose in.
#[derive(Clone, Copy, PartialEq, Eq, Structural, Debug)]
pub enum Stage {
    Lex,
    CodeGen,
}

/// What went wrong, with the data a report needs.
#[derive(Clone, Copy, PartialEq, Eq, Structural, Debug)]
pub enum AsmMessage {
    /// A token that had to be a hex number was not one.
    BadHexDigit,
    /// A word that is no directive, label, literal or mnemonic.
    InvalidInstruction,
    /// A label reference whose name no label definition gives an address.
    LabelNotDefined,
    /// Two origin regions claim a common address; the earlier one is named.
    Overlapping { other_start: u8, other_size: usize, other_linenum: Option<usize> },
    /// An origin's content runs past the top of the 256-nibble image.
    OriginOverflow,
}

impl AsmMessage {
    /// The human-readable message for this error.
    pub fn text(&self) -> (r: &'static str)
        ensures
            r@ == spec_text(*self),
    {
        match self {
            AsmMessage::BadHexDigit => "Failed to parse hex digit",
            AsmMessage::InvalidInstruction => "Invalid instruction",
            AsmMessage::LabelNotDefined => "label not defined",
            AsmMessage::Overlapping { .. } => "is overlapping another origin",
            AsmMessage::OriginOverflow => "origin overflow",
        }
    }
}

/// The text each message variant carries.
pub open spec fn spec_text(m: AsmMessage) -> Seq<char> {
    match m {
        AsmMessage::BadHexDigit => "Failed to parse hex digit"@,
        AsmMessage::InvalidInstruction => "Invalid instruction"@,
        AsmMessage::LabelNotDefined => "label not defined"@,
        AsmMessage::Overlapping { .. } => "is overlapping another origin"@,
        AsmMessage::OriginOverflow => "origin overflow"@,
    }
}

/// A fatal assembly error: the stage, the 1-based source line where known,
/// the offending text, and the message.
#[derive(Clone, PartialEq, Eq, Debug)]
pub struct AsmError {
    pub stage: Stage,
    pub linenum: Option<usize>,
    pub code_snip: Vec<u8>,
    pub message: AsmMessage,
}

/// The mathematical model of an assembly error.
pub struct AsmErrorV {
    pub stage: Stage,
    pub linenum: Option<int>,
    pub code_snip: Seq<u8>,
    pub message: AsmMessage,
}

impl View for AsmError {
    type V = AsmErrorV;

    open spec fn view(&self) -> AsmErrorV {
        AsmErrorV {
            stage: self.stage,
            linenum: match self.linenum {
                Some(n) => Some(n as int),
                None => None,
            },
            code_snip: self.code_snip@,
            message: self.message,
        }
    }
}

/// What assembling a whole source text yields: the lexed token stream fed
/// to the code generator, the first error aborting everything.
pub open spec fn assemble_spec(input: Seq<u8>) -> Result<Seq<u8>, AsmErrorV> {
    match lexing::lex_spec(input) {
        Err(e) => Err(e),
        Ok(toks) => codegen::gencode_spec(toks),
    }
}

/// Assemble source text into a 256-nibble memory image: lex, then generate
/// code. All-or-nothing: the first error aborts the whole assembly.
pub fn assemble(input: &[u8]) -> (r: Result<[u4; 256], AsmError>)
    requires
        input@.len() < usize::MAX / 4,
    ensures
        match r {
            Ok(image) => assemble_spec(input@) == Ok::<_, AsmErrorV>(
                crate::emulator::seq_vals(image@),
            ),
            Err(e) => assemble_spec(input@) == Err::<Seq<u8>, _>(e@),
        },
{
    let lexed = match lexing::lex(input) {
        Ok(lexed) => lexed,
        Err(e) => {
            return Err(e);
        },
    };
    codegen::gencode(lexed)
}

} // verus!
