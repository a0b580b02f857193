//! What can go wrong while a program is assembled, and how a failure is
//! reported.

use vstd::prelude::*;
use vstd::string::StringExecFns;
use crate::numeral::{decimal_text, push_decimal};

verus! {

/// The reason for a failure.
#[derive(Clone, Copy, PartialEq, Eq, Structural, Debug)]
pub enum ErrorKind {
    /// A declaration line holds nothing after its marker.
    EmptyDeclaration,
    /// A label declaration names no label.
    MissingLabelName,
    /// An alias declaration names no alias.
    MissingAliasName,
    /// An alias declaration gives no value.
    MissingAliasValue,
    /// A declaration line starts with a keyword that is none of the known
    /// ones.
    UnknownDeclaration,
    /// A register reference is malformed or out of range, or a symbol's
    /// value is too wide for the field it is meant for.
    InvalidRegister,
    /// A token is no literal, no register reference and no known symbol.
    UndefinedSymbol,
    /// The shift amount of a shift instruction cannot be resolved.
    InvalidShiftAmount,
    /// The immediate value of an instruction cannot be resolved.
    InvalidImmediate,
    /// The address of a jump cannot be resolved.
    InvalidJumpAddress,
    /// An instruction line has fewer operands than its mnemonic takes.
    MissingOperand,
    /// An instruction line starts with no known mnemonic.
    UnknownCommand,
}

/// Where a failure happened.
#[derive(Clone, Copy, PartialEq, Eq, Structural, Debug)]
pub enum Place {
    /// In an operand on its own, outside any line.
    Operand,
    /// In a declaration; the number is the index of the line in the source,
    /// counted from zero.
    Declaration(usize),
    /// In an instruction; the number is the index of the instruction,
    /// counted from one.
    Instruction(u32),
}

/// A failure: the reason, the offending token and the place.
#[derive(Debug)]
pub struct AsmError {
    pub kind: ErrorKind,
    pub token: String,
    pub place: Place,
}

/// A failure as a mathematical value.
pub struct Failure {
    pub kind: ErrorKind,
    pub token: Seq<char>,
    pub place: Place,
}

impl View for AsmError {
    type V = Failure;

    open spec fn view(&self) -> Failure {
        Failure { kind: self.kind, token: self.token@, place: self.place }
    }
}

impl Failure {
    /// The same failure, at another place.
    pub open spec fn at(self, place: Place) -> Failure {
        Failure { kind: self.kind, token: self.token, place }
    }
}

/// The sentence that states the reason for a failure.
pub open spec fn reason_text(kind: ErrorKind, token: Seq<char>) -> Seq<char> {
    match kind {
        ErrorKind::EmptyDeclaration => "Empty symbol line"@,
        ErrorKind::MissingLabelName => "Missing label name"@,
        ErrorKind::MissingAliasName => "Missing alias name"@,
        ErrorKind::MissingAliasValue => "Missing value for alias"@,
        ErrorKind::UnknownDeclaration => "Unknown declaration: '"@ + token + "'"@,
        ErrorKind::InvalidRegister => "Invalid register: '"@ + token + "'"@,
        ErrorKind::UndefinedSymbol => "Expected a register, found '"@ + token + "'"@,
        ErrorKind::InvalidShiftAmount => "Invalid shift amount: '"@ + token + "'"@,
        ErrorKind::InvalidImmediate => "Invalid immediate value: '"@ + token + "'"@,
        ErrorKind::InvalidJumpAddress => "Invalid jump address: '"@ + token + "'"@,
        ErrorKind::MissingOperand => "Missing operand for "@ + token,
        ErrorKind::UnknownCommand => "Unknown command: "@ + token,
    }
}

/// The message that reports a failure: the reason, with the line of a
/// declaration after it and the index of an instruction before it.
pub open spec fn message_text(f: Failure) -> Seq<char> {
    match f.place {
        Place::Operand => reason_text(f.kind, f.token),
        Place::Declaration(line) => reason_text(f.kind, f.token) + " at "@ + decimal_text(
            line as nat,
        ),
        Place::Instruction(index) => "Error on line "@ + decimal_text(index as nat) + ": "@
            + reason_text(f.kind, f.token),
    }
}

impl AsmError {
    /// A failure on an operand, with no line known.
    pub fn new(kind: ErrorKind, token: String) -> (e: Self)
        ensures
            e@ == (Failure { kind, token: token@, place: Place::Operand }),
    {
        AsmError { kind, token, place: Place::Operand }
    }

    /// The same failure, at another place.
    pub fn at(self, place: Place) -> (e: Self)
        ensures
            e@ == self@.at(place),
    {
        AsmError { kind: self.kind, token: self.token, place }
    }

    /// Appends the sentence that states the reason to `out`.
    fn push_reason(&self, out: &mut String)
        ensures
            final(out)@ == old(out)@ + reason_text(self.kind, self.token@),
    {
        let token = self.token.as_str();
        match self.kind {
            ErrorKind::EmptyDeclaration => {
                out.append("Empty symbol line");
            },
            ErrorKind::MissingLabelName => {
                out.append("Missing label name");
            },
            ErrorKind::MissingAliasName => {
                out.append("Missing alias name");
            },
            ErrorKind::MissingAliasValue => {
                out.append("Missing value for alias");
            },
            ErrorKind::UnknownDeclaration => {
                out.append("Unknown declaration: '");
                out.append(token);
                out.append("'");
            },
            ErrorKind::InvalidRegister => {
                out.append("Invalid register: '");
                out.append(token);
                out.append("'");
            },
            ErrorKind::UndefinedSymbol => {
                out.append("Expected a register, found '");
                out.append(token);
                out.append("'");
            },
            ErrorKind::InvalidShiftAmount => {
                out.append("Invalid shift amount: '");
                out.append(token);
                out.append("'");
            },
            ErrorKind::InvalidImmediate => {
                out.append("Invalid immediate value: '");
                out.append(token);
                out.append("'");
            },
            ErrorKind::InvalidJumpAddress => {
                out.append("Invalid jump address: '");
                out.append(token);
                out.append("'");
            },
            ErrorKind::MissingOperand => {
                out.append("Missing operand for ");
                out.append(token);
            },
            ErrorKind::UnknownCommand => {
                out.append("Unknown command: ");
                out.append(token);
            },
        }
        assert(out@ =~= old(out)@ + reason_text(self.kind, self.token@));
    }

    /// The message that reports the failure.
    pub fn message(&self) -> (text: String)
        ensures
            text@ == message_text(self@),
    {
        let mut text = String::new();
        match self.place {
            Place::Operand => {
                self.push_reason(&mut text);
            },
            Place::Declaration(line) => {
                self.push_reason(&mut text);
                text.append(" at ");
                push_decimal(&mut text, line as u64);
            },
            Place::Instruction(index) => {
                text.append("Error on line ");
                push_decimal(&mut text, index as u64);
                text.append(": ");
                self.push_reason(&mut text);
            },
        }
        assert(text@ =~= message_text(self@));
        text
    }
}

} // verus!
