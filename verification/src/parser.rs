//! The two passes of the assembler. The first pass reads the declarations
//! of a source and builds the symbol table; the second pass translates
//! each instruction line, with the table at hand, into the text of its
//! encoding.
//!
//! A line that starts with `!` is a declaration, an empty line or one that
//! starts with `#` is a comment, and every other line is an instruction.
//! Targets and addresses count instructions, not bytes. A label stands for
//! the number of instructions before it. The instructions themselves are
//! counted from one, so the offset of a branch is the distance from the
//! instruction after the branch to the target.

use vstd::prelude::*;
use crate::datakind::{Assemble, IType, InstructionKind, JType, RType};
use crate::error::{AsmError, ErrorKind, Failure, Place};
use crate::mnemonic::{classify, operation_of, Operation, ADD_IMMEDIATE, BRANCH};
use crate::numeral::{decimal_text, parse_window, push_decimal, unsigned_literal};
use crate::symbols::SymbolTable;
use crate::text::{
    chars_of,
    leading,
    push_chars,
    scan_backward,
    scan_forward,
    source_lines,
    spells,
    split_source,
    split_window,
    string_from,
    texts,
    trailing,
    uppercase_of,
    words,
    CharClass,
};

verus! {

/// The width of the field that an operand is meant for.
#[derive(Clone, Copy, PartialEq, Eq, Structural, Debug)]
pub enum Width {
    /// Eight bits: a register or a shift amount.
    Byte,
    /// Sixteen bits: an immediate value.
    Half,
    /// Thirty-two bits: an address, a target or the value of a symbol.
    Word,
}

impl Width {
    /// The greatest value that a field of this width holds.
    pub open spec fn max(self) -> nat {
        match self {
            Width::Byte => 0xff,
            Width::Half => 0xffff,
            Width::Word => 0xffff_ffff,
        }
    }

    /// The greatest value that a field of this width holds.
    pub fn limit(self) -> (m: u32)
        ensures
            m == self.max(),
    {
        match self {
            Width::Byte => 0xff,
            Width::Half => 0xffff,
            Width::Word => 0xffff_ffff,
        }
    }
}

/// The greatest register index.
pub const LAST_REGISTER: u32 = 31;

/// A failure on an operand, with no line known.
pub open spec fn failure(kind: ErrorKind, token: Seq<char>) -> Failure {
    Failure { kind, token, place: Place::Operand }
}

/// What the operand `token` stands for in a field of the given width. The
/// first reading that applies decides:
///
/// 1. an unsigned decimal literal that fits the field is its own value;
/// 2. a token that starts with `r` is a register reference, and what
///    follows the `r` must be a literal no greater than 31;
/// 3. any other token is the name of a symbol, whose value must fit the
///    field.
pub open spec fn resolved(token: Seq<char>, symbols: Map<Seq<char>, u32>, width: Width) -> Result<
    u32,
    Failure,
> {
    if unsigned_literal(token, width.max()) is Some {
        Ok(unsigned_literal(token, width.max())->0 as u32)
    } else if token.len() > 0 && token[0] == 'r' {
        match unsigned_literal(token.skip(1), LAST_REGISTER as nat) {
            Some(n) => Ok(n as u32),
            None => Err(failure(ErrorKind::InvalidRegister, token.skip(1))),
        }
    } else if !symbols.contains_key(token) {
        Err(failure(ErrorKind::UndefinedSymbol, token))
    } else if symbols[token] > width.max() {
        Err(failure(ErrorKind::InvalidRegister, token))
    } else {
        Ok(symbols[token])
    }
}

/// A resolved operand fits the field that it was resolved for.
pub proof fn lemma_resolved_fits(token: Seq<char>, symbols: Map<Seq<char>, u32>, width: Width)
    ensures
        resolved(token, symbols, width) matches Ok(v) ==> v <= width.max(),
{
}

/// A token that is no literal and no register reference, and that the
/// table does not bind, is an undefined symbol, whatever the width.
pub proof fn lemma_undefined_symbol(token: Seq<char>, symbols: Map<Seq<char>, u32>, width: Width)
    requires
        unsigned_literal(token, width.max()) is None,
        token.len() == 0 || token[0] != 'r',
        !symbols.contains_key(token),
    ensures
        resolved(token, symbols, width) == Err::<u32, Failure>(
            failure(ErrorKind::UndefinedSymbol, token),
        ),
{
}

/// Resolves the operand `value` for a field of the given width.
pub fn resolve_symbol(value: &str, sym: &SymbolTable, width: Width) -> (r: Result<u32, AsmError>)
    ensures
        match r {
            Ok(v) => resolved(value@, sym@, width) == Ok::<u32, Failure>(v) && v <= width.max(),
            Err(e) => resolved(value@, sym@, width) == Err::<u32, Failure>(e@),
        },
{
    let v = chars_of(value);
    assert(v@.subrange(0, v.len() as int) =~= v@);
    if let Some(n) = parse_window(&v, 0, v.len(), width.limit()) {
        return Ok(n);
    }
    if v.len() > 0 && v[0] == 'r' {
        assert(v@.subrange(1, v.len() as int) =~= v@.skip(1));
        return match parse_window(&v, 1, v.len(), LAST_REGISTER) {
            Some(n) => Ok(n),
            None => Err(AsmError::new(ErrorKind::InvalidRegister, string_from(&v, 1, v.len()))),
        };
    }
    match sym.get(value) {
        None => Err(AsmError::new(ErrorKind::UndefinedSymbol, string_from(&v, 0, v.len()))),
        Some(n) => if n > width.limit() {
            Err(AsmError::new(ErrorKind::InvalidRegister, string_from(&v, 0, v.len())))
        } else {
            Ok(n)
        },
    }
}

/// The operand at `position` of an instruction line, for a field of the
/// given width. A line that has no word there lacks an operand.
pub open spec fn operand(
    segments: Seq<Seq<char>>,
    position: int,
    symbols: Map<Seq<char>, u32>,
    width: Width,
    mnemonic: Seq<char>,
) -> Result<u32, Failure> {
    if position >= segments.len() {
        Err(failure(ErrorKind::MissingOperand, mnemonic))
    } else {
        resolved(segments[position], symbols, width)
    }
}

/// The operand at `position`, where a failure to resolve it is reported
/// under `kind` with the whole word.
pub open spec fn operand_as(
    segments: Seq<Seq<char>>,
    position: int,
    symbols: Map<Seq<char>, u32>,
    width: Width,
    mnemonic: Seq<char>,
    kind: ErrorKind,
) -> Result<u32, Failure> {
    if position >= segments.len() {
        Err(failure(ErrorKind::MissingOperand, mnemonic))
    } else {
        match resolved(segments[position], symbols, width) {
            Ok(v) => Ok(v),
            Err(_) => Err(failure(kind, segments[position])),
        }
    }
}

/// The two registers that stand first after a mnemonic, in that order.
pub open spec fn register_pair(
    segments: Seq<Seq<char>>,
    symbols: Map<Seq<char>, u32>,
    mnemonic: Seq<char>,
) -> Result<(u8, u8), Failure> {
    match operand(segments, 1, symbols, Width::Byte, mnemonic) {
        Err(e) => Err(e),
        Ok(first) => match operand(segments, 2, symbols, Width::Byte, mnemonic) {
            Err(e) => Err(e),
            Ok(second) => Ok((first as u8, second as u8)),
        },
    }
}

/// The offset of a branch in the instruction with the given index, counted
/// from one, to the target, counted from zero: their difference modulo
/// 2^16.
pub open spec fn branch_offset(target: u32, index: u32) -> u16 {
    ((target as int - index as int) % 0x1_0000) as u16
}

/// The instruction that `operation` makes of the words of a line. The
/// first word is the mnemonic; the operands follow and are resolved from
/// left to right, and the first that fails decides the failure.
pub open spec fn instruction(
    operation: Operation,
    mnemonic: Seq<char>,
    segments: Seq<Seq<char>>,
    symbols: Map<Seq<char>, u32>,
    index: u32,
) -> Result<InstructionKind, Failure> {
    match operation {
        Operation::Goto => match operand(segments, 1, symbols, Width::Word, mnemonic) {
            Err(e) => Err(e),
            Ok(target) => Ok(
                InstructionKind::I(
                    IType { op: BRANCH, rs: 0, rt: 0, imm: branch_offset(target, index) },
                ),
            ),
        },
        Operation::Mov => match register_pair(segments, symbols, mnemonic) {
            Err(e) => Err(e),
            Ok((rt, rs)) => Ok(InstructionKind::I(IType { op: ADD_IMMEDIATE, rs, rt, imm: 0 })),
        },
        Operation::Inc => match operand(segments, 1, symbols, Width::Byte, mnemonic) {
            Err(e) => Err(e),
            Ok(rt) => Ok(
                InstructionKind::I(
                    IType { op: ADD_IMMEDIATE, rs: rt as u8, rt: rt as u8, imm: 1 },
                ),
            ),
        },
        Operation::Shift { func } => match register_pair(segments, symbols, mnemonic) {
            Err(e) => Err(e),
            Ok((rd, rt)) => match operand_as(
                segments,
                3,
                symbols,
                Width::Byte,
                mnemonic,
                ErrorKind::InvalidShiftAmount,
            ) {
                Err(e) => Err(e),
                Ok(shamt) => Ok(
                    InstructionKind::R(RType { rs: 0, rt, rd, shamt: shamt as u8, func }),
                ),
            },
        },
        Operation::Arithmetic { func } => match register_pair(segments, symbols, mnemonic) {
            Err(e) => Err(e),
            Ok((rd, rs)) => match operand(segments, 3, symbols, Width::Byte, mnemonic) {
                Err(e) => Err(e),
                Ok(rt) => Ok(InstructionKind::R(RType { rs, rt: rt as u8, rd, shamt: 0, func })),
            },
        },
        Operation::Single { op } => match operand(segments, 1, symbols, Width::Byte, mnemonic) {
            Err(e) => Err(e),
            Ok(rt) => Ok(InstructionKind::I(IType { op, rs: 0, rt: rt as u8, imm: 0 })),
        },
        Operation::Immediate { op } => match register_pair(segments, symbols, mnemonic) {
            Err(e) => Err(e),
            Ok((rt, rs)) => match operand_as(
                segments,
                3,
                symbols,
                Width::Half,
                mnemonic,
                ErrorKind::InvalidImmediate,
            ) {
                Err(e) => Err(e),
                Ok(imm) => Ok(InstructionKind::I(IType { op, rs, rt, imm: imm as u16 })),
            },
        },
        Operation::Branch { op } => match register_pair(segments, symbols, mnemonic) {
            Err(e) => Err(e),
            Ok((rt, rs)) => match operand(segments, 3, symbols, Width::Word, mnemonic) {
                Err(e) => Err(e),
                Ok(target) => Ok(
                    InstructionKind::I(IType { op, rs, rt, imm: branch_offset(target, index) }),
                ),
            },
        },
        Operation::Jump { op } => match operand_as(
            segments,
            1,
            symbols,
            Width::Word,
            mnemonic,
            ErrorKind::InvalidJumpAddress,
        ) {
            Err(e) => Err(e),
            Ok(addr) => Ok(InstructionKind::J(JType { op, addr })),
        },
    }
}

/// The instruction that the words of a line stand for, where `mnemonic` is
/// the first word in upper case and `index` is the index of the
/// instruction, counted from one. A failure is placed at that instruction.
pub open spec fn translated(
    mnemonic: Seq<char>,
    segments: Seq<Seq<char>>,
    symbols: Map<Seq<char>, u32>,
    index: u32,
) -> Result<InstructionKind, Failure> {
    match operation_of(mnemonic) {
        None => Err(
            Failure {
                kind: ErrorKind::UnknownCommand,
                token: mnemonic,
                place: Place::Instruction(index),
            },
        ),
        Some(operation) => match instruction(operation, mnemonic, segments, symbols, index) {
            Ok(cmd) => Ok(cmd),
            Err(e) => Err(e.at(Place::Instruction(index))),
        },
    }
}

/// Resolves the operand at `position` of an instruction line.
fn fetch(
    segments: &Vec<String>,
    position: usize,
    symbols: &SymbolTable,
    width: Width,
    mnemonic: &str,
) -> (r: Result<u32, AsmError>)
    ensures
        match r {
            Ok(v) => operand(texts(segments@), position as int, symbols@, width, mnemonic@) == Ok::<
                u32,
                Failure,
            >(v) && v <= width.max(),
            Err(e) => operand(texts(segments@), position as int, symbols@, width, mnemonic@)
                == Err::<u32, Failure>(e@),
        },
{
    if position >= segments.len() {
        Err(AsmError::new(ErrorKind::MissingOperand, mnemonic.to_owned()))
    } else {
        resolve_symbol(segments[position].as_str(), symbols, width)
    }
}

/// Resolves the operand at `position` and reports a failure to resolve it
/// under `kind`.
fn fetch_as(
    segments: &Vec<String>,
    position: usize,
    symbols: &SymbolTable,
    width: Width,
    mnemonic: &str,
    kind: ErrorKind,
) -> (r: Result<u32, AsmError>)
    ensures
        match r {
            Ok(v) => operand_as(
                texts(segments@),
                position as int,
                symbols@,
                width,
                mnemonic@,
                kind,
            ) == Ok::<u32, Failure>(v) && v <= width.max(),
            Err(e) => operand_as(
                texts(segments@),
                position as int,
                symbols@,
                width,
                mnemonic@,
                kind,
            ) == Err::<u32, Failure>(e@),
        },
{
    if position >= segments.len() {
        Err(AsmError::new(ErrorKind::MissingOperand, mnemonic.to_owned()))
    } else {
        match resolve_symbol(segments[position].as_str(), symbols, width) {
            Ok(v) => Ok(v),
            Err(_) => Err(AsmError::new(kind, segments[position].clone())),
        }
    }
}

/// Resolves the two registers that stand first after a mnemonic.
fn fetch_pair(segments: &Vec<String>, symbols: &SymbolTable, mnemonic: &str) -> (r: Result<
    (u8, u8),
    AsmError,
>)
    ensures
        match r {
            Ok(pair) => register_pair(texts(segments@), symbols@, mnemonic@) == Ok::<
                (u8, u8),
                Failure,
            >(pair),
            Err(e) => register_pair(texts(segments@), symbols@, mnemonic@) == Err::<
                (u8, u8),
                Failure,
            >(e@),
        },
{
    let first = match fetch(segments, 1, symbols, Width::Byte, mnemonic) {
        Ok(v) => v,
        Err(e) => {
            return Err(e);
        },
    };
    let second = match fetch(segments, 2, symbols, Width::Byte, mnemonic) {
        Ok(v) => v,
        Err(e) => {
            return Err(e);
        },
    };
    Ok((first as u8, second as u8))
}

/// Computes the offset of a branch from the instruction with the given
/// index to the target instruction.
pub fn offset_to(target: u32, index: u32) -> (offset: u16)
    ensures
        offset == branch_offset(target, index),
{
    let d: u32 = target.wrapping_sub(index);
    assert(d as int == (target as int - index as int) % 0x1_0000_0000);
    let offset: u16 = (d & 0xffff) as u16;
    assert(offset == d % 0x1_0000) by (bit_vector)
        requires
            offset == (d & 0xffff) as u16,
    ;
    offset
}

/// Makes the instruction that `operation` asks for of the words of a line.
pub fn build(
    operation: Operation,
    mnemonic: &str,
    segments: &Vec<String>,
    symbols: &SymbolTable,
    index: u32,
) -> (r: Result<InstructionKind, AsmError>)
    ensures
        match r {
            Ok(cmd) => instruction(operation, mnemonic@, texts(segments@), symbols@, index) == Ok::<
                InstructionKind,
                Failure,
            >(cmd),
            Err(e) => instruction(operation, mnemonic@, texts(segments@), symbols@, index) == Err::<
                InstructionKind,
                Failure,
            >(e@),
        },
{
    match operation {
        Operation::Goto => {
            let target = fetch(segments, 1, symbols, Width::Word, mnemonic)?;
            Ok(InstructionKind::I(IType::new(0, 0, offset_to(target, index), BRANCH)))
        },
        Operation::Mov => {
            let (rt, rs) = fetch_pair(segments, symbols, mnemonic)?;
            Ok(InstructionKind::I(IType::new(rs, rt, 0, ADD_IMMEDIATE)))
        },
        Operation::Inc => {
            let rt = fetch(segments, 1, symbols, Width::Byte, mnemonic)? as u8;
            Ok(InstructionKind::I(IType::new(rt, rt, 1, ADD_IMMEDIATE)))
        },
        Operation::Shift { func } => {
            let (rd, rt) = fetch_pair(segments, symbols, mnemonic)?;
            let shamt = fetch_as(
                segments,
                3,
                symbols,
                Width::Byte,
                mnemonic,
                ErrorKind::InvalidShiftAmount,
            )? as u8;
            Ok(InstructionKind::R(RType::new(0, rt, rd, shamt, func)))
        },
        Operation::Arithmetic { func } => {
            let (rd, rs) = fetch_pair(segments, symbols, mnemonic)?;
            let rt = fetch(segments, 3, symbols, Width::Byte, mnemonic)? as u8;
            Ok(InstructionKind::R(RType::new(rs, rt, rd, 0, func)))
        },
        Operation::Single { op } => {
            let rt = fetch(segments, 1, symbols, Width::Byte, mnemonic)? as u8;
            Ok(InstructionKind::I(IType::new(0, rt, 0, op)))
        },
        Operation::Immediate { op } => {
            let (rt, rs) = fetch_pair(segments, symbols, mnemonic)?;
            let imm = fetch_as(
                segments,
                3,
                symbols,
                Width::Half,
                mnemonic,
                ErrorKind::InvalidImmediate,
            )? as u16;
            Ok(InstructionKind::I(IType::new(rs, rt, imm, op)))
        },
        Operation::Branch { op } => {
            let (rt, rs) = fetch_pair(segments, symbols, mnemonic)?;
            let target = fetch(segments, 3, symbols, Width::Word, mnemonic)?;
            Ok(InstructionKind::I(IType::new(rs, rt, offset_to(target, index), op)))
        },
        Operation::Jump { op } => {
            let addr = fetch_as(
                segments,
                1,
                symbols,
                Width::Word,
                mnemonic,
                ErrorKind::InvalidJumpAddress,
            )?;
            Ok(InstructionKind::J(JType::new(addr, op)))
        },
    }
}

/// Translates the words of an instruction line, where `mnemonic` is the
/// first word in upper case and `index` is the index of the instruction,
/// counted from one.
pub fn translate(mnemonic: &str, segments: &Vec<String>, symbols: &SymbolTable, index: u32) -> (r:
    Result<InstructionKind, AsmError>)
    ensures
        match r {
            Ok(cmd) => translated(mnemonic@, texts(segments@), symbols@, index) == Ok::<
                InstructionKind,
                Failure,
            >(cmd),
            Err(e) => translated(mnemonic@, texts(segments@), symbols@, index) == Err::<
                InstructionKind,
                Failure,
            >(e@),
        },
{
    match classify(mnemonic) {
        None => Err(
            AsmError::new(ErrorKind::UnknownCommand, mnemonic.to_owned()).at(
                Place::Instruction(index),
            ),
        ),
        Some(operation) => match build(operation, mnemonic, segments, symbols, index) {
            Ok(cmd) => Ok(cmd),
            Err(e) => Err(e.at(Place::Instruction(index))),
        },
    }
}

/// Whether `line` is a declaration: it starts with the marker `!`.
pub open spec fn is_declaration(line: Seq<char>) -> bool {
    line.len() > 0 && line[0] == '!'
}

/// Whether `line` is an instruction: it is not empty and starts neither
/// with the declaration marker `!` nor with the comment marker `#`.
pub open spec fn is_instruction(line: Seq<char>) -> bool {
    line.len() > 0 && line[0] != '!' && line[0] != '#'
}

/// The part of an instruction line before its first comment marker.
pub open spec fn code_of(line: Seq<char>) -> Seq<char> {
    line.take(leading(line, CharClass::Code) as int)
}

/// The output line of an instruction: the text of the encoding and, unless
/// comments are left out, the code it was made of and the index of the
/// instruction.
pub open spec fn annotated(encoding: Seq<char>, code: Seq<char>, index: u32, no_comments: bool)
    -> Seq<char> {
    if no_comments {
        encoding
    } else {
        encoding + " # "@ + code + " [ln."@ + decimal_text(index as nat) + "]"@
    }
}

/// The output line of the instruction line `line`, which is the
/// instruction with the given index, counted from one. A line that holds no
/// word before its comment has no mnemonic and is an unknown command.
///
/// Opaque: `reveal` it to reason about single lines.
#[verifier::opaque]
pub open spec fn instruction_line(
    line: Seq<char>,
    symbols: Map<Seq<char>, u32>,
    index: u32,
    no_comments: bool,
) -> Result<Seq<char>, Failure> {
    let segments = words(code_of(line));
    if segments.len() == 0 {
        Err(
            Failure {
                kind: ErrorKind::UnknownCommand,
                token: Seq::empty(),
                place: Place::Instruction(index),
            },
        )
    } else {
        match translated(uppercase_of(segments[0]), segments, symbols, index) {
            Ok(cmd) => Ok(annotated(cmd.encoding(), code_of(line), index, no_comments)),
            Err(e) => Err(e),
        }
    }
}

/// The output line of a line that is no instruction: a declaration turned
/// into a comment, or the line itself.
pub open spec fn echoed(line: Seq<char>) -> Seq<char> {
    if is_declaration(line) {
        "# "@ + line
    } else {
        line
    }
}

/// What the second pass has made of the first `n` lines: the output lines
/// and the number of instructions so far. The first failure ends the pass.
pub open spec fn assembled_upto(
    lines: Seq<Seq<char>>,
    symbols: Map<Seq<char>, u32>,
    no_comments: bool,
    n: nat,
) -> Result<(Seq<Seq<char>>, nat), Failure>
    decreases n,
{
    if n == 0 {
        Ok((Seq::empty(), 0))
    } else {
        match assembled_upto(lines, symbols, no_comments, (n - 1) as nat) {
            Err(e) => Err(e),
            Ok((output, counter)) => {
                let line = lines[n - 1];
                if is_instruction(line) {
                    match instruction_line(line, symbols, (counter + 1) as u32, no_comments) {
                        Ok(text) => Ok((output.push(text), counter + 1)),
                        Err(e) => Err(e),
                    }
                } else if no_comments {
                    Ok((output, counter))
                } else {
                    Ok((output.push(echoed(line)), counter))
                }
            },
        }
    }
}

/// The output of the second pass: one line for each instruction and,
/// unless comments are left out, one for each other line, in the order of
/// the source; or the first failure.
pub open spec fn assembled(lines: Seq<Seq<char>>, symbols: Map<Seq<char>, u32>, no_comments: bool)
    -> Result<Seq<Seq<char>>, Failure> {
    match assembled_upto(lines, symbols, no_comments, lines.len()) {
        Ok((output, _)) => Ok(output),
        Err(e) => Err(e),
    }
}

/// Translates the instruction line `v`, which is the instruction with the
/// given index, into its output line.
fn assemble_line(v: &Vec<char>, symbols: &SymbolTable, index: u32, no_comments: bool) -> (r:
    Result<String, AsmError>)
    ensures
        match r {
            Ok(text) => instruction_line(v@, symbols@, index, no_comments) == Ok::<
                Seq<char>,
                Failure,
            >(text@),
            Err(e) => instruction_line(v@, symbols@, index, no_comments) == Err::<
                Seq<char>,
                Failure,
            >(e@),
        },
{
    reveal(instruction_line);
    assert(v@.subrange(0, v.len() as int) =~= v@);
    let end = scan_forward(v, 0, v.len(), CharClass::Code);
    assert(v@.subrange(0, end as int) =~= code_of(v@));
    let segments = split_window(v, 0, end);
    if segments.len() == 0 {
        return Err(
            AsmError::new(ErrorKind::UnknownCommand, String::new()).at(Place::Instruction(index)),
        );
    }
    let mnemonic = segments[0].as_str().to_uppercase();
    let cmd = translate(mnemonic.as_str(), &segments, symbols, index)?;
    let mut text = cmd.assemble();
    if !no_comments {
        text.append(" # ");
        push_chars(&mut text, v, 0, end);
        text.append(" [ln.");
        push_decimal(&mut text, index as u64);
        text.append("]");
        assert(text@ =~= annotated(cmd.encoding(), code_of(v@), index, no_comments));
    }
    Ok(text)
}

/// The second pass: translates the lines of a source, with its symbol
/// table at hand, into the lines of the output.
pub fn assemble(lines: &Vec<String>, symbols: &SymbolTable, no_comments: bool) -> (r: Result<
    Vec<String>,
    AsmError,
>)
    requires
        lines.len() <= u32::MAX,
    ensures
        match r {
            Ok(output) => assembled(texts(lines@), symbols@, no_comments) == Ok::<
                Seq<Seq<char>>,
                Failure,
            >(texts(output@)),
            Err(e) => assembled(texts(lines@), symbols@, no_comments) == Err::<
                Seq<Seq<char>>,
                Failure,
            >(e@),
        },
{
    let mut res: Vec<String> = Vec::new();
    let mut lineno: u32 = 0;
    let mut i: usize = 0;
    assert(texts(res@) =~= Seq::<Seq<char>>::empty());
    while i < lines.len()
        invariant
            i <= lines.len() <= u32::MAX,
            lineno <= i,
            assembled_upto(texts(lines@), symbols@, no_comments, i as nat) == Ok::<
                (Seq<Seq<char>>, nat),
                Failure,
            >((texts(res@), lineno as nat)),
        decreases lines.len() - i,
    {
        let line = lines[i].as_str();
        let v = chars_of(line);
        let ghost before = texts(res@);
        let ghost source = texts(lines@);
        assert(source[i as int] == v@);
        if v.len() > 0 && v[0] != '!' && v[0] != '#' {
            lineno += 1;
            match assemble_line(&v, symbols, lineno, no_comments) {
                Ok(text) => {
                    res.push(text);
                    assert(texts(res@) =~= before.push(text@));
                },
                Err(e) => {
                    proof {
                        assert(assembled_upto(source, symbols@, no_comments, (i + 1) as nat)
                            == Err::<(Seq<Seq<char>>, nat), Failure>(e@));
                        lemma_failure_is_final(
                            source,
                            symbols@,
                            no_comments,
                            (i + 1) as nat,
                            lines.len() as nat,
                        );
                    }
                    return Err(e);
                },
            }
        } else if !no_comments {
            let text = echo(line, &v);
            res.push(text);
            assert(texts(res@) =~= before.push(text@));
        }
        i += 1;
    }
    Ok(res)
}

/// Makes the output line of a line that is no instruction.
fn echo(line: &str, v: &Vec<char>) -> (text: String)
    requires
        v@ == line@,
    ensures
        text@ == echoed(line@),
{
    let mut text = String::new();
    if v.len() > 0 && v[0] == '!' {
        text.append("# ");
    }
    text.append(line);
    assert(text@ =~= echoed(line@));
    text
}

/// Once the second pass has failed it stays failed: the lines that follow
/// change nothing.
pub proof fn lemma_failure_is_final(
    lines: Seq<Seq<char>>,
    symbols: Map<Seq<char>, u32>,
    no_comments: bool,
    n: nat,
    m: nat,
)
    requires
        n <= m,
        assembled_upto(lines, symbols, no_comments, n) is Err,
    ensures
        assembled_upto(lines, symbols, no_comments, m) == assembled_upto(
            lines,
            symbols,
            no_comments,
            n,
        ),
    decreases m - n,
{
    if n < m {
        lemma_failure_is_final(lines, symbols, no_comments, n, (m - 1) as nat);
    }
}

/// A label's name as it is bound: without the colons at its end.
pub open spec fn label_name(word: Seq<char>) -> Seq<char> {
    word.take(word.len() - trailing(word, CharClass::Colon))
}

/// The name and the value that a declaration binds, where `keyword` is its
/// first word in upper case, `segments` are all its words, `counter` is
/// the number of instructions before it, and `line` is its index in the
/// source.
///
/// `LABEL name` binds the name to the index of the next instruction.
/// `ALIAS name value` binds the name to what the value resolves to in the
/// table as it stands.
pub open spec fn binding(
    keyword: Seq<char>,
    segments: Seq<Seq<char>>,
    symbols: Map<Seq<char>, u32>,
    counter: u32,
    line: usize,
) -> Result<(Seq<char>, u32), Failure> {
    let place = Place::Declaration(line);
    if keyword == "LABEL"@ {
        if segments.len() < 2 {
            Err(Failure { kind: ErrorKind::MissingLabelName, token: Seq::empty(), place })
        } else {
            Ok((label_name(segments[1]), counter))
        }
    } else if keyword == "ALIAS"@ {
        if segments.len() < 2 {
            Err(Failure { kind: ErrorKind::MissingAliasName, token: Seq::empty(), place })
        } else if segments.len() < 3 {
            Err(Failure { kind: ErrorKind::MissingAliasValue, token: Seq::empty(), place })
        } else {
            match resolved(segments[2], symbols, Width::Word) {
                Ok(value) => Ok((segments[1], value)),
                Err(e) => Err(e.at(place)),
            }
        }
    } else {
        Err(Failure { kind: ErrorKind::UnknownDeclaration, token: keyword, place })
    }
}

/// The name and the value that the declaration line `text` binds. The
/// first word after the marker, in upper case, is the keyword.
///
/// Opaque: `reveal` it to reason about single lines.
#[verifier::opaque]
pub open spec fn declaration(
    text: Seq<char>,
    symbols: Map<Seq<char>, u32>,
    counter: u32,
    line: usize,
) -> Result<(Seq<char>, u32), Failure> {
    let segments = words(text.skip(1));
    if segments.len() == 0 {
        Err(
            Failure {
                kind: ErrorKind::EmptyDeclaration,
                token: Seq::empty(),
                place: Place::Declaration(line),
            },
        )
    } else {
        binding(uppercase_of(segments[0]), segments, symbols, counter, line)
    }
}

/// What the first pass has made of the first `n` lines: the symbol table
/// and the number of instructions so far. The first failure ends the pass.
pub open spec fn scanned(lines: Seq<Seq<char>>, n: nat) -> Result<(Map<Seq<char>, u32>, nat), Failure>
    decreases n,
{
    if n == 0 {
        Ok((Map::empty(), 0))
    } else {
        match scanned(lines, (n - 1) as nat) {
            Err(e) => Err(e),
            Ok((symbols, counter)) => {
                let line = lines[n - 1];
                if is_declaration(line) {
                    match declaration(line, symbols, counter as u32, (n - 1) as usize) {
                        Ok((name, value)) => Ok((symbols.insert(name, value), counter)),
                        Err(e) => Err(e),
                    }
                } else if is_instruction(line) {
                    Ok((symbols, counter + 1))
                } else {
                    Ok((symbols, counter))
                }
            },
        }
    }
}

/// The symbol table of a source, or the first failure of the first pass.
pub open spec fn symbol_table(lines: Seq<Seq<char>>) -> Result<Map<Seq<char>, u32>, Failure> {
    match scanned(lines, lines.len()) {
        Ok((symbols, _)) => Ok(symbols),
        Err(e) => Err(e),
    }
}

/// The number of instruction lines among the first `n` lines.
pub open spec fn instruction_count(lines: Seq<Seq<char>>, n: nat) -> nat
    decreases n,
{
    if n == 0 {
        0
    } else if is_instruction(lines[n - 1]) {
        instruction_count(lines, (n - 1) as nat) + 1
    } else {
        instruction_count(lines, (n - 1) as nat)
    }
}

/// The counter of the first pass is the number of instruction lines read,
/// which is no more than the number of lines.
pub proof fn lemma_scanned_counter(lines: Seq<Seq<char>>, n: nat)
    ensures
        instruction_count(lines, n) <= n,
        scanned(lines, n) matches Ok((_, counter)) ==> counter == instruction_count(lines, n),
    decreases n,
{
    if n > 0 {
        lemma_scanned_counter(lines, (n - 1) as nat);
    }
}

/// Once the first pass has failed it stays failed: the lines that follow
/// change nothing.
pub proof fn lemma_scan_failure_is_final(lines: Seq<Seq<char>>, n: nat, m: nat)
    requires
        n <= m,
        scanned(lines, n) is Err,
    ensures
        scanned(lines, m) == scanned(lines, n),
    decreases m - n,
{
    if n < m {
        lemma_scan_failure_is_final(lines, n, (m - 1) as nat);
    }
}

/// Works out the name and the value that a declaration binds, where
/// `keyword` is its first word in upper case.
pub fn declare(
    keyword: &str,
    segments: &Vec<String>,
    symbols: &SymbolTable,
    counter: u32,
    line: usize,
) -> (r: Result<(String, u32), AsmError>)
    ensures
        match r {
            Ok((name, value)) => binding(keyword@, texts(segments@), symbols@, counter, line)
                == Ok::<(Seq<char>, u32), Failure>((name@, value)),
            Err(e) => binding(keyword@, texts(segments@), symbols@, counter, line) == Err::<
                (Seq<char>, u32),
                Failure,
            >(e@),
        },
{
    let place = Place::Declaration(line);
    let key = chars_of(keyword);
    if spells(&key, "LABEL") {
        if segments.len() < 2 {
            return Err(AsmError::new(ErrorKind::MissingLabelName, String::new()).at(place));
        }
        let word = chars_of(segments[1].as_str());
        assert(word@.subrange(0, word.len() as int) =~= word@);
        let end = scan_backward(&word, 0, word.len(), CharClass::Colon);
        assert(word@.subrange(0, end as int) =~= label_name(word@));
        Ok((string_from(&word, 0, end), counter))
    } else if spells(&key, "ALIAS") {
        if segments.len() < 2 {
            return Err(AsmError::new(ErrorKind::MissingAliasName, String::new()).at(place));
        }
        if segments.len() < 3 {
            return Err(AsmError::new(ErrorKind::MissingAliasValue, String::new()).at(place));
        }
        match resolve_symbol(segments[2].as_str(), symbols, Width::Word) {
            Ok(value) => Ok((segments[1].clone(), value)),
            Err(e) => Err(e.at(place)),
        }
    } else {
        Err(AsmError::new(ErrorKind::UnknownDeclaration, keyword.to_owned()).at(place))
    }
}

/// Works out the name and the value that the declaration line `v` binds.
fn declare_line(v: &Vec<char>, symbols: &SymbolTable, counter: u32, line: usize) -> (r: Result<
    (String, u32),
    AsmError,
>)
    requires
        v.len() > 0,
    ensures
        match r {
            Ok((name, value)) => declaration(v@, symbols@, counter, line) == Ok::<
                (Seq<char>, u32),
                Failure,
            >((name@, value)),
            Err(e) => declaration(v@, symbols@, counter, line) == Err::<
                (Seq<char>, u32),
                Failure,
            >(e@),
        },
{
    reveal(declaration);
    assert(v@.subrange(1, v.len() as int) =~= v@.skip(1));
    let segments = split_window(v, 1, v.len());
    if segments.len() == 0 {
        return Err(
            AsmError::new(ErrorKind::EmptyDeclaration, String::new()).at(Place::Declaration(line)),
        );
    }
    let keyword = segments[0].as_str().to_uppercase();
    declare(keyword.as_str(), &segments, symbols, counter, line)
}

/// The first pass: reads the lines of a source and builds its symbol
/// table.
pub fn parse_symbols(lines: &Vec<String>) -> (r: Result<SymbolTable, AsmError>)
    requires
        lines.len() <= u32::MAX,
    ensures
        match r {
            Ok(symbols) => symbol_table(texts(lines@)) == Ok::<Map<Seq<char>, u32>, Failure>(
                symbols@,
            ),
            Err(e) => symbol_table(texts(lines@)) == Err::<Map<Seq<char>, u32>, Failure>(e@),
        },
{
    let mut symbols = SymbolTable::new();
    let mut lineno: u32 = 0;
    let mut i: usize = 0;
    while i < lines.len()
        invariant
            i <= lines.len() <= u32::MAX,
            lineno <= i,
            scanned(texts(lines@), i as nat) == Ok::<(Map<Seq<char>, u32>, nat), Failure>(
                (symbols@, lineno as nat),
            ),
        decreases lines.len() - i,
    {
        let v = chars_of(lines[i].as_str());
        assert(texts(lines@)[i as int] == v@);
        if v.len() > 0 && v[0] == '!' {
            match declare_line(&v, &symbols, lineno, i) {
                Ok((name, value)) => {
                    symbols.insert(name, value);
                },
                Err(e) => {
                    proof {
                        lemma_scan_failure_is_final(
                            texts(lines@),
                            (i + 1) as nat,
                            lines.len() as nat,
                        );
                    }
                    return Err(e);
                },
            }
        } else if v.len() > 0 && v[0] != '#' {
            lineno += 1;
        }
        i += 1;
    }
    Ok(symbols)
}

/// What a source text assembles to: the output of the second pass on its
/// lines, with the symbol table that the first pass builds of them; or the
/// first failure of either pass.
pub open spec fn parsed(text: Seq<char>, no_comments: bool) -> Result<Seq<Seq<char>>, Failure> {
    match symbol_table(source_lines(text)) {
        Err(e) => Err(e),
        Ok(symbols) => assembled(source_lines(text), symbols, no_comments),
    }
}

/// Assembles a source text: cuts it into lines, builds the symbol table
/// and translates the lines.
pub fn parse(input: &str, no_comments: bool) -> (r: Result<Vec<String>, AsmError>)
    requires
        input@.len() <= u32::MAX,
    ensures
        match r {
            Ok(output) => parsed(input@, no_comments) == Ok::<Seq<Seq<char>>, Failure>(
                texts(output@),
            ),
            Err(e) => parsed(input@, no_comments) == Err::<Seq<Seq<char>>, Failure>(e@),
        },
{
    let lines = split_source(input);
    let symbols = parse_symbols(&lines)?;
    assemble(&lines, &symbols, no_comments)
}

} // verus!
