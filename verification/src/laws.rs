//! Laws of the two passes, each proved from the definitions that the
//! contracts of the passes are written in.

use vstd::prelude::*;
use crate::datakind::InstructionKind;
use crate::error::{ErrorKind, Failure, Place};
use crate::mnemonic::Operation;
use crate::numeral::unsigned_literal;
use crate::parser::{
    assembled,
    assembled_upto,
    branch_offset,
    declaration,
    instruction,
    instruction_count,
    instruction_line,
    is_declaration,
    is_instruction,
    label_name,
    lemma_failure_is_final,
    lemma_scan_failure_is_final,
    lemma_scanned_counter,
    lemma_undefined_symbol,
    operand,
    register_pair,
    scanned,
    symbol_table,
    translated,
    Width,
};
use crate::text::{uppercase_of, words};

verus! {

/// The name and the value that line `k` of a source binds, if the first
/// pass gets as far as that line and the line is a declaration that
/// succeeds.
pub open spec fn binding_at(lines: Seq<Seq<char>>, k: int) -> Result<(Seq<char>, u32), Failure> {
    match scanned(lines, k as nat) {
        Ok((symbols, counter)) => declaration(lines[k], symbols, counter as u32, k as usize),
        Err(e) => Err(e),
    }
}

/// Whether no declaration after line `k` binds `name`.
pub open spec fn not_bound_after(lines: Seq<Seq<char>>, k: int, name: Seq<char>) -> bool {
    forall|j: int|
        k < j < lines.len() && is_declaration(lines[j]) ==> !(#[trigger] binding_at(lines, j)
            matches Ok((other, _)) && other == name)
}

/// A binding that no later declaration overwrites is still in the table
/// after any number of further lines.
proof fn lemma_binding_persists(
    lines: Seq<Seq<char>>,
    k: int,
    name: Seq<char>,
    value: u32,
    m: nat,
)
    requires
        0 <= k < m <= lines.len(),
        is_declaration(lines[k]),
        binding_at(lines, k) == Ok::<(Seq<char>, u32), Failure>((name, value)),
        not_bound_after(lines, k, name),
        scanned(lines, m) is Ok,
    ensures
        scanned(lines, m)->Ok_0.0.contains_key(name),
        scanned(lines, m)->Ok_0.0[name] == value,
    decreases m,
{
    let before = scanned(lines, (m - 1) as nat);
    assert(before is Ok);
    if m > k + 1 {
        lemma_binding_persists(lines, k, name, value, (m - 1) as nat);
        let line = lines[m - 1];
        if is_declaration(line) {
            assert(binding_at(lines, m - 1) is Ok);
        }
    }
}

/// The last declaration of a name decides its value: where a declaration
/// binds a name and no later one binds it again, the table of the whole
/// source binds the name to the value of that declaration, whatever
/// earlier declarations bound it to.
pub proof fn lemma_last_declaration_wins(
    lines: Seq<Seq<char>>,
    k: int,
    name: Seq<char>,
    value: u32,
)
    requires
        0 <= k < lines.len(),
        is_declaration(lines[k]),
        binding_at(lines, k) == Ok::<(Seq<char>, u32), Failure>((name, value)),
        not_bound_after(lines, k, name),
        symbol_table(lines) is Ok,
    ensures
        symbol_table(lines)->Ok_0.contains_key(name),
        symbol_table(lines)->Ok_0[name] == value,
{
    lemma_binding_persists(lines, k, name, value, lines.len());
}

/// A label stands for the index of the next instruction: where line `k`
/// declares the label `name`, and no later declaration binds that name
/// again, the table binds it to the number of instruction lines before
/// line `k`.
pub proof fn lemma_label_value(lines: Seq<Seq<char>>, k: int, name: Seq<char>)
    requires
        0 <= k < lines.len() <= u32::MAX,
        is_declaration(lines[k]),
        words(lines[k].skip(1)).len() >= 2,
        uppercase_of(words(lines[k].skip(1))[0]) == "LABEL"@,
        name == label_name(words(lines[k].skip(1))[1]),
        not_bound_after(lines, k, name),
        symbol_table(lines) is Ok,
    ensures
        symbol_table(lines)->Ok_0.contains_key(name),
        symbol_table(lines)->Ok_0[name] == instruction_count(lines, k as nat),
{
    reveal(declaration);
    let at_k = scanned(lines, k as nat);
    if at_k is Err {
        lemma_scan_failure_is_final(lines, k as nat, lines.len());
    }
    lemma_scanned_counter(lines, k as nat);
    let count = instruction_count(lines, k as nat);
    lemma_last_declaration_wins(lines, k, name, count as u32);
}

/// The offset of a branch is the distance from the current instruction to
/// the target, modulo 2^16: the distance itself for a target that is less
/// than 2^16 instructions ahead, and 2^16 less the distance back for a
/// target that is at most 2^16 instructions behind.
pub proof fn lemma_branch_offset(target: u32, index: u32)
    ensures
        branch_offset(target, index) as int == (target as int - index as int) % 65536,
        index <= target < index + 65536 ==> branch_offset(target, index) == target - index,
        target < index <= target + 65536 ==> branch_offset(target, index) == 65536 - (index
            - target),
{
}

/// `GOTO` resolves its target and branches by the offset to it, with both
/// registers zero.
pub proof fn lemma_goto_offset(
    mnemonic: Seq<char>,
    segments: Seq<Seq<char>>,
    symbols: Map<Seq<char>, u32>,
    index: u32,
    target: u32,
)
    requires
        operand(segments, 1, symbols, Width::Word, mnemonic) == Ok::<u32, Failure>(target),
    ensures
        instruction(Operation::Goto, mnemonic, segments, symbols, index) matches Ok(
            InstructionKind::I(cmd),
        ) && cmd.rs == 0 && cmd.rt == 0 && cmd.imm as int == (target as int - index as int)
            % 65536,
{
}

/// A branch resolves its target, the third operand, and branches by the
/// offset to it.
pub proof fn lemma_beq_offset(
    op: u8,
    mnemonic: Seq<char>,
    segments: Seq<Seq<char>>,
    symbols: Map<Seq<char>, u32>,
    index: u32,
    target: u32,
)
    requires
        register_pair(segments, symbols, mnemonic) is Ok,
        operand(segments, 3, symbols, Width::Word, mnemonic) == Ok::<u32, Failure>(target),
    ensures
        instruction(Operation::Branch { op }, mnemonic, segments, symbols, index) matches Ok(
            InstructionKind::I(cmd),
        ) && cmd.op == op && cmd.imm as int == (target as int - index as int) % 65536,
{
}

/// The first instruction line that fails ends the second pass with its
/// failure, and there is no output: so does a reference to an undefined
/// symbol.
pub proof fn lemma_failure_halts(
    lines: Seq<Seq<char>>,
    symbols: Map<Seq<char>, u32>,
    no_comments: bool,
    k: int,
    failure: Failure,
)
    requires
        0 <= k < lines.len(),
        is_instruction(lines[k]),
        assembled_upto(lines, symbols, no_comments, k as nat) matches Ok((_, counter))
            && instruction_line(lines[k], symbols, (counter + 1) as u32, no_comments) == Err::<
            Seq<char>,
            Failure,
        >(failure),
    ensures
        assembled(lines, symbols, no_comments) == Err::<Seq<Seq<char>>, Failure>(failure),
{
    assert(assembled_upto(lines, symbols, no_comments, (k + 1) as nat) is Err);
    lemma_failure_is_final(lines, symbols, no_comments, (k + 1) as nat, lines.len());
}

/// A branch to an undefined symbol fails as an undefined symbol, at the
/// instruction that holds it.
pub proof fn lemma_undefined_target(
    segments: Seq<Seq<char>>,
    symbols: Map<Seq<char>, u32>,
    index: u32,
)
    requires
        segments.len() >= 2,
        unsigned_literal(segments[1], Width::Word.max()) is None,
        segments[1].len() == 0 || segments[1][0] != 'r',
        !symbols.contains_key(segments[1]),
    ensures
        translated("GOTO"@, segments, symbols, index) == Err::<InstructionKind, Failure>(
            Failure {
                kind: ErrorKind::UndefinedSymbol,
                token: segments[1],
                place: Place::Instruction(index),
            },
        ),
{
    lemma_undefined_symbol(segments[1], symbols, Width::Word);
}

/// The second pass counts the instruction lines, and writes one line for
/// each line of the source, or one for each instruction where comments are
/// left out.
pub proof fn lemma_output_length(
    lines: Seq<Seq<char>>,
    symbols: Map<Seq<char>, u32>,
    no_comments: bool,
    n: nat,
)
    ensures
        assembled_upto(lines, symbols, no_comments, n) matches Ok((output, counter)) ==> {
            &&& counter == instruction_count(lines, n)
            &&& output.len() == if no_comments {
                counter
            } else {
                n
            }
        },
    decreases n,
{
    if n > 0 {
        lemma_output_length(lines, symbols, no_comments, (n - 1) as nat);
    }
}

} // verus!
