//! The mnemonic table: which instruction format a mnemonic belongs to and
//! the code that it stands for, and the operand layout that the assembler
//! reads after each mnemonic.
//!
//! Mnemonics are looked up in upper case; callers convert before they ask.

use vstd::prelude::*;
use crate::text::{chars_of, spells};

verus! {

/// What the table holds for a mnemonic: the format and the 6-bit code.
#[derive(Clone, Copy, PartialEq, Eq, Structural, Debug)]
pub enum Entry {
    /// Register format, with the function code.
    Register { func: u8 },
    /// Immediate format, with the opcode.
    Immediate { op: u8 },
    /// Jump format, with the opcode.
    Jump { op: u8 },
}

impl Entry {
    /// The function code or opcode of the entry.
    pub open spec fn code(self) -> u8 {
        match self {
            Entry::Register { func } => func,
            Entry::Immediate { op } => op,
            Entry::Jump { op } => op,
        }
    }
}

/// The opcode of the add-immediate instruction, into which `MOV` and `INC`
/// expand.
pub const ADD_IMMEDIATE: u8 = 0b000001;

/// The opcode of the branch instruction, into which `GOTO` expands.
pub const BRANCH: u8 = 0b100000;

/// The entry of the table for `name`, if it has one.
pub open spec fn table(name: Seq<char>) -> Option<Entry> {
    if name == "ADD"@ {
        Some(Entry::Register { func: 0b000001 })
    } else if name == "SUB"@ {
        Some(Entry::Register { func: 0b000010 })
    } else if name == "AND"@ {
        Some(Entry::Register { func: 0b000011 })
    } else if name == "OR"@ {
        Some(Entry::Register { func: 0b000100 })
    } else if name == "XOR"@ {
        Some(Entry::Register { func: 0b000101 })
    } else if name == "SLL"@ {
        Some(Entry::Register { func: 0b000110 })
    } else if name == "SRL"@ {
        Some(Entry::Register { func: 0b000111 })
    } else if name == "SRA"@ {
        Some(Entry::Register { func: 0b001000 })
    } else if name == "SLT"@ {
        Some(Entry::Register { func: 0b001001 })
    } else if name == "JR"@ {
        Some(Entry::Register { func: 0b010000 })
    } else if name == "ADDI"@ {
        Some(Entry::Immediate { op: 0b000001 })
    } else if name == "SUBI"@ {
        Some(Entry::Immediate { op: 0b000010 })
    } else if name == "ANDI"@ {
        Some(Entry::Immediate { op: 0b000011 })
    } else if name == "ORI"@ {
        Some(Entry::Immediate { op: 0b000100 })
    } else if name == "XORI"@ {
        Some(Entry::Immediate { op: 0b000101 })
    } else if name == "SLTI"@ {
        Some(Entry::Immediate { op: 0b001001 })
    } else if name == "LW"@ {
        Some(Entry::Immediate { op: 0b010000 })
    } else if name == "SW"@ {
        Some(Entry::Immediate { op: 0b010001 })
    } else if name == "LI"@ {
        Some(Entry::Immediate { op: 0b010010 })
    } else if name == "SO"@ {
        Some(Entry::Immediate { op: 0b010011 })
    } else if name == "POP"@ {
        Some(Entry::Immediate { op: 0b010100 })
    } else if name == "PUSH"@ {
        Some(Entry::Immediate { op: 0b010101 })
    } else if name == "BEQ"@ {
        Some(Entry::Immediate { op: 0b100000 })
    } else if name == "J"@ {
        Some(Entry::Jump { op: 0b100001 })
    } else {
        None
    }
}

/// Looks `name` up in the table.
pub fn lookup(name: &str) -> (entry: Option<Entry>)
    ensures
        entry == table(name@),
{
    let v = chars_of(name);
    if spells(&v, "ADD") {
        Some(Entry::Register { func: 0b000001 })
    } else if spells(&v, "SUB") {
        Some(Entry::Register { func: 0b000010 })
    } else if spells(&v, "AND") {
        Some(Entry::Register { func: 0b000011 })
    } else if spells(&v, "OR") {
        Some(Entry::Register { func: 0b000100 })
    } else if spells(&v, "XOR") {
        Some(Entry::Register { func: 0b000101 })
    } else if spells(&v, "SLL") {
        Some(Entry::Register { func: 0b000110 })
    } else if spells(&v, "SRL") {
        Some(Entry::Register { func: 0b000111 })
    } else if spells(&v, "SRA") {
        Some(Entry::Register { func: 0b001000 })
    } else if spells(&v, "SLT") {
        Some(Entry::Register { func: 0b001001 })
    } else if spells(&v, "JR") {
        Some(Entry::Register { func: 0b010000 })
    } else if spells(&v, "ADDI") {
        Some(Entry::Immediate { op: 0b000001 })
    } else if spells(&v, "SUBI") {
        Some(Entry::Immediate { op: 0b000010 })
    } else if spells(&v, "ANDI") {
        Some(Entry::Immediate { op: 0b000011 })
    } else if spells(&v, "ORI") {
        Some(Entry::Immediate { op: 0b000100 })
    } else if spells(&v, "XORI") {
        Some(Entry::Immediate { op: 0b000101 })
    } else if spells(&v, "SLTI") {
        Some(Entry::Immediate { op: 0b001001 })
    } else if spells(&v, "LW") {
        Some(Entry::Immediate { op: 0b010000 })
    } else if spells(&v, "SW") {
        Some(Entry::Immediate { op: 0b010001 })
    } else if spells(&v, "LI") {
        Some(Entry::Immediate { op: 0b010010 })
    } else if spells(&v, "SO") {
        Some(Entry::Immediate { op: 0b010011 })
    } else if spells(&v, "POP") {
        Some(Entry::Immediate { op: 0b010100 })
    } else if spells(&v, "PUSH") {
        Some(Entry::Immediate { op: 0b010101 })
    } else if spells(&v, "BEQ") {
        Some(Entry::Immediate { op: 0b100000 })
    } else if spells(&v, "J") {
        Some(Entry::Jump { op: 0b100001 })
    } else {
        None
    }
}

/// Every code of the table fits six bits.
pub proof fn lemma_codes_fit(name: Seq<char>)
    ensures
        table(name) matches Some(entry) ==> entry.code() < 64,
{
}

/// Two mnemonics of one format that stand for the same code are the same
/// mnemonic.
pub proof fn lemma_codes_distinct(a: Seq<char>, b: Seq<char>)
    requires
        table(a) is Some,
        table(a) == table(b),
    ensures
        a == b,
{
}

/// What an instruction line asks for: a pseudo-instruction, or an entry of
/// the table together with the operands that follow the mnemonic.
#[derive(Clone, Copy, PartialEq, Eq, Structural, Debug)]
pub enum Operation {
    /// `GOTO target`: a branch with both registers zero.
    Goto,
    /// `MOV dst src`: an add-immediate of zero.
    Mov,
    /// `INC reg`: an add-immediate of one to the register itself.
    Inc,
    /// A shift: destination, source, shift amount.
    Shift { func: u8 },
    /// Another register-format instruction: destination, then two sources.
    Arithmetic { func: u8 },
    /// An immediate-format instruction on one register.
    Single { op: u8 },
    /// An immediate-format instruction: target, source, immediate value.
    Immediate { op: u8 },
    /// A branch: target register, source register, target instruction.
    Branch { op: u8 },
    /// A jump: the address.
    Jump { op: u8 },
}

/// The operand layout of an entry of the table.
pub open spec fn layout(entry: Entry) -> Operation {
    match entry {
        Entry::Register { func } => if 0b000110 <= func <= 0b001000 {
            Operation::Shift { func }
        } else {
            Operation::Arithmetic { func }
        },
        Entry::Immediate { op } => if op == BRANCH {
            Operation::Branch { op }
        } else if 0b010010 <= op <= 0b010101 {
            Operation::Single { op }
        } else {
            Operation::Immediate { op }
        },
        Entry::Jump { op } => Operation::Jump { op },
    }
}

/// What the upper-case mnemonic `name` asks for; `None` if it is no
/// pseudo-instruction and the table does not hold it.
pub open spec fn operation_of(name: Seq<char>) -> Option<Operation> {
    if name == "GOTO"@ {
        Some(Operation::Goto)
    } else if name == "MOV"@ {
        Some(Operation::Mov)
    } else if name == "INC"@ {
        Some(Operation::Inc)
    } else {
        match table(name) {
            Some(entry) => Some(layout(entry)),
            None => None,
        }
    }
}

/// Finds what the upper-case mnemonic `name` asks for.
pub fn classify(name: &str) -> (operation: Option<Operation>)
    ensures
        operation == operation_of(name@),
{
    let v = chars_of(name);
    if spells(&v, "GOTO") {
        Some(Operation::Goto)
    } else if spells(&v, "MOV") {
        Some(Operation::Mov)
    } else if spells(&v, "INC") {
        Some(Operation::Inc)
    } else {
        match lookup(name) {
            Some(Entry::Register { func }) => if 0b000110 <= func && func <= 0b001000 {
                Some(Operation::Shift { func })
            } else {
                Some(Operation::Arithmetic { func })
            },
            Some(Entry::Immediate { op }) => if op == BRANCH {
                Some(Operation::Branch { op })
            } else if 0b010010 <= op && op <= 0b010101 {
                Some(Operation::Single { op })
            } else {
                Some(Operation::Immediate { op })
            },
            Some(Entry::Jump { op }) => Some(Operation::Jump { op }),
            None => None,
        }
    }
}

} // verus!
