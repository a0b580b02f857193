//! The instruction model: the three fixed-width instruction formats and
//! how each is packed into four bytes and written as text.
//!
//! An instruction is a 32-bit word, most significant byte first. The
//! constructors take any field values; `is_valid` says when every field
//! fits the width that its format gives it, and for such instructions the
//! packing loses nothing.

use vstd::prelude::*;
use crate::numeral::{hex_byte, push_hex_byte};

verus! {

/// An instruction in the register format. Its opcode field is always zero
/// and is not stored.
#[derive(Clone, Copy, PartialEq, Eq, Structural, Debug)]
pub struct RType {
    /// First source register, 5 bits.
    pub rs: u8,
    /// Second source register, 5 bits.
    pub rt: u8,
    /// Destination register, 5 bits.
    pub rd: u8,
    /// Shift amount, 5 bits.
    pub shamt: u8,
    /// Function code, 6 bits.
    pub func: u8,
}

/// An instruction in the immediate format.
#[derive(Clone, Copy, PartialEq, Eq, Structural, Debug)]
pub struct IType {
    /// Opcode, 6 bits.
    pub op: u8,
    /// Source register, 5 bits.
    pub rs: u8,
    /// Target register, 5 bits.
    pub rt: u8,
    /// Immediate value or offset, 16 bits.
    pub imm: u16,
}

/// An instruction in the jump format.
#[derive(Clone, Copy, PartialEq, Eq, Structural, Debug)]
pub struct JType {
    /// Opcode, 6 bits.
    pub op: u8,
    /// Address, 26 bits.
    pub addr: u32,
}

/// An instruction in one of the three formats.
#[derive(Clone, Copy, PartialEq, Eq, Structural, Debug)]
pub enum InstructionKind {
    R(RType),
    I(IType),
    J(JType),
}

/// Four bytes as text: each as `0x` and two upper-case hexadecimal digits,
/// with one space between them.
pub open spec fn hex_line(b: Seq<u8>) -> Seq<char>
    recommends
        b.len() == 4,
{
    hex_byte(b[0]) + seq![' '] + hex_byte(b[1]) + seq![' '] + hex_byte(b[2]) + seq![' ']
        + hex_byte(b[3])
}

/// The four bytes of a 32-bit word, most significant first.
pub open spec fn word_bytes(w: u32) -> Seq<u8> {
    seq![(w >> 24) as u8, ((w >> 16) & 0xff) as u8, ((w >> 8) & 0xff) as u8, (w & 0xff) as u8]
}

/// Writes four bytes as text.
pub fn hex_text(b: &[u8; 4]) -> (text: String)
    ensures
        text@ == hex_line(b@),
{
    let mut text = String::new();
    push_hex_byte(&mut text, b[0]);
    text.push(' ');
    push_hex_byte(&mut text, b[1]);
    text.push(' ');
    push_hex_byte(&mut text, b[2]);
    text.push(' ');
    push_hex_byte(&mut text, b[3]);
    assert(text@ =~= hex_line(b@));
    text
}

/// A value that can be written as the text of its encoding.
pub trait Assemble {
    /// The text of the encoding: four bytes, as `hex_line` writes them.
    spec fn encoding(&self) -> Seq<char>;

    /// Writes the encoding as text.
    fn assemble(&self) -> (text: String)
        ensures
            text@ == self.encoding(),
    ;
}

impl RType {
    /// Whether every field fits its width.
    pub open spec fn is_valid(&self) -> bool {
        self.rs < 32 && self.rt < 32 && self.rd < 32 && self.shamt < 32 && self.func < 64
    }

    /// The four bytes of the instruction. The fields are packed from the
    /// most significant bit down, after six zero bits for the opcode: `rs`,
    /// `rt`, `rd`, `shamt`, `func`. Every shift works on eight bits.
    pub open spec fn bytes(&self) -> Seq<u8> {
        seq![
            self.rs >> 3,
            (self.rs << 5) | self.rt,
            (self.rd << 3) | (self.shamt >> 2),
            (self.shamt << 6) | self.func,
        ]
    }

    /// The instruction as a 32-bit word.
    pub open spec fn word(&self) -> u32 {
        ((self.rs as u32) << 21) | ((self.rt as u32) << 16) | ((self.rd as u32) << 11) | ((
        self.shamt as u32) << 6) | (self.func as u32)
    }

    /// The instruction whose bytes are `b`.
    pub open spec fn unpack(b: Seq<u8>) -> RType
        recommends
            b.len() == 4,
    {
        RType {
            rs: ((b[0] & 3) << 3) | (b[1] >> 5),
            rt: b[1] & 31,
            rd: b[2] >> 3,
            shamt: ((b[2] & 7) << 2) | (b[3] >> 6),
            func: b[3] & 63,
        }
    }

    pub fn new(rs: u8, rt: u8, rd: u8, shamt: u8, func: u8) -> (cmd: Self)
        ensures
            cmd == (RType { rs, rt, rd, shamt, func }),
    {
        Self { rs, rt, rd, shamt, func }
    }

    /// Packs the instruction into its four bytes.
    pub fn encode(&self) -> (b: [u8; 4])
        ensures
            b@ == self.bytes(),
    {
        let b = [
            self.rs >> 3,
            (self.rs << 5) | self.rt,
            (self.rd << 3) | (self.shamt >> 2),
            (self.shamt << 6) | self.func,
        ];
        assert(b@ =~= self.bytes());
        b
    }

    /// Packing a valid instruction and unpacking the bytes gives the
    /// instruction back.
    pub proof fn lemma_round_trip(self)
        requires
            self.is_valid(),
        ensures
            RType::unpack(self.bytes()) == self,
    {
        let RType { rs, rt, rd, shamt, func } = self;
        assert((((rs >> 3) & 3) << 3) | (((rs << 5) | rt) >> 5) == rs) by (bit_vector)
            requires
                rs < 32,
                rt < 32,
        ;
        assert(((rs << 5) | rt) & 31 == rt) by (bit_vector)
            requires
                rt < 32,
        ;
        assert(((rd << 3) | (shamt >> 2)) >> 3 == rd) by (bit_vector)
            requires
                rd < 32,
                shamt < 32,
        ;
        assert(((((rd << 3) | (shamt >> 2)) & 7) << 2) | (((shamt << 6) | func) >> 6) == shamt)
            by (bit_vector)
            requires
                shamt < 32,
                func < 64,
        ;
        assert(((shamt << 6) | func) & 63 == func) by (bit_vector)
            requires
                func < 64,
        ;
    }

    /// The bytes of a valid instruction are those of its word, most
    /// significant first.
    pub proof fn lemma_bytes_of_word(self)
        requires
            self.is_valid(),
        ensures
            self.bytes() == word_bytes(self.word()),
    {
        let RType { rs, rt, rd, shamt, func } = self;
        let w = self.word();
        assert({
            &&& (w >> 24) as u8 == rs >> 3
            &&& ((w >> 16) & 0xff) as u8 == (rs << 5) | rt
            &&& ((w >> 8) & 0xff) as u8 == (rd << 3) | (shamt >> 2)
            &&& (w & 0xff) as u8 == (shamt << 6) | func
        }) by (bit_vector)
            requires
                rs < 32,
                rt < 32,
                rd < 32,
                shamt < 32,
                func < 64,
                w == ((rs as u32) << 21) | ((rt as u32) << 16) | ((rd as u32) << 11) | ((
                shamt as u32) << 6) | (func as u32),
        ;
        assert(self.bytes() =~= word_bytes(w));
    }
}

impl Assemble for RType {
    open spec fn encoding(&self) -> Seq<char> {
        hex_line(self.bytes())
    }

    fn assemble(&self) -> (text: String) {
        let b = self.encode();
        hex_text(&b)
    }
}

impl IType {
    /// Whether every field fits its width.
    pub open spec fn is_valid(&self) -> bool {
        self.op < 64 && self.rs < 32 && self.rt < 32
    }

    /// The four bytes of the instruction. The fields are packed from the
    /// most significant bit down: `op`, `rs`, `rt`, `imm`. Every shift
    /// works on eight bits.
    pub open spec fn bytes(&self) -> Seq<u8> {
        seq![
            (self.op << 2) | (self.rs >> 3),
            (self.rs << 5) | self.rt,
            (self.imm >> 8) as u8,
            (self.imm & 0xff) as u8,
        ]
    }

    /// The instruction as a 32-bit word.
    pub open spec fn word(&self) -> u32 {
        ((self.op as u32) << 26) | ((self.rs as u32) << 21) | ((self.rt as u32) << 16) | (
        self.imm as u32)
    }

    /// The instruction whose bytes are `b`.
    pub open spec fn unpack(b: Seq<u8>) -> IType
        recommends
            b.len() == 4,
    {
        IType {
            op: b[0] >> 2,
            rs: ((b[0] & 3) << 3) | (b[1] >> 5),
            rt: b[1] & 31,
            imm: ((b[2] as u16) << 8) | (b[3] as u16),
        }
    }

    pub fn new(rs: u8, rt: u8, imm: u16, op: u8) -> (cmd: Self)
        ensures
            cmd == (IType { op, rs, rt, imm }),
    {
        Self { op, rs, rt, imm }
    }

    /// Packs the instruction into its four bytes.
    pub fn encode(&self) -> (b: [u8; 4])
        ensures
            b@ == self.bytes(),
    {
        let imm = self.imm;
        assert(imm >> 8 < 256 && imm & 0xff < 256) by (bit_vector);
        let b = [
            (self.op << 2) | (self.rs >> 3),
            (self.rs << 5) | self.rt,
            (self.imm >> 8) as u8,
            (self.imm & 0xff) as u8,
        ];
        assert(b@ =~= self.bytes());
        b
    }

    /// Packing a valid instruction and unpacking the bytes gives the
    /// instruction back.
    pub proof fn lemma_round_trip(self)
        requires
            self.is_valid(),
        ensures
            IType::unpack(self.bytes()) == self,
    {
        let IType { op, rs, rt, imm } = self;
        assert(((op << 2) | (rs >> 3)) >> 2 == op) by (bit_vector)
            requires
                op < 64,
                rs < 32,
        ;
        assert(((((op << 2) | (rs >> 3)) & 3) << 3) | (((rs << 5) | rt) >> 5) == rs)
            by (bit_vector)
            requires
                rs < 32,
                rt < 32,
        ;
        assert(((rs << 5) | rt) & 31 == rt) by (bit_vector)
            requires
                rt < 32,
        ;
        assert(((((imm >> 8) as u8) as u16) << 8) | (((imm & 0xff) as u8) as u16) == imm)
            by (bit_vector);
    }

    /// The bytes of a valid instruction are those of its word, most
    /// significant first.
    pub proof fn lemma_bytes_of_word(self)
        requires
            self.is_valid(),
        ensures
            self.bytes() == word_bytes(self.word()),
    {
        let IType { op, rs, rt, imm } = self;
        let w = self.word();
        assert({
            &&& (w >> 24) as u8 == (op << 2) | (rs >> 3)
            &&& ((w >> 16) & 0xff) as u8 == (rs << 5) | rt
            &&& ((w >> 8) & 0xff) as u8 == (imm >> 8) as u8
            &&& (w & 0xff) as u8 == (imm & 0xff) as u8
        }) by (bit_vector)
            requires
                op < 64,
                rs < 32,
                rt < 32,
                w == ((op as u32) << 26) | ((rs as u32) << 21) | ((rt as u32) << 16) | (
                imm as u32),
        ;
        assert(self.bytes() =~= word_bytes(w));
    }
}

impl Assemble for IType {
    open spec fn encoding(&self) -> Seq<char> {
        hex_line(self.bytes())
    }

    fn assemble(&self) -> (text: String) {
        let b = self.encode();
        hex_text(&b)
    }
}

impl JType {
    /// Whether every field fits its width.
    pub open spec fn is_valid(&self) -> bool {
        self.op < 64 && self.addr < 0x400_0000
    }

    /// The four bytes of the instruction. The fields are packed from the
    /// most significant bit down: `op`, `addr`. The shift of `op` works on
    /// eight bits.
    pub open spec fn bytes(&self) -> Seq<u8> {
        seq![
            (self.op << 2) | ((self.addr >> 24) as u8),
            ((self.addr >> 16) & 0xff) as u8,
            ((self.addr >> 8) & 0xff) as u8,
            (self.addr & 0xff) as u8,
        ]
    }

    /// The instruction as a 32-bit word.
    pub open spec fn word(&self) -> u32 {
        ((self.op as u32) << 26) | self.addr
    }

    /// The instruction whose bytes are `b`.
    pub open spec fn unpack(b: Seq<u8>) -> JType
        recommends
            b.len() == 4,
    {
        JType {
            op: b[0] >> 2,
            addr: (((b[0] & 3) as u32) << 24) | ((b[1] as u32) << 16) | ((b[2] as u32) << 8) | (
            b[3] as u32),
        }
    }

    pub fn new(addr: u32, op: u8) -> (cmd: Self)
        ensures
            cmd == (JType { op, addr }),
    {
        Self { op, addr }
    }

    /// Packs the instruction into its four bytes.
    pub fn encode(&self) -> (b: [u8; 4])
        ensures
            b@ == self.bytes(),
    {
        let addr = self.addr;
        assert(addr >> 24 < 256 && (addr >> 16) & 0xff < 256 && (addr >> 8) & 0xff < 256 && addr
            & 0xff < 256) by (bit_vector);
        let b = [
            (self.op << 2) | ((self.addr >> 24) as u8),
            ((self.addr >> 16) & 0xff) as u8,
            ((self.addr >> 8) & 0xff) as u8,
            (self.addr & 0xff) as u8,
        ];
        assert(b@ =~= self.bytes());
        b
    }

    /// Packing a valid instruction and unpacking the bytes gives the
    /// instruction back.
    pub proof fn lemma_round_trip(self)
        requires
            self.is_valid(),
        ensures
            JType::unpack(self.bytes()) == self,
    {
        let JType { op, addr } = self;
        assert(((op << 2) | ((addr >> 24) as u8)) >> 2 == op) by (bit_vector)
            requires
                op < 64,
                addr < 0x400_0000,
        ;
        assert(((((op << 2) | ((addr >> 24) as u8)) & 3) as u32) << 24 | ((((addr >> 16)
            & 0xff) as u8) as u32) << 16 | ((((addr >> 8) & 0xff) as u8) as u32) << 8 | (((addr
            & 0xff) as u8) as u32) == addr) by (bit_vector)
            requires
                addr < 0x400_0000,
        ;
    }

    /// The bytes of a valid instruction are those of its word, most
    /// significant first.
    pub proof fn lemma_bytes_of_word(self)
        requires
            self.is_valid(),
        ensures
            self.bytes() == word_bytes(self.word()),
    {
        let JType { op, addr } = self;
        let w = self.word();
        assert({
            &&& (w >> 24) as u8 == (op << 2) | ((addr >> 24) as u8)
            &&& ((w >> 16) & 0xff) as u8 == ((addr >> 16) & 0xff) as u8
            &&& ((w >> 8) & 0xff) as u8 == ((addr >> 8) & 0xff) as u8
            &&& (w & 0xff) as u8 == (addr & 0xff) as u8
        }) by (bit_vector)
            requires
                op < 64,
                addr < 0x400_0000,
                w == ((op as u32) << 26) | addr,
        ;
        assert(self.bytes() =~= word_bytes(w));
    }
}

impl Assemble for JType {
    open spec fn encoding(&self) -> Seq<char> {
        hex_line(self.bytes())
    }

    fn assemble(&self) -> (text: String) {
        let b = self.encode();
        hex_text(&b)
    }
}

impl InstructionKind {
    /// Whether every field of the instruction fits its width.
    pub open spec fn is_valid(&self) -> bool {
        match self {
            InstructionKind::R(cmd) => cmd.is_valid(),
            InstructionKind::I(cmd) => cmd.is_valid(),
            InstructionKind::J(cmd) => cmd.is_valid(),
        }
    }

    /// The four bytes of the instruction.
    pub open spec fn bytes(&self) -> Seq<u8> {
        match self {
            InstructionKind::R(cmd) => cmd.bytes(),
            InstructionKind::I(cmd) => cmd.bytes(),
            InstructionKind::J(cmd) => cmd.bytes(),
        }
    }

    /// Packs the instruction into its four bytes.
    pub fn encode(&self) -> (b: [u8; 4])
        ensures
            b@ == self.bytes(),
    {
        match self {
            InstructionKind::R(cmd) => cmd.encode(),
            InstructionKind::I(cmd) => cmd.encode(),
            InstructionKind::J(cmd) => cmd.encode(),
        }
    }
}

impl Assemble for InstructionKind {
    open spec fn encoding(&self) -> Seq<char> {
        hex_line(self.bytes())
    }

    fn assemble(&self) -> (text: String) {
        match self {
            InstructionKind::R(cmd) => cmd.assemble(),
            InstructionKind::I(cmd) => cmd.assemble(),
            InstructionKind::J(cmd) => cmd.assemble(),
        }
    }
}

} // verus!
