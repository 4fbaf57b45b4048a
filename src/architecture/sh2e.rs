use crate::architecture::{Architecture, BaseView, Instruction, Token, TokenBase, TokenView};
use crate::error::{Error, Result};
use crate::memory::{Layout, Section, lemma_empty_layout_reads_nothing, lemma_single_byte_section};
use vstd::prelude::*;

verus! {

/// Register operands of the Super-H instruction set.
#[derive(Debug, Clone, Copy, PartialEq, Eq, Structural)]
pub enum Register {
    R0,
    R1,
    R2,
    R3,
    R4,
    R5,
    R6,
    R7,
    R8,
    R9,
    R10,
    R11,
    R12,
    R13,
    R14,
    R15,
    GBR,
    PC,
}

/// The general register that a 4-bit field selects; R0 for a value of no
/// nibble.
pub open spec fn reg_of(v: int) -> Register {
    if v == 0 {
        Register::R0
    } else if v == 1 {
        Register::R1
    } else if v == 2 {
        Register::R2
    } else if v == 3 {
        Register::R3
    } else if v == 4 {
        Register::R4
    } else if v == 5 {
        Register::R5
    } else if v == 6 {
        Register::R6
    } else if v == 7 {
        Register::R7
    } else if v == 8 {
        Register::R8
    } else if v == 9 {
        Register::R9
    } else if v == 10 {
        Register::R10
    } else if v == 11 {
        Register::R11
    } else if v == 12 {
        Register::R12
    } else if v == 13 {
        Register::R13
    } else if v == 14 {
        Register::R14
    } else if v == 15 {
        Register::R15
    } else {
        Register::R0
    }
}

/// The name of a register, as it is written in assembly.
pub open spec fn name_of(r: Register) -> Seq<char> {
    match r {
        Register::R0 => "R0"@,
        Register::R1 => "R1"@,
        Register::R2 => "R2"@,
        Register::R3 => "R3"@,
        Register::R4 => "R4"@,
        Register::R5 => "R5"@,
        Register::R6 => "R6"@,
        Register::R7 => "R7"@,
        Register::R8 => "R8"@,
        Register::R9 => "R9"@,
        Register::R10 => "R10"@,
        Register::R11 => "R11"@,
        Register::R12 => "R12"@,
        Register::R13 => "R13"@,
        Register::R14 => "R14"@,
        Register::R15 => "R15"@,
        Register::GBR => "GBR"@,
        Register::PC => "PC"@,
    }
}

impl Register {
    pub fn static_str(&self) -> (r: &'static str)
        ensures
            r@ == name_of(*self),
    {
        match *self {
            Register::R0 => "R0",
            Register::R1 => "R1",
            Register::R2 => "R2",
            Register::R3 => "R3",
            Register::R4 => "R4",
            Register::R5 => "R5",
            Register::R6 => "R6",
            Register::R7 => "R7",
            Register::R8 => "R8",
            Register::R9 => "R9",
            Register::R10 => "R10",
            Register::R11 => "R11",
            Register::R12 => "R12",
            Register::R13 => "R13",
            Register::R14 => "R14",
            Register::R15 => "R15",
            Register::GBR => "GBR",
            Register::PC => "PC",
        }
    }
}

impl From<u8> for Register {
    fn from(nibble: u8) -> (r: Register)
        ensures
            r == reg_of(nibble as int),
    {
        match nibble {
            0 => Register::R0,
            1 => Register::R1,
            2 => Register::R2,
            3 => Register::R3,
            4 => Register::R4,
            5 => Register::R5,
            6 => Register::R6,
            7 => Register::R7,
            8 => Register::R8,
            9 => Register::R9,
            10 => Register::R10,
            11 => Register::R11,
            12 => Register::R12,
            13 => Register::R13,
            14 => Register::R14,
            15 => Register::R15,
            _ => Register::R0,
        }
    }
}

impl vstd::std_specs::convert::FromSpecImpl<u8> for Register {
    open spec fn obeys_from_spec() -> bool {
        true
    }

    open spec fn from_spec(v: u8) -> Register {
        reg_of(v as int)
    }
}

/// The 8-bit field made of the nibbles at `i` and `i + 1`.
pub open spec fn byte_field(n: Seq<u8>, i: int) -> int {
    n[i] * 16 + n[i + 1]
}

/// The 12-bit field made of the nibbles at `i`, `i + 1` and `i + 2`.
pub open spec fn three_field(n: Seq<u8>, i: int) -> int {
    n[i] * 256 + n[i + 1] * 16 + n[i + 2]
}

/// The whole 16-bit instruction word.
pub open spec fn word_field(n: Seq<u8>) -> int {
    n[0] * 4096 + n[1] * 256 + n[2] * 16 + n[3]
}

/// The four nibbles of the instruction word made of two bytes, the most
/// significant first.
pub open spec fn nibbles_of(b0: u8, b1: u8) -> Seq<u8> {
    seq![b0 / 16, b0 % 16, b1 / 16, b1 % 16]
}

/// An instruction word, split into its four 4-bit fields; nibble 0 is the
/// most significant.
pub struct Nibbles {
    nibbles: [u8; 4],
}

impl View for Nibbles {
    type V = Seq<u8>;

    closed spec fn view(&self) -> Seq<u8> {
        self.nibbles@
    }
}

impl Nibbles {
    /// Four fields, each below 16.
    pub open spec fn wf(&self) -> bool {
        self@.len() == 4 && forall|i: int| 0 <= i < 4 ==> #[trigger] self@[i] < 16
    }

    /// Splits the instruction word made of two bytes.
    pub fn from_bytes(b0: u8, b1: u8) -> (r: Nibbles)
        ensures
            r.wf(),
            r@ == nibbles_of(b0, b1),
    {
        let r = Nibbles { nibbles: [b0 >> 4, b0 & 0x0F, b1 >> 4, b1 & 0x0F] };
        assert(b0 >> 4 == b0 / 16 && b0 & 0x0F == b0 % 16) by (bit_vector);
        assert(b1 >> 4 == b1 / 16 && b1 & 0x0F == b1 % 16) by (bit_vector);
        assert(r@ =~= nibbles_of(b0, b1));
        r
    }

    pub fn nibble(&self, offset: usize) -> (r: u8)
        requires
            self.wf(),
            offset < 4,
        ensures
            r == self@[offset as int],
    {
        self.nibbles[offset]
    }

    pub fn byte(&self, offset: usize) -> (r: u8)
        requires
            self.wf(),
            offset < 3,
        ensures
            r == byte_field(self@, offset as int),
    {
        let a = self.nibbles[offset];
        let b = self.nibbles[offset + 1];
        assert(a < 16 && b < 16);
        assert(((a << 4u8) | b) == a * 16 + b) by (bit_vector)
            requires
                a < 16,
                b < 16,
        ;
        (a << 4) | b
    }

    pub fn word(&self) -> (r: u16)
        requires
            self.wf(),
        ensures
            r == word_field(self@),
    {
        let a = self.nibbles[0] as u16;
        let b = self.nibbles[1] as u16;
        let c = self.nibbles[2] as u16;
        let d = self.nibbles[3] as u16;
        assert(a < 16 && b < 16 && c < 16 && d < 16);
        assert(((a << 12u16) | (b << 8u16) | (c << 4u16) | d) == a * 4096 + b * 256 + c * 16 + d)
            by (bit_vector)
            requires
                a < 16,
                b < 16,
                c < 16,
                d < 16,
        ;
        (a << 12) | (b << 8) | (c << 4) | d
    }

    pub fn three(&self, offset: usize) -> (r: u16)
        requires
            self.wf(),
            offset < 2,
        ensures
            r == three_field(self@, offset as int),
    {
        let a = self.nibbles[offset] as u16;
        let b = self.nibbles[offset + 1] as u16;
        let c = self.nibbles[offset + 2] as u16;
        assert(a < 16 && b < 16 && c < 16);
        assert(((a << 8u16) | (b << 4u16) | c) == a * 256 + b * 16 + c) by (bit_vector)
            requires
                a < 16,
                b < 16,
                c < 16,
        ;
        (a << 8) | (b << 4) | c
    }

    pub fn check_nibble(&self, offset: usize, nib: u8) -> (r: bool)
        requires
            self.wf(),
            offset < 4,
        ensures
            r == (self@[offset as int] == nib),
    {
        self.nibble(offset) == nib
    }

    pub fn check_byte(&self, offset: usize, byte: u8) -> (r: bool)
        requires
            self.wf(),
            offset < 3,
        ensures
            r == (byte_field(self@, offset as int) == byte),
    {
        self.byte(offset) == byte
    }

    pub fn check_word(&self, word: u16) -> (r: bool)
        requires
            self.wf(),
        ensures
            r == (word_field(self@) == word),
    {
        self.word() == word
    }
}


/// Which nibbles of an instruction word are fixed opcode bits and which are
/// operand fields. In the comments, `x` marks a fixed bit, `n` and `m` the
/// destination and source registers, `d` a displacement, `i` an immediate.
#[derive(Debug, Clone, Copy, PartialEq, Eq, Structural)]
pub enum SuperHFormat {
    Zero(u16),  // xxxx xxxx xxxx xxxx
    N(u8, u8),  // xxxx nnnn xxxx xxxx
    M(u8, u8),  // xxxx mmmm xxxx xxxx
    NM(u8, u8),  // xxxx nnnn mmmm xxxx
    MD(u8),  // xxxx xxxx mmmm dddd
    ND4(u8),  // xxxx xxxx nnnn dddd
    NMD(u8),  // xxxx nnnn mmmm dddd
    D(u8),  // xxxx xxxx dddd dddd
    D12(u8),  // xxxx dddd dddd dddd
    ND8(u8),  // xxxx nnnn dddd dddd
    I(u8),  // xxxx xxxx iiii iiii
    NI(u8),  // xxxx nnnn iiii iiii
}

/// Addressing modes of the operands.
#[derive(Debug, Clone, Copy, PartialEq, Eq, Structural)]
pub enum ArgumentType {
    Immediate,  // #imm
    DirectDestReg,  // Rn
    DirectSrcReg,  // Rm
    IndirectDestReg,  // @Rn
    IndirectSrcReg,  // @Rm
    PostIncIndirectDestReg,  // @Rn+
    PreDecIndirectDestReg,  // @-Rn
    PostIncIndirectSrcReg,  // @Rm+
    PreDecIndirectSrcReg,  // @-Rm
    IndirectDestRegDisp,  // @(disp:4, Rn)
    IndirectSrcRegDisp,  // @(disp:4, Rm)
    IndirectIdxDestReg,  // @(R0, Rn)
    IndirectIdxSrcReg,  // @(R0, Rm)
    IndirectGbrDisp,  // @(disp:8, GBR)
    IndirectIdxGbr,  // @(R0, GBR)
    IndirectPcDisp,  // @(disp:8/12, PC)
}

/// The operand fields that a format binds.
#[derive(Debug, Clone, Copy, PartialEq, Eq, Structural)]
pub struct Operands {
    pub source: Register,
    pub dest: Register,
    pub immediate: usize,
    pub displacement: usize,
}

/// Whether the fixed bits of the format match the nibbles.
pub open spec fn format_matches(f: SuperHFormat, n: Seq<u8>) -> bool {
    match f {
        SuperHFormat::Zero(w) => word_field(n) == w,
        SuperHFormat::N(x1, x2) => n[0] == x1 && byte_field(n, 2) == x2,
        SuperHFormat::M(x1, x2) => n[0] == x1 && byte_field(n, 2) == x2,
        SuperHFormat::NM(x1, x2) => n[0] == x1 && n[3] == x2,
        SuperHFormat::MD(x1) => byte_field(n, 0) == x1,
        SuperHFormat::ND4(x1) => byte_field(n, 0) == x1,
        SuperHFormat::NMD(x1) => n[0] == x1,
        SuperHFormat::D(x1) => byte_field(n, 0) == x1,
        SuperHFormat::D12(x1) => n[0] == x1,
        SuperHFormat::ND8(x1) => n[0] == x1,
        SuperHFormat::I(x1) => byte_field(n, 0) == x1,
        SuperHFormat::NI(x1) => n[0] == x1,
    }
}

/// The operands that the format binds from the nibbles; a field that the
/// format does not bind is R0 or zero.
pub open spec fn bind_operands(f: SuperHFormat, n: Seq<u8>) -> Operands {
    let none = Operands { source: Register::R0, dest: Register::R0, immediate: 0, displacement: 0 };
    match f {
        SuperHFormat::Zero(_) => none,
        SuperHFormat::N(_, _) => Operands { dest: reg_of(n[1] as int), ..none },
        SuperHFormat::M(_, _) => Operands { source: reg_of(n[1] as int), ..none },
        SuperHFormat::NM(_, _) => Operands {
            dest: reg_of(n[1] as int),
            source: reg_of(n[2] as int),
            ..none
        },
        SuperHFormat::MD(_) => Operands {
            source: reg_of(n[2] as int),
            displacement: n[3] as usize,
            ..none
        },
        SuperHFormat::ND4(_) => Operands {
            dest: reg_of(n[2] as int),
            displacement: n[3] as usize,
            ..none
        },
        SuperHFormat::NMD(_) => Operands {
            dest: reg_of(n[1] as int),
            source: reg_of(n[2] as int),
            displacement: n[3] as usize,
            ..none
        },
        SuperHFormat::D(_) => Operands { displacement: byte_field(n, 2) as usize, ..none },
        SuperHFormat::D12(_) => Operands { displacement: three_field(n, 1) as usize, ..none },
        SuperHFormat::ND8(_) => Operands {
            dest: reg_of(n[1] as int),
            displacement: byte_field(n, 2) as usize,
            ..none
        },
        SuperHFormat::I(_) => Operands { immediate: byte_field(n, 2) as usize, ..none },
        SuperHFormat::NI(_) => Operands {
            dest: reg_of(n[1] as int),
            immediate: byte_field(n, 2) as usize,
            ..none
        },
    }
}

/// A register token.
pub open spec fn reg_token(prefix: Seq<char>, r: Register, suffix: Seq<char>) -> TokenView {
    TokenView { prefix, suffix, base: BaseView::Register(name_of(r)) }
}

/// An immediate token.
pub open spec fn imm_token(prefix: Seq<char>, v: usize, suffix: Seq<char>) -> TokenView {
    TokenView { prefix, suffix, base: BaseView::Immediate(v as nat) }
}

/// The tokens that one operand of the given addressing mode stands for.
pub open spec fn argument_tokens(a: ArgumentType, o: Operands) -> Seq<TokenView> {
    match a {
        ArgumentType::Immediate => seq![imm_token("#"@, o.immediate, ""@)],
        ArgumentType::DirectDestReg => seq![reg_token(""@, o.dest, ""@)],
        ArgumentType::DirectSrcReg => seq![reg_token(""@, o.source, ""@)],
        ArgumentType::IndirectDestReg => seq![reg_token("@"@, o.dest, ""@)],
        ArgumentType::IndirectSrcReg => seq![reg_token("@"@, o.source, ""@)],
        ArgumentType::PostIncIndirectDestReg => seq![reg_token("@"@, o.dest, "+"@)],
        ArgumentType::PostIncIndirectSrcReg => seq![reg_token("@"@, o.source, "+"@)],
        ArgumentType::PreDecIndirectDestReg => seq![reg_token("@-"@, o.dest, ""@)],
        ArgumentType::PreDecIndirectSrcReg => seq![reg_token("@-"@, o.source, ""@)],
        ArgumentType::IndirectDestRegDisp => seq![
            imm_token("@("@, o.displacement, ""@),
            reg_token(""@, o.dest, ")"@),
        ],
        ArgumentType::IndirectSrcRegDisp => seq![
            imm_token("@("@, o.displacement, ""@),
            reg_token(""@, o.source, ")"@),
        ],
        ArgumentType::IndirectIdxDestReg => seq![
            reg_token("@("@, Register::R0, ""@),
            reg_token(""@, o.dest, ")"@),
        ],
        ArgumentType::IndirectIdxSrcReg => seq![
            reg_token("@("@, Register::R0, ""@),
            reg_token(""@, o.source, ")"@),
        ],
        ArgumentType::IndirectGbrDisp => seq![
            imm_token("@("@, o.displacement, ""@),
            reg_token(""@, Register::GBR, ")"@),
        ],
        ArgumentType::IndirectIdxGbr => seq![
            reg_token("@("@, Register::R0, ""@),
            reg_token(""@, Register::GBR, ")"@),
        ],
        ArgumentType::IndirectPcDisp => seq![
            imm_token("@("@, o.displacement, ""@),
            reg_token(""@, Register::PC, ")"@),
        ],
    }
}

/// The tokens of a list of operands, one after the other.
pub open spec fn arguments_tokens(args: Seq<ArgumentType>, o: Operands) -> Seq<TokenView>
    decreases args.len(),
{
    if args.len() == 0 {
        seq![]
    } else {
        arguments_tokens(args.drop_last(), o) + argument_tokens(args.last(), o)
    }
}

/// A register token.
fn register_token(prefix: &'static str, r: Register, suffix: &'static str) -> (t: Token)
    ensures
        t@ == reg_token(prefix@, r, suffix@),
{
    Token::new(TokenBase::Register(r.static_str())).with_prefix(prefix).with_suffix(suffix)
}

/// An immediate token.
fn immediate_token(prefix: &'static str, v: usize, suffix: &'static str) -> (t: Token)
    ensures
        t@ == imm_token(prefix@, v, suffix@),
{
    Token::new(TokenBase::Immediate(v)).with_prefix(prefix).with_suffix(suffix)
}

/// Appends the tokens of one operand.
#[verifier::spinoff_prover]
#[verifier::rlimit(30)]
fn push_argument(instr: &mut Instruction, arg: ArgumentType, o: &Operands)
    ensures
        final(instr)@ == old(instr)@ + argument_tokens(arg, *o),
{
    let ghost before = instr@;
    match arg {
        ArgumentType::Immediate => {
            instr.push(immediate_token("#", o.immediate, ""));
        },
        ArgumentType::DirectDestReg => {
            instr.push(register_token("", o.dest, ""));
        },
        ArgumentType::DirectSrcReg => {
            instr.push(register_token("", o.source, ""));
        },
        ArgumentType::IndirectDestReg => {
            instr.push(register_token("@", o.dest, ""));
        },
        ArgumentType::IndirectSrcReg => {
            instr.push(register_token("@", o.source, ""));
        },
        ArgumentType::PostIncIndirectDestReg => {
            instr.push(register_token("@", o.dest, "+"));
        },
        ArgumentType::PostIncIndirectSrcReg => {
            instr.push(register_token("@", o.source, "+"));
        },
        ArgumentType::PreDecIndirectDestReg => {
            instr.push(register_token("@-", o.dest, ""));
        },
        ArgumentType::PreDecIndirectSrcReg => {
            instr.push(register_token("@-", o.source, ""));
        },
        ArgumentType::IndirectDestRegDisp => {
            // Displacement, then the destination register
            instr.push(immediate_token("@(", o.displacement, ""));
            instr.push(register_token("", o.dest, ")"));
            assert(instr@ =~= before + argument_tokens(arg, *o));
        },
        ArgumentType::IndirectSrcRegDisp => {
            // Displacement, then the source register
            instr.push(immediate_token("@(", o.displacement, ""));
            instr.push(register_token("", o.source, ")"));
            assert(instr@ =~= before + argument_tokens(arg, *o));
        },
        ArgumentType::IndirectIdxDestReg => {
            // Index register, then the destination register
            instr.push(register_token("@(", Register::R0, ""));
            instr.push(register_token("", o.dest, ")"));
            assert(instr@ =~= before + argument_tokens(arg, *o));
        },
        ArgumentType::IndirectIdxSrcReg => {
            // Index register, then the source register
            instr.push(register_token("@(", Register::R0, ""));
            instr.push(register_token("", o.source, ")"));
            assert(instr@ =~= before + argument_tokens(arg, *o));
        },
        ArgumentType::IndirectGbrDisp => {
            // Displacement, then GBR
            instr.push(immediate_token("@(", o.displacement, ""));
            instr.push(register_token("", Register::GBR, ")"));
            assert(instr@ =~= before + argument_tokens(arg, *o));
        },
        ArgumentType::IndirectIdxGbr => {
            // R0, then GBR
            instr.push(register_token("@(", Register::R0, ""));
            instr.push(register_token("", Register::GBR, ")"));
            assert(instr@ =~= before + argument_tokens(arg, *o));
        },
        ArgumentType::IndirectPcDisp => {
            // Displacement, then PC
            instr.push(immediate_token("@(", o.displacement, ""));
            instr.push(register_token("", Register::PC, ")"));
            assert(instr@ =~= before + argument_tokens(arg, *o));
        },
    }
}

/// One row of the decode table: a mnemonic, the format of its encoding and
/// its operands in order.
pub struct SuperHInstruction {
    opcode: &'static str,
    format: SuperHFormat,
    arguments: Vec<ArgumentType>,
}

/// A row of the decode table, as a mathematical value.
pub struct EntryView {
    pub opcode: Seq<char>,
    pub format: SuperHFormat,
    pub arguments: Seq<ArgumentType>,
}

pub open spec fn entry_view(
    opcode: Seq<char>,
    format: SuperHFormat,
    arguments: Seq<ArgumentType>,
) -> EntryView {
    EntryView { opcode, format, arguments }
}

impl View for SuperHInstruction {
    type V = EntryView;

    closed spec fn view(&self) -> EntryView {
        EntryView { opcode: self.opcode@, format: self.format, arguments: self.arguments@ }
    }
}

/// The opcode token of a mnemonic.
pub open spec fn opcode_token(opcode: Seq<char>) -> TokenView {
    TokenView { prefix: seq![], suffix: seq![], base: BaseView::Opcode(opcode) }
}

/// The tokens of an instruction that a table row decodes from the nibbles:
/// the mnemonic, then each operand in the row's order.
pub open spec fn entry_tokens(e: EntryView, n: Seq<u8>) -> Seq<TokenView> {
    seq![opcode_token(e.opcode)] + arguments_tokens(e.arguments, bind_operands(e.format, n))
}

/// Decoding against a table: the tokens of the first row, in table order,
/// whose fixed bits match the nibbles; none where no row matches.
pub open spec fn decode_with(table: Seq<EntryView>, n: Seq<u8>) -> Option<Seq<TokenView>>
    decreases table.len(),
{
    if table.len() == 0 {
        None
    } else if format_matches(table[0].format, n) {
        Some(entry_tokens(table[0], n))
    } else {
        decode_with(table.drop_first(), n)
    }
}

/// The decode table of this instruction set, in the order in which it is
/// scanned.
pub open spec fn instruction_table() -> Seq<EntryView> {
    seq![
        entry_view("nop"@, SuperHFormat::Zero(0b1001), seq![]),
        entry_view("mov"@, SuperHFormat::NI(0b1110), seq![ArgumentType::Immediate, ArgumentType::DirectDestReg]),
        entry_view("mov.w"@, SuperHFormat::NI(0b1001), seq![ArgumentType::IndirectPcDisp, ArgumentType::DirectDestReg]),
        entry_view("mov.l"@, SuperHFormat::NI(0b1101), seq![ArgumentType::IndirectPcDisp, ArgumentType::DirectDestReg]),
        entry_view("mov"@, SuperHFormat::NM(0b0110, 0b0011), seq![ArgumentType::DirectSrcReg, ArgumentType::DirectDestReg]),
        entry_view("mov.b"@, SuperHFormat::NM(0b0010, 0b0000), seq![ArgumentType::DirectSrcReg, ArgumentType::IndirectDestReg]),
        entry_view("mov.w"@, SuperHFormat::NM(0b0010, 0b0001), seq![ArgumentType::DirectSrcReg, ArgumentType::IndirectDestReg]),
        entry_view("mov.l"@, SuperHFormat::NM(0b0010, 0b0010), seq![ArgumentType::DirectSrcReg, ArgumentType::IndirectDestReg]),
        entry_view("mov.b"@, SuperHFormat::NM(0b0110, 0b0000), seq![ArgumentType::IndirectSrcReg, ArgumentType::DirectDestReg]),
        entry_view("mov.w"@, SuperHFormat::NM(0b0110, 0b0001), seq![ArgumentType::IndirectSrcReg, ArgumentType::DirectDestReg]),
        entry_view("mov.l"@, SuperHFormat::NM(0b0110, 0b0010), seq![ArgumentType::IndirectSrcReg, ArgumentType::DirectDestReg]),
        entry_view("mov.b"@, SuperHFormat::NM(0b0010, 0b0100), seq![ArgumentType::DirectSrcReg, ArgumentType::PreDecIndirectDestReg]),
        entry_view("mov.w"@, SuperHFormat::NM(0b0010, 0b0101), seq![ArgumentType::DirectSrcReg, ArgumentType::PreDecIndirectDestReg]),
        entry_view("mov.l"@, SuperHFormat::NM(0b0010, 0b0110), seq![ArgumentType::DirectSrcReg, ArgumentType::PreDecIndirectDestReg]),
        entry_view("mov.b"@, SuperHFormat::NM(0b0110, 0b0100), seq![ArgumentType::PostIncIndirectSrcReg, ArgumentType::DirectDestReg]),
        entry_view("mov.w"@, SuperHFormat::NM(0b0110, 0b0101), seq![ArgumentType::PostIncIndirectSrcReg, ArgumentType::DirectDestReg]),
        entry_view("mov.l"@, SuperHFormat::NM(0b0110, 0b0110), seq![ArgumentType::PostIncIndirectSrcReg, ArgumentType::DirectDestReg]),
        entry_view("mov.b"@, SuperHFormat::ND4(0b10000000), seq![ArgumentType::DirectSrcReg, ArgumentType::IndirectDestRegDisp]),
        entry_view("mov.w"@, SuperHFormat::ND4(0b10000001), seq![ArgumentType::DirectSrcReg, ArgumentType::IndirectDestRegDisp]),
        entry_view("mov.l"@, SuperHFormat::NMD(0b0001), seq![ArgumentType::DirectSrcReg, ArgumentType::IndirectDestRegDisp]),
        entry_view("mov.b"@, SuperHFormat::MD(0b10000100), seq![ArgumentType::IndirectSrcRegDisp, ArgumentType::DirectDestReg]),
        entry_view("mov.w"@, SuperHFormat::MD(0b10000101), seq![ArgumentType::IndirectSrcRegDisp, ArgumentType::DirectDestReg]),
        entry_view("mov.l"@, SuperHFormat::NMD(0b0101), seq![ArgumentType::IndirectSrcRegDisp, ArgumentType::DirectDestReg]),
        entry_view("mov.b"@, SuperHFormat::NM(0b0000, 0b0100), seq![ArgumentType::DirectSrcReg, ArgumentType::IndirectIdxDestReg]),
        entry_view("mov.w"@, SuperHFormat::NM(0b0000, 0b0101), seq![ArgumentType::DirectSrcReg, ArgumentType::IndirectIdxDestReg]),
        entry_view("mov.l"@, SuperHFormat::NM(0b0000, 0b0110), seq![ArgumentType::DirectSrcReg, ArgumentType::IndirectIdxDestReg]),
        entry_view("mov.b"@, SuperHFormat::NM(0b0000, 0b1100), seq![ArgumentType::IndirectIdxSrcReg, ArgumentType::DirectDestReg]),
        entry_view("mov.w"@, SuperHFormat::NM(0b0000, 0b1101), seq![ArgumentType::IndirectIdxSrcReg, ArgumentType::DirectDestReg]),
        entry_view("mov.l"@, SuperHFormat::NM(0b0000, 0b1110), seq![ArgumentType::IndirectIdxSrcReg, ArgumentType::DirectDestReg]),
        entry_view("mov.b"@, SuperHFormat::D(0b11000000), seq![ArgumentType::DirectSrcReg, ArgumentType::IndirectGbrDisp]),
        entry_view("mov.w"@, SuperHFormat::D(0b11000001), seq![ArgumentType::DirectSrcReg, ArgumentType::IndirectGbrDisp]),
        entry_view("mov.l"@, SuperHFormat::D(0b11000010), seq![ArgumentType::DirectSrcReg, ArgumentType::IndirectGbrDisp]),
    ]
}

fn entry(opcode: &'static str, format: SuperHFormat, a: ArgumentType, b: ArgumentType) -> (r:
    SuperHInstruction)
    ensures
        r@ == entry_view(opcode@, format, seq![a, b]),
{
    let mut arguments = Vec::new();
    arguments.push(a);
    arguments.push(b);
    let r = SuperHInstruction { opcode, format, arguments };
    assert(r@.arguments =~= seq![a, b]);
    r
}

fn entry_without_arguments(opcode: &'static str, format: SuperHFormat) -> (r: SuperHInstruction)
    ensures
        r@ == entry_view(opcode@, format, seq![]),
{
    let r = SuperHInstruction { opcode, format, arguments: Vec::new() };
    assert(r@.arguments =~= seq![]);
    r
}

/// Builds the decode table.
fn instructions() -> (r: Vec<SuperHInstruction>)
    ensures
        r@.map_values(|e: SuperHInstruction| e@) == instruction_table(),
{
    let mut v = Vec::new();
    v.push(entry_without_arguments("nop", SuperHFormat::Zero(0b1001)));
    v.push(entry("mov", SuperHFormat::NI(0b1110), ArgumentType::Immediate, ArgumentType::DirectDestReg));
    v.push(entry("mov.w", SuperHFormat::NI(0b1001), ArgumentType::IndirectPcDisp, ArgumentType::DirectDestReg));
    v.push(entry("mov.l", SuperHFormat::NI(0b1101), ArgumentType::IndirectPcDisp, ArgumentType::DirectDestReg));
    v.push(entry("mov", SuperHFormat::NM(0b0110, 0b0011), ArgumentType::DirectSrcReg, ArgumentType::DirectDestReg));
    v.push(entry("mov.b", SuperHFormat::NM(0b0010, 0b0000), ArgumentType::DirectSrcReg, ArgumentType::IndirectDestReg));
    v.push(entry("mov.w", SuperHFormat::NM(0b0010, 0b0001), ArgumentType::DirectSrcReg, ArgumentType::IndirectDestReg));
    v.push(entry("mov.l", SuperHFormat::NM(0b0010, 0b0010), ArgumentType::DirectSrcReg, ArgumentType::IndirectDestReg));
    v.push(entry("mov.b", SuperHFormat::NM(0b0110, 0b0000), ArgumentType::IndirectSrcReg, ArgumentType::DirectDestReg));
    v.push(entry("mov.w", SuperHFormat::NM(0b0110, 0b0001), ArgumentType::IndirectSrcReg, ArgumentType::DirectDestReg));
    v.push(entry("mov.l", SuperHFormat::NM(0b0110, 0b0010), ArgumentType::IndirectSrcReg, ArgumentType::DirectDestReg));
    v.push(entry("mov.b", SuperHFormat::NM(0b0010, 0b0100), ArgumentType::DirectSrcReg, ArgumentType::PreDecIndirectDestReg));
    v.push(entry("mov.w", SuperHFormat::NM(0b0010, 0b0101), ArgumentType::DirectSrcReg, ArgumentType::PreDecIndirectDestReg));
    v.push(entry("mov.l", SuperHFormat::NM(0b0010, 0b0110), ArgumentType::DirectSrcReg, ArgumentType::PreDecIndirectDestReg));
    v.push(entry("mov.b", SuperHFormat::NM(0b0110, 0b0100), ArgumentType::PostIncIndirectSrcReg, ArgumentType::DirectDestReg));
    v.push(entry("mov.w", SuperHFormat::NM(0b0110, 0b0101), ArgumentType::PostIncIndirectSrcReg, ArgumentType::DirectDestReg));
    v.push(entry("mov.l", SuperHFormat::NM(0b0110, 0b0110), ArgumentType::PostIncIndirectSrcReg, ArgumentType::DirectDestReg));
    v.push(entry("mov.b", SuperHFormat::ND4(0b10000000), ArgumentType::DirectSrcReg, ArgumentType::IndirectDestRegDisp));
    v.push(entry("mov.w", SuperHFormat::ND4(0b10000001), ArgumentType::DirectSrcReg, ArgumentType::IndirectDestRegDisp));
    v.push(entry("mov.l", SuperHFormat::NMD(0b0001), ArgumentType::DirectSrcReg, ArgumentType::IndirectDestRegDisp));
    v.push(entry("mov.b", SuperHFormat::MD(0b10000100), ArgumentType::IndirectSrcRegDisp, ArgumentType::DirectDestReg));
    v.push(entry("mov.w", SuperHFormat::MD(0b10000101), ArgumentType::IndirectSrcRegDisp, ArgumentType::DirectDestReg));
    v.push(entry("mov.l", SuperHFormat::NMD(0b0101), ArgumentType::IndirectSrcRegDisp, ArgumentType::DirectDestReg));
    v.push(entry("mov.b", SuperHFormat::NM(0b0000, 0b0100), ArgumentType::DirectSrcReg, ArgumentType::IndirectIdxDestReg));
    v.push(entry("mov.w", SuperHFormat::NM(0b0000, 0b0101), ArgumentType::DirectSrcReg, ArgumentType::IndirectIdxDestReg));
    v.push(entry("mov.l", SuperHFormat::NM(0b0000, 0b0110), ArgumentType::DirectSrcReg, ArgumentType::IndirectIdxDestReg));
    v.push(entry("mov.b", SuperHFormat::NM(0b0000, 0b1100), ArgumentType::IndirectIdxSrcReg, ArgumentType::DirectDestReg));
    v.push(entry("mov.w", SuperHFormat::NM(0b0000, 0b1101), ArgumentType::IndirectIdxSrcReg, ArgumentType::DirectDestReg));
    v.push(entry("mov.l", SuperHFormat::NM(0b0000, 0b1110), ArgumentType::IndirectIdxSrcReg, ArgumentType::DirectDestReg));
    v.push(entry("mov.b", SuperHFormat::D(0b11000000), ArgumentType::DirectSrcReg, ArgumentType::IndirectGbrDisp));
    v.push(entry("mov.w", SuperHFormat::D(0b11000001), ArgumentType::DirectSrcReg, ArgumentType::IndirectGbrDisp));
    v.push(entry("mov.l", SuperHFormat::D(0b11000010), ArgumentType::DirectSrcReg, ArgumentType::IndirectGbrDisp));
    assert(v@.map_values(|e: SuperHInstruction| e@) =~= instruction_table());
    v
}

impl SuperHInstruction {
    /// Decodes the nibbles with this row: the tokens where its fixed bits
    /// match, none where they do not.
    pub fn disassemble(&self, nibbles: &Nibbles) -> (r: Option<Instruction>)
        requires
            nibbles.wf(),
        ensures
            r.is_some() == format_matches(self@.format, nibbles@),
            r matches Some(i) ==> i@ == entry_tokens(self@, nibbles@),
    {
        let mut o = Operands {
            source: Register::R0,
            dest: Register::R0,
            immediate: 0,
            displacement: 0,
        };
        match self.format {
            SuperHFormat::Zero(x) => {
                if !nibbles.check_word(x) {
                    return None;
                }
            },
            SuperHFormat::N(x1, x2) => {
                if !(nibbles.check_nibble(0, x1) && nibbles.check_byte(2, x2)) {
                    return None;
                }
                o.dest = Register::from(nibbles.nibble(1));
            },
            SuperHFormat::M(x1, x2) => {
                if !(nibbles.check_nibble(0, x1) && nibbles.check_byte(2, x2)) {
                    return None;
                }
                o.source = Register::from(nibbles.nibble(1));
            },
            SuperHFormat::NM(x1, x2) => {
                if !(nibbles.check_nibble(0, x1) && nibbles.check_nibble(3, x2)) {
                    return None;
                }
                o.dest = Register::from(nibbles.nibble(1));
                o.source = Register::from(nibbles.nibble(2));
            },
            SuperHFormat::MD(x1) => {
                if !nibbles.check_byte(0, x1) {
                    return None;
                }
                o.source = Register::from(nibbles.nibble(2));
                o.displacement = nibbles.nibble(3) as usize;
            },
            SuperHFormat::ND4(x1) => {
                if !nibbles.check_byte(0, x1) {
                    return None;
                }
                o.source = Register::R0;
                o.dest = Register::from(nibbles.nibble(2));
                o.displacement = nibbles.nibble(3) as usize;
            },
            SuperHFormat::NMD(x1) => {
                if !nibbles.check_nibble(0, x1) {
                    return None;
                }
                o.dest = Register::from(nibbles.nibble(1));
                o.source = Register::from(nibbles.nibble(2));
                o.displacement = nibbles.nibble(3) as usize;
            },
            SuperHFormat::D(x1) => {
                if !nibbles.check_byte(0, x1) {
                    return None;
                }
                o.displacement = nibbles.byte(2) as usize;
            },
            SuperHFormat::D12(x1) => {
                if !nibbles.check_nibble(0, x1) {
                    return None;
                }
                o.displacement = nibbles.three(1) as usize;
            },
            SuperHFormat::ND8(x1) => {
                if !nibbles.check_nibble(0, x1) {
                    return None;
                }
                o.dest = Register::from(nibbles.nibble(1));
                o.displacement = nibbles.byte(2) as usize;
            },
            SuperHFormat::I(x1) => {
                if !nibbles.check_byte(0, x1) {
                    return None;
                }
                o.immediate = nibbles.byte(2) as usize;
            },
            SuperHFormat::NI(x1) => {
                if !nibbles.check_nibble(0, x1) {
                    return None;
                }
                o.dest = Register::from(nibbles.nibble(1));
                o.immediate = nibbles.byte(2) as usize;
            },
        }
        assert(o == bind_operands(self@.format, nibbles@));

        let mut instr = Instruction::empty();
        // The opcode comes first
        instr.push(Token::new(TokenBase::Opcode(self.opcode)));
        let ghost args = self@.arguments;
        proof {
            reveal_strlit("");
            assert(instr@ =~= seq![opcode_token(self@.opcode)] + arguments_tokens(args.take(0), o));
        }
        let mut i: usize = 0;
        while i < self.arguments.len()
            invariant
                args == self.arguments@,
                i <= args.len(),
                instr@ == seq![opcode_token(self@.opcode)] + arguments_tokens(args.take(i as int), o),
            decreases args.len() - i,
        {
            push_argument(&mut instr, self.arguments[i], &o);
            proof {
                assert(args.take(i + 1).drop_last() =~= args.take(i as int));
                assert(instr@ =~= seq![opcode_token(self@.opcode)] + arguments_tokens(
                    args.take(i + 1),
                    o,
                ));
            }
            i += 1;
        }
        assert(args.take(i as int) =~= args);
        Some(instr)
    }
}


/// What decoding at `address` gives: `InvalidMemory` unless the layout holds
/// bytes at `address` and the next address, else the first match of the
/// instruction word in the decode table, two bytes long, or
/// `InvalidInstruction`.
pub open spec fn sh2e_decoding(layout: &Layout, address: usize) -> core::result::Result<
    (Seq<TokenView>, usize),
    Error,
> {
    if !(layout.contains(address as int) && layout.contains(address + 1)) {
        Err(Error::InvalidMemory)
    } else {
        let n = nibbles_of(layout.byte_at(address as int), layout.byte_at(address + 1));
        match decode_with(instruction_table(), n) {
            Some(ts) => Ok((ts, 2)),
            None => Err(Error::InvalidInstruction),
        }
    }
}

/// Renesas SH2E architecture.
/// Uses the Super-H instruction set.
pub struct SH2E {
    formats: Vec<SuperHInstruction>,
}

impl SH2E {
    /// The decoder holds the decode table, in order.
    #[verifier::type_invariant]
    spec fn holds_table(&self) -> bool {
        self.formats@.map_values(|e: SuperHInstruction| e@) == instruction_table()
    }

    pub fn new() -> SH2E {
        SH2E { formats: instructions() }
    }

    /// Decodes an instruction word: the tokens of the first row of the
    /// decode table that matches it, or none.
    pub fn decode(&self, nibbles: &Nibbles) -> (r: Option<Instruction>)
        requires
            nibbles.wf(),
        ensures
            r.is_some() == decode_with(instruction_table(), nibbles@).is_some(),
            r matches Some(i) ==> decode_with(instruction_table(), nibbles@) == Some(i@),
    {
        proof {
            use_type_invariant(self);
        }
        let ghost table = instruction_table();
        assert(table.skip(0) =~= table);
        let mut i: usize = 0;
        while i < self.formats.len()
            invariant
                self.formats@.map_values(|e: SuperHInstruction| e@) == table,
                table == instruction_table(),
                i <= table.len(),
                decode_with(table, nibbles@) == decode_with(table.skip(i as int), nibbles@),
                nibbles.wf(),
            decreases table.len() - i,
        {
            let e = &self.formats[i];
            assert(e@ == table[i as int]);
            assert(table.skip(i as int)[0] == table[i as int]);
            match e.disassemble(nibbles) {
                Some(instr) => {
                    return Some(instr);
                },
                None => {},
            }
            assert(table.skip(i as int).drop_first() =~= table.skip(i + 1));
            i += 1;
        }
        assert(table.skip(i as int) =~= Seq::<EntryView>::empty());
        None
    }

    /// Decodes the two bytes of an instruction word.
    pub fn decode_bytes(&self, b0: u8, b1: u8) -> (r: Result<Instruction>)
        ensures
            match decode_with(instruction_table(), nibbles_of(b0, b1)) {
                Some(ts) => r matches Ok(i) && i@ == ts,
                None => r == Err::<Instruction, Error>(Error::InvalidInstruction),
            },
    {
        let nibbles = Nibbles::from_bytes(b0, b1);
        match self.decode(&nibbles) {
            Some(instr) => Ok(instr),
            None => Err(Error::InvalidInstruction),
        }
    }
}

impl Architecture for SH2E {
    open spec fn decoding(&self, layout: &Layout, address: usize) -> core::result::Result<
        (Seq<TokenView>, usize),
        Error,
    > {
        sh2e_decoding(layout, address)
    }

    fn disassemble_single(&self, layout: &Layout, address: usize) -> (r: Result<
        (Instruction, usize),
    >) {
        let mut instr: Vec<u8> = Vec::new();
        instr.push(0);
        instr.push(0);
        // Read two bytes for the instruction
        let amount_read = layout.read_memory(address, instr.as_mut_slice());
        if amount_read < 2 {
            return Err(Error::InvalidMemory);
        }
        assert(instr@[0] == layout.byte_at(address as int));
        assert(instr@[1] == layout.byte_at(address + 1));
        match self.decode_bytes(instr[0], instr[1]) {
            Ok(i) => Ok((i, 2)),
            Err(e) => Err(e),
        }
    }
}


/// Decoding against a layout without sections fails with `InvalidMemory`, at
/// any address.
pub proof fn lemma_empty_layout_decodes_nothing(l: &Layout, address: usize)
    requires
        l.sections().len() == 0,
    ensures
        sh2e_decoding(l, address) == Err::<(Seq<TokenView>, usize), Error>(Error::InvalidMemory),
{
    lemma_empty_layout_reads_nothing(l, 0, 0, 0);
}

/// Decoding at the base of a section that holds a single byte, where the
/// layout has no other section, fails with `InvalidMemory`: an instruction
/// takes two bytes.
pub proof fn lemma_single_byte_decodes_nothing(l: &Layout, s: Section)
    requires
        l.sections() == seq![s],
        s.bytes().len() == 1,
        0 <= s.base() <= usize::MAX,
    ensures
        sh2e_decoding(l, s.base() as usize) == Err::<(Seq<TokenView>, usize), Error>(
            Error::InvalidMemory,
        ),
{
    lemma_single_byte_section(l, s);
}

/// The first row that matches decides: where row `i` matches and no earlier
/// row does, decoding gives the tokens of row `i`, whatever the later rows are.
pub proof fn lemma_first_match_wins(table: Seq<EntryView>, n: Seq<u8>, i: int)
    requires
        0 <= i < table.len(),
        format_matches(table[i].format, n),
        forall|j: int| 0 <= j < i ==> !format_matches(#[trigger] table[j].format, n),
    ensures
        decode_with(table, n) == Some(entry_tokens(table[i], n)),
    decreases i,
{
    if i > 0 {
        let rest = table.drop_first();
        assert forall|j: int| 0 <= j < i - 1 implies !format_matches(
            #[trigger] rest[j].format,
            n,
        ) by {
            assert(rest[j] == table[j + 1]);
        }
        assert(!format_matches(table[0].format, n));
        lemma_first_match_wins(rest, n, i - 1);
    }
}

/// Where two rows both match, the later one and all rows after it play no
/// part: decoding gives what the table cut just before the later row gives.
pub proof fn lemma_earlier_row_wins(table: Seq<EntryView>, n: Seq<u8>, i: int, j: int)
    requires
        0 <= i < j < table.len(),
        format_matches(table[i].format, n),
        format_matches(table[j].format, n),
    ensures
        decode_with(table, n) == decode_with(table.take(j), n),
        decode_with(table, n) is Some,
    decreases i,
{
    if !format_matches(table[0].format, n) {
        let rest = table.drop_first();
        assert(rest[i - 1] == table[i] && rest[j - 1] == table[j]);
        lemma_earlier_row_wins(rest, n, i - 1, j - 1);
        assert(table.take(j).drop_first() =~= rest.take(j - 1));
    } else {
        assert(table.take(j)[0] == table[0]);
    }
}

/// Every instruction word whose first nibble is `0b1110` decodes as `mov` of
/// an immediate, the low byte, into the register that the second nibble
/// selects.
pub proof fn lemma_mov_immediate(b0: u8, b1: u8)
    requires
        b0 / 16 == 0b1110,
    ensures
        decode_with(instruction_table(), nibbles_of(b0, b1)) == Some(
            seq![
                opcode_token("mov"@),
                imm_token("#"@, b1 as usize, seq![]),
                reg_token(seq![], reg_of((b0 % 16) as int), seq![]),
            ],
        ),
{
    let table = instruction_table();
    let n = nibbles_of(b0, b1);
    reveal_strlit("");
    assert(""@ =~= Seq::<char>::empty());
    assert(!format_matches(table[0].format, n));
    assert(format_matches(table[1].format, n));
    lemma_first_match_wins(table, n, 1);
    let args = table[1].arguments;
    assert(args.drop_last() =~= seq![ArgumentType::Immediate]);
    assert(args.drop_last().drop_last() =~= Seq::<ArgumentType>::empty());
    assert(byte_field(n, 2) == b1);
    assert(table[1] == entry_view(
        "mov"@,
        SuperHFormat::NI(0b1110),
        seq![ArgumentType::Immediate, ArgumentType::DirectDestReg],
    ));
    let o = bind_operands(table[1].format, n);
    assert(o.dest == reg_of((b0 % 16) as int));
    assert(o.immediate == b1 as usize);
    assert(args.last() == ArgumentType::DirectDestReg);
    assert(args.drop_last().last() == ArgumentType::Immediate);
    let t0 = arguments_tokens(args.drop_last().drop_last(), o);
    assert(t0 == Seq::<TokenView>::empty());
    let t1 = arguments_tokens(args.drop_last(), o);
    assert(t1 == t0 + argument_tokens(ArgumentType::Immediate, o));
    assert(t1 =~= seq![imm_token("#"@, b1 as usize, seq![])]);
    let t2 = arguments_tokens(args, o);
    assert(t2 == t1 + argument_tokens(ArgumentType::DirectDestReg, o));
    assert(entry_tokens(table[1], n) =~= seq![
        opcode_token("mov"@),
        imm_token("#"@, b1 as usize, seq![]),
        reg_token(seq![], reg_of((b0 % 16) as int), seq![]),
    ]);
}

} // verus!
