//! A model of x86-64 assembly for NASM: instructions, the four segments of a
//! program, and their text.
use vstd::prelude::*;

use x64asm::convert::{Separator, ToAssembly};
use x64asm::instruction::{Mnemonic as X64Mnemonic, Operand as X64Operand};
use x64asm::InstructionBuilder;

use crate::numeral::{decimal_text, int_string, nat_string, nat_text};

verus! {

/// The registers that generated code uses.
#[derive(Clone, Copy, PartialEq, Eq, Structural, Debug)]
pub enum Reg {
    Eax,
    Ebx,
    Ecx,
    Edx,
    Esi,
    Rax,
    Rdi,
    Rsi,
    Rsp,
    Rbp,
}

/// A symbolic address.
#[derive(Clone, Copy, PartialEq, Eq, Structural, Debug, Hash)]
pub enum Symbol {
    /// A label made by a [`crate::LabelGenerator`], written `$lb<n>`.
    Generated(u64),
    /// The entry point of the program.
    Start,
    /// The memory that holds the operand stack.
    OpStack,
    /// The cell that records where the operand stack starts.
    OpStackBase,
    /// The runtime routine that prints the top cell.
    Print,
    /// The runtime routine that reads an integer onto the stack.
    Scan,
    /// The runtime routine that ends the process.
    Exit,
    /// The format of printed numbers.
    OutputFormat,
    /// The format of read numbers.
    InputFormat,
    /// The C library's `printf`.
    Printf,
    /// The C library's `scanf`.
    Scanf,
    /// The C library's `exit`.
    LibcExit,
}

/// An operand of an instruction.
#[derive(Clone, Copy, PartialEq, Eq, Structural, Debug)]
pub enum Operand {
    Reg(Reg),
    /// An immediate value.
    Imm(i64),
    /// A 32-bit immediate value.
    Dword(i64),
    /// The address that a symbol stands for.
    Addr(Symbol),
    /// The 32-bit cell at `base + displacement`.
    Mem(Reg, i64),
    /// The 32-bit cell at `base + 4 * index + displacement`.
    MemIndexed(Reg, Reg, i64),
    /// The 32-bit cell at a symbol.
    MemSymbol(Symbol),
    /// The text of a number format followed by a line feed.
    OutputFormatText,
    /// The text of a number format.
    InputFormatText,
}

/// The instructions and directives that generated code uses.
#[derive(Clone, Copy, PartialEq, Eq, Structural, Debug)]
pub enum Mnemonic {
    Mov,
    Add,
    Sub,
    Imul,
    Cdq,
    Idiv,
    And,
    Or,
    Xor,
    Cmp,
    Cmove,
    Cmovne,
    Cmovl,
    Cmovle,
    Cmovg,
    Cmovge,
    Jz,
    Jnz,
    Call,
    Ret,
    Push,
    Pop,
    Global,
    Extern,
    Resd,
    Resb,
    Db,
}

/// A section of the object file.
#[derive(Clone, Copy, PartialEq, Eq, Structural, Debug)]
pub enum Section {
    Rodata,
    Bss,
    Text,
}

/// One line of assembly.
#[derive(Clone, Copy, PartialEq, Eq, Structural, Debug)]
pub enum Instruction {
    Section(Section),
    Label(Symbol),
    Op0(Mnemonic),
    Op1(Mnemonic, Operand),
    Op2(Mnemonic, Operand, Operand),
}

pub open spec fn reg_text(r: Reg) -> Seq<char> {
    match r {
        Reg::Eax => "eax"@,
        Reg::Ebx => "ebx"@,
        Reg::Ecx => "ecx"@,
        Reg::Edx => "edx"@,
        Reg::Esi => "esi"@,
        Reg::Rax => "rax"@,
        Reg::Rdi => "rdi"@,
        Reg::Rsi => "rsi"@,
        Reg::Rsp => "rsp"@,
        Reg::Rbp => "rbp"@,
    }
}

pub open spec fn symbol_text(s: Symbol) -> Seq<char> {
    match s {
        Symbol::Generated(n) => "$lb"@ + nat_text(n as nat),
        Symbol::Start => "_start"@,
        Symbol::OpStack => "op_stack"@,
        Symbol::OpStackBase => "op_stack_base"@,
        Symbol::Print => "$std_print"@,
        Symbol::Scan => "$std_scan"@,
        Symbol::Exit => "$std_exit"@,
        Symbol::OutputFormat => "$otemplate"@,
        Symbol::InputFormat => "$itemplate"@,
        Symbol::Printf => "printf"@,
        Symbol::Scanf => "scanf"@,
        Symbol::LibcExit => "exit"@,
    }
}

/// A displacement as it follows a base: `+4`, `-4`, or nothing for zero.
pub open spec fn displacement_text(d: int) -> Seq<char> {
    if d == 0 {
        Seq::empty()
    } else if d > 0 {
        "+"@ + decimal_text(d)
    } else {
        decimal_text(d)
    }
}

pub open spec fn operand_text(o: Operand) -> Seq<char> {
    match o {
        Operand::Reg(r) => reg_text(r),
        Operand::Imm(n) => decimal_text(n as int),
        Operand::Dword(n) => "dword "@ + decimal_text(n as int),
        Operand::Addr(s) => symbol_text(s),
        Operand::Mem(r, d) => "dword ["@ + reg_text(r) + displacement_text(d as int) + "]"@,
        Operand::MemIndexed(b, i, d) => "dword ["@ + reg_text(b) + "+"@ + reg_text(i) + "*4"@
            + displacement_text(d as int) + "]"@,
        Operand::MemSymbol(s) => "dword ["@ + symbol_text(s) + "]"@,
        Operand::OutputFormatText => "`%d`, 10"@,
        Operand::InputFormatText => "`%d`"@,
    }
}

pub open spec fn mnemonic_text(m: Mnemonic) -> Seq<char> {
    match m {
        Mnemonic::Mov => "mov"@,
        Mnemonic::Add => "add"@,
        Mnemonic::Sub => "sub"@,
        Mnemonic::Imul => "imul"@,
        Mnemonic::Cdq => "cdq"@,
        Mnemonic::Idiv => "idiv"@,
        Mnemonic::And => "and"@,
        Mnemonic::Or => "or"@,
        Mnemonic::Xor => "xor"@,
        Mnemonic::Cmp => "cmp"@,
        Mnemonic::Cmove => "cmove"@,
        Mnemonic::Cmovne => "cmovne"@,
        Mnemonic::Cmovl => "cmovl"@,
        Mnemonic::Cmovle => "cmovle"@,
        Mnemonic::Cmovg => "cmovg"@,
        Mnemonic::Cmovge => "cmovge"@,
        Mnemonic::Jz => "jz"@,
        Mnemonic::Jnz => "jnz"@,
        Mnemonic::Call => "call"@,
        Mnemonic::Ret => "ret"@,
        Mnemonic::Push => "push"@,
        Mnemonic::Pop => "pop"@,
        Mnemonic::Global => "global"@,
        Mnemonic::Extern => "extern"@,
        Mnemonic::Resd => "resd"@,
        Mnemonic::Resb => "resb"@,
        Mnemonic::Db => "db"@,
    }
}

pub open spec fn section_text(s: Section) -> Seq<char> {
    match s {
        Section::Rodata => "section .rodata"@,
        Section::Bss => "section .bss"@,
        Section::Text => "section .text"@,
    }
}

/// An instruction as a head (mnemonic, label or section) and operand texts.
pub open spec fn instruction_parts(i: Instruction) -> (Seq<char>, Seq<Seq<char>>) {
    match i {
        Instruction::Section(s) => (section_text(s), Seq::empty()),
        Instruction::Label(s) => (symbol_text(s) + ":"@, Seq::empty()),
        Instruction::Op0(m) => (mnemonic_text(m), Seq::empty()),
        Instruction::Op1(m, a) => (mnemonic_text(m), seq![operand_text(a)]),
        Instruction::Op2(m, a, b) => (mnemonic_text(m), seq![operand_text(a), operand_text(b)]),
    }
}

/// The operand list from the `i`-th operand on, as x64asm writes it: a comma
/// after the first of several operands, and a space after each non-empty one
/// but the last.
pub open spec fn operands_from(ops: Seq<Seq<char>>, i: int) -> Seq<char>
    decreases ops.len() - i,
{
    if i < 0 || i >= ops.len() {
        Seq::empty()
    } else {
        ops[i] + (if i == 0 && ops.len() != 1 {
            ","@
        } else {
            Seq::empty()
        }) + (if i != ops.len() - 1 && ops[i].len() != 0 {
            " "@
        } else {
            Seq::empty()
        }) + operands_from(ops, i + 1)
    }
}

/// One line as x64asm writes an instruction whose mnemonic is free text.
pub open spec fn line_text(line: (Seq<char>, Seq<Seq<char>>)) -> Seq<char> {
    "\t"@ + line.0 + " "@ + operands_from(line.1, 0) + "\n"@
}

/// The lines one after another.
pub open spec fn lines_text(lines: Seq<(Seq<char>, Seq<Seq<char>>)>) -> Seq<char>
    decreases lines.len(),
{
    if lines.len() == 0 {
        Seq::empty()
    } else {
        lines_text(lines.drop_last()) + line_text(lines.last())
    }
}

/// The model of the lines handed to x64asm.
pub open spec fn lines_view(lines: Seq<(String, Vec<String>)>) -> Seq<(Seq<char>, Seq<Seq<char>>)> {
    lines.map_values(|l: (String, Vec<String>)| (l.0@, l.1@.map_values(|o: String| o@)))
}

/// The text of a program.
pub open spec fn program_text(instructions: Seq<Instruction>) -> Seq<char> {
    lines_text(instructions.map_values(|i: Instruction| instruction_parts(i)))
}

/// Relies on x64asm's `ToAssembly` for a vector of instructions, each built
/// from a free-text mnemonic and free-text operands: it writes one line per
/// instruction, a tab, the mnemonic, a space, the operands, a line feed.
#[verifier::external_body]
fn lay_out(lines: &Vec<(String, Vec<String>)>) -> (r: String)
    ensures
        r@ == lines_text(lines_view(lines@)),
{
    let instructions: Vec<x64asm::Instruction> = lines
        .iter()
        .map(|(m, ops)| {
            let ops: Vec<X64Operand> = ops.iter().map(|o| X64Operand::Expression(o.clone())).collect();
            InstructionBuilder::new(X64Mnemonic::Expression(m.clone())).with_operands(&ops).create()
        })
        .collect();
    instructions.to_assembly(Separator::Space)
}

fn reg_str(r: Reg) -> (t: &'static str)
    ensures
        t@ == reg_text(r),
{
    match r {
        Reg::Eax => "eax",
        Reg::Ebx => "ebx",
        Reg::Ecx => "ecx",
        Reg::Edx => "edx",
        Reg::Esi => "esi",
        Reg::Rax => "rax",
        Reg::Rdi => "rdi",
        Reg::Rsi => "rsi",
        Reg::Rsp => "rsp",
        Reg::Rbp => "rbp",
    }
}

fn mnemonic_str(m: Mnemonic) -> (t: &'static str)
    ensures
        t@ == mnemonic_text(m),
{
    match m {
        Mnemonic::Mov => "mov",
        Mnemonic::Add => "add",
        Mnemonic::Sub => "sub",
        Mnemonic::Imul => "imul",
        Mnemonic::Cdq => "cdq",
        Mnemonic::Idiv => "idiv",
        Mnemonic::And => "and",
        Mnemonic::Or => "or",
        Mnemonic::Xor => "xor",
        Mnemonic::Cmp => "cmp",
        Mnemonic::Cmove => "cmove",
        Mnemonic::Cmovne => "cmovne",
        Mnemonic::Cmovl => "cmovl",
        Mnemonic::Cmovle => "cmovle",
        Mnemonic::Cmovg => "cmovg",
        Mnemonic::Cmovge => "cmovge",
        Mnemonic::Jz => "jz",
        Mnemonic::Jnz => "jnz",
        Mnemonic::Call => "call",
        Mnemonic::Ret => "ret",
        Mnemonic::Push => "push",
        Mnemonic::Pop => "pop",
        Mnemonic::Global => "global",
        Mnemonic::Extern => "extern",
        Mnemonic::Resd => "resd",
        Mnemonic::Resb => "resb",
        Mnemonic::Db => "db",
    }
}

fn section_str(s: Section) -> (t: &'static str)
    ensures
        t@ == section_text(s),
{
    match s {
        Section::Rodata => "section .rodata",
        Section::Bss => "section .bss",
        Section::Text => "section .text",
    }
}

fn symbol_string(s: Symbol) -> (t: String)
    ensures
        t@ == symbol_text(s),
{
    match s {
        Symbol::Generated(n) => String::from_str("$lb").concat(nat_string(n).as_str()),
        Symbol::Start => String::from_str("_start"),
        Symbol::OpStack => String::from_str("op_stack"),
        Symbol::OpStackBase => String::from_str("op_stack_base"),
        Symbol::Print => String::from_str("$std_print"),
        Symbol::Scan => String::from_str("$std_scan"),
        Symbol::Exit => String::from_str("$std_exit"),
        Symbol::OutputFormat => String::from_str("$otemplate"),
        Symbol::InputFormat => String::from_str("$itemplate"),
        Symbol::Printf => String::from_str("printf"),
        Symbol::Scanf => String::from_str("scanf"),
        Symbol::LibcExit => String::from_str("exit"),
    }
}

fn displacement_string(d: i64) -> (t: String)
    ensures
        t@ == displacement_text(d as int),
{
    if d == 0 {
        String::new()
    } else if d > 0 {
        String::from_str("+").concat(int_string(d).as_str())
    } else {
        int_string(d)
    }
}

fn operand_string(o: Operand) -> (t: String)
    ensures
        t@ == operand_text(o),
{
    match o {
        Operand::Reg(r) => String::from_str(reg_str(r)),
        Operand::Imm(n) => int_string(n),
        Operand::Dword(n) => String::from_str("dword ").concat(int_string(n).as_str()),
        Operand::Addr(s) => symbol_string(s),
        Operand::Mem(r, d) => String::from_str("dword [").concat(reg_str(r)).concat(
            displacement_string(d).as_str(),
        ).concat("]"),
        Operand::MemIndexed(b, i, d) => String::from_str("dword [").concat(reg_str(b)).concat(
            "+",
        ).concat(reg_str(i)).concat("*4").concat(displacement_string(d).as_str()).concat("]"),
        Operand::MemSymbol(s) => String::from_str("dword [").concat(symbol_string(s).as_str()).concat(
            "]",
        ),
        Operand::OutputFormatText => String::from_str("`%d`, 10"),
        Operand::InputFormatText => String::from_str("`%d`"),
    }
}

fn instruction_line(i: Instruction) -> (r: (String, Vec<String>))
    ensures
        (r.0@, r.1@.map_values(|o: String| o@)) == instruction_parts(i),
{
    let r = match i {
        Instruction::Section(s) => (String::from_str(section_str(s)), Vec::new()),
        Instruction::Label(s) => (symbol_string(s).concat(":"), Vec::new()),
        Instruction::Op0(m) => (String::from_str(mnemonic_str(m)), Vec::new()),
        Instruction::Op1(m, a) => (String::from_str(mnemonic_str(m)), vec![operand_string(a)]),
        Instruction::Op2(m, a, b) => (
            String::from_str(mnemonic_str(m)),
            vec![operand_string(a), operand_string(b)],
        ),
    };
    assert(r.1@.map_values(|o: String| o@) =~= instruction_parts(i).1);
    r
}

/// An assembly program in four segments, written out in this order:
/// read-only data, zero-initialised data, main code, and the code of list
/// bodies, which runs only when called.
pub struct Asm {
    pub rodata: Vec<Instruction>,
    pub bss: Vec<Instruction>,
    pub text: Vec<Instruction>,
    pub text_tail: Vec<Instruction>,
}

impl Asm {
    /// All four segments in the order in which they are written out.
    pub open spec fn lines(&self) -> Seq<Instruction> {
        self.rodata@ + self.bss@ + self.text@ + self.text_tail@
    }

    /// A program with four empty segments.
    pub fn empty() -> (r: Asm)
        ensures
            r.rodata@ == Seq::<Instruction>::empty(),
            r.bss@ == Seq::<Instruction>::empty(),
            r.text@ == Seq::<Instruction>::empty(),
            r.text_tail@ == Seq::<Instruction>::empty(),
    {
        Asm { rodata: Vec::new(), bss: Vec::new(), text: Vec::new(), text_tail: Vec::new() }
    }

    /// A program with the given segments.
    pub fn new(
        rodata: Vec<Instruction>,
        bss: Vec<Instruction>,
        text: Vec<Instruction>,
        text_tail: Vec<Instruction>,
    ) -> (r: Asm)
        ensures
            r.rodata@ == rodata@,
            r.bss@ == bss@,
            r.text@ == text@,
            r.text_tail@ == text_tail@,
    {
        Asm { rodata, bss, text, text_tail }
    }

    /// Each segment of `self` followed by the same segment of `other`.
    pub fn append(self, other: Asm) -> (r: Asm)
        ensures
            r.rodata@ == self.rodata@ + other.rodata@,
            r.bss@ == self.bss@ + other.bss@,
            r.text@ == self.text@ + other.text@,
            r.text_tail@ == self.text_tail@ + other.text_tail@,
    {
        let mut other = other;
        let mut r = self;
        r.rodata.append(&mut other.rodata);
        r.bss.append(&mut other.bss);
        r.text.append(&mut other.text);
        r.text_tail.append(&mut other.text_tail);
        r
    }

    /// Adds instructions at the end of the read-only data.
    pub fn rodata(self, rodata: Vec<Instruction>) -> (r: Asm)
        ensures
            r.rodata@ == self.rodata@ + rodata@,
            r.bss@ == self.bss@,
            r.text@ == self.text@,
            r.text_tail@ == self.text_tail@,
    {
        let mut rodata = rodata;
        let mut r = self;
        r.rodata.append(&mut rodata);
        r
    }

    /// Adds instructions at the end of the zero-initialised data.
    pub fn bss(self, bss: Vec<Instruction>) -> (r: Asm)
        ensures
            r.rodata@ == self.rodata@,
            r.bss@ == self.bss@ + bss@,
            r.text@ == self.text@,
            r.text_tail@ == self.text_tail@,
    {
        let mut bss = bss;
        let mut r = self;
        r.bss.append(&mut bss);
        r
    }

    /// Adds instructions at the end of the main code.
    pub fn text(self, text: Vec<Instruction>) -> (r: Asm)
        ensures
            r.rodata@ == self.rodata@,
            r.bss@ == self.bss@,
            r.text@ == self.text@ + text@,
            r.text_tail@ == self.text_tail@,
    {
        let mut text = text;
        let mut r = self;
        r.text.append(&mut text);
        r
    }

    /// Adds instructions at the end of the out-of-line code.
    pub fn text_tail(self, text_tail: Vec<Instruction>) -> (r: Asm)
        ensures
            r.rodata@ == self.rodata@,
            r.bss@ == self.bss@,
            r.text@ == self.text@,
            r.text_tail@ == self.text_tail@ + text_tail@,
    {
        let mut text_tail = text_tail;
        let mut r = self;
        r.text_tail.append(&mut text_tail);
        r
    }

    /// The assembly text of the program: the four segments in order, one
    /// line per instruction.
    pub fn into_assembly(self) -> (r: String)
        ensures
            r@ == program_text(self.lines()),
    {
        let mut lines: Vec<(String, Vec<String>)> = Vec::new();
        push_lines(&mut lines, &self.rodata);
        push_lines(&mut lines, &self.bss);
        push_lines(&mut lines, &self.text);
        push_lines(&mut lines, &self.text_tail);
        assert(lines_view(lines@) =~= self.lines().map_values(|i: Instruction| instruction_parts(i)));
        lay_out(&lines)
    }
}

fn push_lines(lines: &mut Vec<(String, Vec<String>)>, segment: &Vec<Instruction>)
    ensures
        lines_view(final(lines)@) =~= lines_view(old(lines)@) + segment@.map_values(
            |i: Instruction| instruction_parts(i),
        ),
{
    let mut j: usize = 0;
    while j < segment.len()
        invariant
            j <= segment.len(),
            lines_view(lines@) =~= lines_view(old(lines)@) + segment@.subrange(0, j as int).map_values(
                |i: Instruction| instruction_parts(i),
            ),
        decreases segment.len() - j,
    {
        let line = instruction_line(segment[j]);
        let ghost prev = lines@;
        let ghost seen = segment@.subrange(0, j as int);
        lines.push(line);
        proof {
            assert(lines@ == prev.push(line));
            assert(lines_view(lines@) =~= lines_view(prev).push(instruction_parts(segment@[j as int])));
            assert(segment@.subrange(0, j + 1) =~= seen.push(segment@[j as int]));
            assert(segment@.subrange(0, j + 1).map_values(|i: Instruction| instruction_parts(i))
                =~= seen.map_values(|i: Instruction| instruction_parts(i)).push(
                instruction_parts(segment@[j as int]),
            ));
        }
        j = j + 1;
    }
    assert(segment@.subrange(0, j as int) =~= segment@);
}

} // verus!
