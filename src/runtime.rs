//! The runtime library that generated programs link against: printing,
//! reading and exiting through the C library.
use vstd::prelude::*;

use crate::assembly::{Asm, Instruction, Mnemonic, Operand, Reg, Section, Symbol};
use crate::templates::CELL_BYTES;

verus! {

/// The mask that aligns the machine stack to 16 bytes for a C call.
pub const ALIGN_16: i64 = -16;

pub open spec fn runtime_rodata() -> Seq<Instruction> {
    seq![
        Instruction::Section(Section::Rodata),
        Instruction::Label(Symbol::OutputFormat),
        Instruction::Op2(Mnemonic::Db, Operand::OutputFormatText, Operand::Imm(0)),
        Instruction::Label(Symbol::InputFormat),
        Instruction::Op2(Mnemonic::Db, Operand::InputFormatText, Operand::Imm(0)),
    ]
}

pub open spec fn runtime_bss() -> Seq<Instruction> {
    seq![Instruction::Section(Section::Bss)]
}

/// Save the frame and align the machine stack for a C call.
pub open spec fn enter_c() -> Seq<Instruction> {
    seq![
        Instruction::Op1(Mnemonic::Push, Operand::Reg(Reg::Rbp)),
        Instruction::Op2(Mnemonic::Mov, Operand::Reg(Reg::Rbp), Operand::Reg(Reg::Rsp)),
        Instruction::Op2(Mnemonic::And, Operand::Reg(Reg::Rsp), Operand::Imm(ALIGN_16)),
    ]
}

/// Restore the frame and return.
pub open spec fn leave_c() -> Seq<Instruction> {
    seq![
        Instruction::Op2(Mnemonic::Mov, Operand::Reg(Reg::Rsp), Operand::Reg(Reg::Rbp)),
        Instruction::Op1(Mnemonic::Pop, Operand::Reg(Reg::Rbp)),
        Instruction::Op0(Mnemonic::Ret),
    ]
}

/// The print routine pops the top cell and prints it with a line feed; the
/// scan routine reads an integer into a new top cell; the exit routine ends
/// the process with the status in `rdi`.
pub open spec fn runtime_text() -> Seq<Instruction> {
    seq![
        Instruction::Op1(Mnemonic::Global, Operand::Addr(Symbol::Print)),
        Instruction::Op1(Mnemonic::Global, Operand::Addr(Symbol::Scan)),
        Instruction::Op1(Mnemonic::Global, Operand::Addr(Symbol::Exit)),
        Instruction::Op1(Mnemonic::Extern, Operand::Addr(Symbol::Printf)),
        Instruction::Op1(Mnemonic::Extern, Operand::Addr(Symbol::Scanf)),
        Instruction::Op1(Mnemonic::Extern, Operand::Addr(Symbol::LibcExit)),
        Instruction::Section(Section::Text),
        Instruction::Label(Symbol::Print),
    ] + enter_c() + seq![
        Instruction::Op2(Mnemonic::Mov, Operand::Reg(Reg::Rdi), Operand::Addr(Symbol::OutputFormat)),
        Instruction::Op2(Mnemonic::Mov, Operand::Reg(Reg::Esi), Operand::Mem(Reg::Ebx, 0)),
        Instruction::Op2(Mnemonic::Xor, Operand::Reg(Reg::Eax), Operand::Reg(Reg::Eax)),
        Instruction::Op1(Mnemonic::Call, Operand::Addr(Symbol::Printf)),
        Instruction::Op2(Mnemonic::Add, Operand::Reg(Reg::Ebx), Operand::Imm(CELL_BYTES)),
    ] + leave_c() + seq![Instruction::Label(Symbol::Scan)] + enter_c() + seq![
        Instruction::Op2(Mnemonic::Sub, Operand::Reg(Reg::Ebx), Operand::Imm(CELL_BYTES)),
        Instruction::Op2(Mnemonic::Mov, Operand::Reg(Reg::Rdi), Operand::Addr(Symbol::InputFormat)),
        Instruction::Op2(Mnemonic::Mov, Operand::Reg(Reg::Esi), Operand::Reg(Reg::Ebx)),
        Instruction::Op2(Mnemonic::Xor, Operand::Reg(Reg::Eax), Operand::Reg(Reg::Eax)),
        Instruction::Op1(Mnemonic::Call, Operand::Addr(Symbol::Scanf)),
    ] + leave_c() + seq![
        Instruction::Label(Symbol::Exit),
        Instruction::Op2(Mnemonic::And, Operand::Reg(Reg::Rsp), Operand::Imm(ALIGN_16)),
        Instruction::Op1(Mnemonic::Call, Operand::Addr(Symbol::LibcExit)),
    ]
}

fn enter_c_x() -> (r: Vec<Instruction>)
    ensures
        r@ == enter_c(),
{
    let r = vec![
        Instruction::Op1(Mnemonic::Push, Operand::Reg(Reg::Rbp)),
        Instruction::Op2(Mnemonic::Mov, Operand::Reg(Reg::Rbp), Operand::Reg(Reg::Rsp)),
        Instruction::Op2(Mnemonic::And, Operand::Reg(Reg::Rsp), Operand::Imm(ALIGN_16)),
    ];
    assert(r@ =~= enter_c());
    r
}

fn leave_c_x() -> (r: Vec<Instruction>)
    ensures
        r@ == leave_c(),
{
    let r = vec![
        Instruction::Op2(Mnemonic::Mov, Operand::Reg(Reg::Rsp), Operand::Reg(Reg::Rbp)),
        Instruction::Op1(Mnemonic::Pop, Operand::Reg(Reg::Rbp)),
        Instruction::Op0(Mnemonic::Ret),
    ];
    assert(r@ =~= leave_c());
    r
}

/// The runtime library as a program of its own, to be assembled and linked
/// beside a translated program.
pub fn make_std_lib() -> (r: Asm)
    ensures
        r.rodata@ == runtime_rodata(),
        r.bss@ == runtime_bss(),
        r.text@ == runtime_text(),
        r.text_tail@ == Seq::<Instruction>::empty(),
{
    let rodata = vec![
        Instruction::Section(Section::Rodata),
        Instruction::Label(Symbol::OutputFormat),
        Instruction::Op2(Mnemonic::Db, Operand::OutputFormatText, Operand::Imm(0)),
        Instruction::Label(Symbol::InputFormat),
        Instruction::Op2(Mnemonic::Db, Operand::InputFormatText, Operand::Imm(0)),
    ];
    let bss = vec![Instruction::Section(Section::Bss)];
    let mut text = vec![
        Instruction::Op1(Mnemonic::Global, Operand::Addr(Symbol::Print)),
        Instruction::Op1(Mnemonic::Global, Operand::Addr(Symbol::Scan)),
        Instruction::Op1(Mnemonic::Global, Operand::Addr(Symbol::Exit)),
        Instruction::Op1(Mnemonic::Extern, Operand::Addr(Symbol::Printf)),
        Instruction::Op1(Mnemonic::Extern, Operand::Addr(Symbol::Scanf)),
        Instruction::Op1(Mnemonic::Extern, Operand::Addr(Symbol::LibcExit)),
        Instruction::Section(Section::Text),
        Instruction::Label(Symbol::Print),
    ];
    text.append(&mut enter_c_x());
    text.append(
        &mut vec![
            Instruction::Op2(Mnemonic::Mov, Operand::Reg(Reg::Rdi), Operand::Addr(Symbol::OutputFormat)),
            Instruction::Op2(Mnemonic::Mov, Operand::Reg(Reg::Esi), Operand::Mem(Reg::Ebx, 0)),
            Instruction::Op2(Mnemonic::Xor, Operand::Reg(Reg::Eax), Operand::Reg(Reg::Eax)),
            Instruction::Op1(Mnemonic::Call, Operand::Addr(Symbol::Printf)),
            Instruction::Op2(Mnemonic::Add, Operand::Reg(Reg::Ebx), Operand::Imm(CELL_BYTES)),
        ],
    );
    text.append(&mut leave_c_x());
    text.push(Instruction::Label(Symbol::Scan));
    text.append(&mut enter_c_x());
    text.append(
        &mut vec![
            Instruction::Op2(Mnemonic::Sub, Operand::Reg(Reg::Ebx), Operand::Imm(CELL_BYTES)),
            Instruction::Op2(Mnemonic::Mov, Operand::Reg(Reg::Rdi), Operand::Addr(Symbol::InputFormat)),
            Instruction::Op2(Mnemonic::Mov, Operand::Reg(Reg::Esi), Operand::Reg(Reg::Ebx)),
            Instruction::Op2(Mnemonic::Xor, Operand::Reg(Reg::Eax), Operand::Reg(Reg::Eax)),
            Instruction::Op1(Mnemonic::Call, Operand::Addr(Symbol::Scanf)),
        ],
    );
    text.append(&mut leave_c_x());
    text.append(
        &mut vec![
            Instruction::Label(Symbol::Exit),
            Instruction::Op2(Mnemonic::And, Operand::Reg(Reg::Rsp), Operand::Imm(ALIGN_16)),
            Instruction::Op1(Mnemonic::Call, Operand::Addr(Symbol::LibcExit)),
        ],
    );
    assert(rodata@ =~= runtime_rodata());
    assert(bss@ =~= runtime_bss());
    assert(text@ =~= runtime_text());
    Asm::new(rodata, bss, text, Vec::new())
}

} // verus!
