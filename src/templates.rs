//! The fixed instruction sequences that terms and programs translate to.
//!
//! Generated code keeps the operand stack in memory: 32-bit cells, growing
//! toward lower addresses, with `ebx` pointing at the top cell. A push moves
//! `ebx` down one cell and then stores; a pop loads and then moves `ebx` up.
use vstd::prelude::*;

use crate::assembly::{Asm, Instruction, Mnemonic, Operand, Reg, Section, Symbol};
use crate::ast::{SpecTerm, Term};

verus! {

/// Bytes in one cell of the operand stack.
pub const CELL_BYTES: i64 = 4;

/// Bytes reserved for the operand stack.
pub const STACK_BYTES: i64 = 4096;

pub open spec fn top() -> Operand {
    Operand::Mem(Reg::Ebx, 0)
}

/// Make room for one cell on the stack.
pub open spec fn grow() -> Instruction {
    Instruction::Op2(Mnemonic::Sub, Operand::Reg(Reg::Ebx), Operand::Imm(CELL_BYTES))
}

/// Drop one cell from the stack.
pub open spec fn shrink() -> Instruction {
    Instruction::Op2(Mnemonic::Add, Operand::Reg(Reg::Ebx), Operand::Imm(CELL_BYTES))
}

/// Load the top cell into `r`.
pub open spec fn load_top(r: Reg) -> Instruction {
    Instruction::Op2(Mnemonic::Mov, Operand::Reg(r), top())
}

/// Store `r` into the top cell.
pub open spec fn store_top(r: Reg) -> Instruction {
    Instruction::Op2(Mnemonic::Mov, top(), Operand::Reg(r))
}

pub open spec fn set(r: Reg, v: i64) -> Instruction {
    Instruction::Op2(Mnemonic::Mov, Operand::Reg(r), Operand::Imm(v))
}

/// Push a value.
pub open spec fn push_code(v: Operand) -> Seq<Instruction> {
    seq![grow(), Instruction::Op2(Mnemonic::Mov, top(), v)]
}

/// Pop the right operand and combine it into the left one, which stays.
pub open spec fn binary_code(m: Mnemonic) -> Seq<Instruction> {
    seq![load_top(Reg::Eax), shrink(), Instruction::Op2(m, top(), Operand::Reg(Reg::Eax))]
}

pub open spec fn mul_code() -> Seq<Instruction> {
    seq![
        load_top(Reg::Eax),
        shrink(),
        Instruction::Op2(Mnemonic::Imul, Operand::Reg(Reg::Eax), top()),
        store_top(Reg::Eax),
    ]
}

/// Signed division, truncating toward zero.
pub open spec fn div_code() -> Seq<Instruction> {
    seq![
        load_top(Reg::Ecx),
        shrink(),
        load_top(Reg::Eax),
        Instruction::Op0(Mnemonic::Cdq),
        Instruction::Op1(Mnemonic::Idiv, Operand::Reg(Reg::Ecx)),
        store_top(Reg::Eax),
    ]
}

/// Pop the right operand `b`, and replace the left one `a` by 1 if the
/// signed comparison of `a` with `b` selects `cmov`, else by 0.
pub open spec fn compare_code(cmov: Mnemonic) -> Seq<Instruction> {
    seq![
        load_top(Reg::Eax),
        shrink(),
        set(Reg::Ecx, 0),
        set(Reg::Edx, 1),
        Instruction::Op2(Mnemonic::Cmp, top(), Operand::Reg(Reg::Eax)),
        Instruction::Op2(cmov, Operand::Reg(Reg::Ecx), Operand::Reg(Reg::Edx)),
        store_top(Reg::Ecx),
    ]
}

/// Replace the top cell by 1 if `cmov` selects on its comparison with zero,
/// else by 0.
pub open spec fn test_code(cmov: Mnemonic) -> Seq<Instruction> {
    seq![
        set(Reg::Eax, 0),
        set(Reg::Ecx, 1),
        Instruction::Op2(Mnemonic::Cmp, top(), Operand::Dword(0)),
        Instruction::Op2(cmov, Operand::Reg(Reg::Eax), Operand::Reg(Reg::Ecx)),
        store_top(Reg::Eax),
    ]
}

pub open spec fn dup_code() -> Seq<Instruction> {
    seq![load_top(Reg::Eax), grow(), store_top(Reg::Eax)]
}

/// Pop a code address and call it.
pub open spec fn apply_code() -> Seq<Instruction> {
    seq![
        load_top(Reg::Eax),
        shrink(),
        Instruction::Op1(Mnemonic::Call, Operand::Reg(Reg::Rax)),
    ]
}

/// Pop a condition and an alternate value; when the condition is zero the
/// alternate value replaces the cell below them.
pub open spec fn if_code() -> Seq<Instruction> {
    seq![
        load_top(Reg::Eax),
        Instruction::Op2(Mnemonic::Mov, Operand::Reg(Reg::Ecx), Operand::Mem(Reg::Ebx, CELL_BYTES)),
        Instruction::Op2(Mnemonic::Add, Operand::Reg(Reg::Ebx), Operand::Imm((2 * CELL_BYTES) as i64)),
        load_top(Reg::Edx),
        Instruction::Op2(Mnemonic::Cmp, Operand::Reg(Reg::Eax), Operand::Imm(0)),
        Instruction::Op2(Mnemonic::Cmove, Operand::Reg(Reg::Edx), Operand::Reg(Reg::Ecx)),
        store_top(Reg::Edx),
    ]
}

/// Pop a count `n`; when it is not zero, move the cell `n` places below the
/// new top up to the top by `n` exchanges of neighbouring cells.
pub open spec fn take_code(repeat: Symbol, done: Symbol) -> Seq<Instruction> {
    let here = Operand::MemIndexed(Reg::Ebx, Reg::Ecx, 0);
    let above = Operand::MemIndexed(Reg::Ebx, Reg::Ecx, (-CELL_BYTES) as i64);
    seq![
        load_top(Reg::Ecx),
        shrink(),
        Instruction::Op2(Mnemonic::Cmp, Operand::Reg(Reg::Ecx), Operand::Imm(0)),
        Instruction::Op1(Mnemonic::Jz, Operand::Addr(done)),
        Instruction::Label(repeat),
        Instruction::Op2(Mnemonic::Mov, Operand::Reg(Reg::Eax), here),
        Instruction::Op2(Mnemonic::Mov, Operand::Reg(Reg::Esi), above),
        Instruction::Op2(Mnemonic::Mov, here, Operand::Reg(Reg::Esi)),
        Instruction::Op2(Mnemonic::Mov, above, Operand::Reg(Reg::Eax)),
        Instruction::Op2(Mnemonic::Sub, Operand::Reg(Reg::Ecx), Operand::Imm(1)),
        Instruction::Op1(Mnemonic::Jnz, Operand::Addr(repeat)),
        Instruction::Label(done),
    ]
}

/// Pop the top cell into the cell of an identifier.
pub open spec fn bind_code(cell: Symbol) -> Seq<Instruction> {
    seq![
        load_top(Reg::Eax),
        shrink(),
        Instruction::Op2(Mnemonic::Mov, Operand::MemSymbol(cell), Operand::Reg(Reg::Eax)),
    ]
}

/// Push the value of the cell of an identifier.
pub open spec fn put_code(cell: Symbol) -> Seq<Instruction> {
    seq![
        Instruction::Op2(Mnemonic::Mov, Operand::Reg(Reg::Eax), Operand::MemSymbol(cell)),
        grow(),
        store_top(Reg::Eax),
    ]
}

/// The storage of an identifier.
pub open spec fn cell_code(cell: Symbol) -> Seq<Instruction> {
    seq![Instruction::Label(cell), Instruction::Op1(Mnemonic::Resd, Operand::Imm(1))]
}

/// The template of a term that needs neither labels nor cells.
pub open spec fn fixed_code(t: SpecTerm) -> Seq<Instruction> {
    match t {
        SpecTerm::Int(n) => push_code(Operand::Dword(n as i64)),
        SpecTerm::Add => binary_code(Mnemonic::Add),
        SpecTerm::Sub => binary_code(Mnemonic::Sub),
        SpecTerm::Mul => mul_code(),
        SpecTerm::Div => div_code(),
        SpecTerm::Print => seq![Instruction::Op1(Mnemonic::Call, Operand::Addr(Symbol::Print))],
        SpecTerm::Scan => seq![Instruction::Op1(Mnemonic::Call, Operand::Addr(Symbol::Scan))],
        SpecTerm::Dup => dup_code(),
        SpecTerm::Drop => seq![shrink()],
        SpecTerm::Apply => apply_code(),
        SpecTerm::If => if_code(),
        SpecTerm::Bool => test_code(Mnemonic::Cmovne),
        SpecTerm::Not => test_code(Mnemonic::Cmove),
        SpecTerm::And => binary_code(Mnemonic::And),
        SpecTerm::Or => binary_code(Mnemonic::Or),
        SpecTerm::Equals => compare_code(Mnemonic::Cmove),
        SpecTerm::NotEquals => compare_code(Mnemonic::Cmovne),
        SpecTerm::Less => compare_code(Mnemonic::Cmovl),
        SpecTerm::LessEquals => compare_code(Mnemonic::Cmovle),
        SpecTerm::Greater => compare_code(Mnemonic::Cmovg),
        SpecTerm::GreaterEquals => compare_code(Mnemonic::Cmovge),
        _ => Seq::empty(),
    }
}

/// The read-only data that every program starts with.
pub open spec fn prelude_rodata() -> Seq<Instruction> {
    seq![Instruction::Section(Section::Rodata)]
}

/// The stack's memory and the cell that records where it starts.
pub open spec fn prelude_bss() -> Seq<Instruction> {
    seq![
        Instruction::Section(Section::Bss),
        Instruction::Label(Symbol::OpStackBase),
        Instruction::Op1(Mnemonic::Resd, Operand::Imm(1)),
        Instruction::Label(Symbol::OpStack),
        Instruction::Op1(Mnemonic::Resb, Operand::Imm(STACK_BYTES)),
    ]
}

/// The runtime routines as outside symbols, the entry point, and setting
/// `ebx` one past the end of the stack's memory.
pub open spec fn prelude_text() -> Seq<Instruction> {
    seq![
        Instruction::Op1(Mnemonic::Extern, Operand::Addr(Symbol::Print)),
        Instruction::Op1(Mnemonic::Extern, Operand::Addr(Symbol::Scan)),
        Instruction::Op1(Mnemonic::Extern, Operand::Addr(Symbol::Exit)),
        Instruction::Section(Section::Text),
        Instruction::Op1(Mnemonic::Global, Operand::Addr(Symbol::Start)),
        Instruction::Label(Symbol::Start),
        Instruction::Op2(Mnemonic::Mov, Operand::Reg(Reg::Ebx), Operand::Addr(Symbol::OpStack)),
        Instruction::Op2(Mnemonic::Add, Operand::Reg(Reg::Ebx), Operand::Imm(STACK_BYTES)),
        Instruction::Op2(Mnemonic::Mov, Operand::MemSymbol(Symbol::OpStackBase), Operand::Reg(Reg::Ebx)),
    ]
}

/// Exit with status 0.
pub open spec fn epilogue_text() -> Seq<Instruction> {
    seq![
        Instruction::Op2(Mnemonic::Mov, Operand::Reg(Reg::Rdi), Operand::Imm(0)),
        Instruction::Op1(Mnemonic::Call, Operand::Addr(Symbol::Exit)),
    ]
}

fn grow_x() -> (r: Instruction)
    ensures
        r == grow(),
{
    Instruction::Op2(Mnemonic::Sub, Operand::Reg(Reg::Ebx), Operand::Imm(CELL_BYTES))
}

fn shrink_x() -> (r: Instruction)
    ensures
        r == shrink(),
{
    Instruction::Op2(Mnemonic::Add, Operand::Reg(Reg::Ebx), Operand::Imm(CELL_BYTES))
}

fn top_x() -> (r: Operand)
    ensures
        r == top(),
{
    Operand::Mem(Reg::Ebx, 0)
}

fn load_top_x(reg: Reg) -> (r: Instruction)
    ensures
        r == load_top(reg),
{
    Instruction::Op2(Mnemonic::Mov, Operand::Reg(reg), top_x())
}

fn store_top_x(reg: Reg) -> (r: Instruction)
    ensures
        r == store_top(reg),
{
    Instruction::Op2(Mnemonic::Mov, top_x(), Operand::Reg(reg))
}

fn set_x(reg: Reg, v: i64) -> (r: Instruction)
    ensures
        r == set(reg, v),
{
    Instruction::Op2(Mnemonic::Mov, Operand::Reg(reg), Operand::Imm(v))
}

pub(crate) fn push_instrs(v: Operand) -> (r: Vec<Instruction>)
    ensures
        r@ == push_code(v),
{
    let r = vec![grow_x(), Instruction::Op2(Mnemonic::Mov, top_x(), v)];
    assert(r@ =~= push_code(v));
    r
}

fn binary_instrs(m: Mnemonic) -> (r: Vec<Instruction>)
    ensures
        r@ == binary_code(m),
{
    let r = vec![load_top_x(Reg::Eax), shrink_x(), Instruction::Op2(m, top_x(), Operand::Reg(Reg::Eax))];
    assert(r@ =~= binary_code(m));
    r
}

fn compare_instrs(cmov: Mnemonic) -> (r: Vec<Instruction>)
    ensures
        r@ == compare_code(cmov),
{
    let r = vec![
        load_top_x(Reg::Eax),
        shrink_x(),
        set_x(Reg::Ecx, 0),
        set_x(Reg::Edx, 1),
        Instruction::Op2(Mnemonic::Cmp, top_x(), Operand::Reg(Reg::Eax)),
        Instruction::Op2(cmov, Operand::Reg(Reg::Ecx), Operand::Reg(Reg::Edx)),
        store_top_x(Reg::Ecx),
    ];
    assert(r@ =~= compare_code(cmov));
    r
}

fn test_instrs(cmov: Mnemonic) -> (r: Vec<Instruction>)
    ensures
        r@ == test_code(cmov),
{
    let r = vec![
        set_x(Reg::Eax, 0),
        set_x(Reg::Ecx, 1),
        Instruction::Op2(Mnemonic::Cmp, top_x(), Operand::Dword(0)),
        Instruction::Op2(cmov, Operand::Reg(Reg::Eax), Operand::Reg(Reg::Ecx)),
        store_top_x(Reg::Eax),
    ];
    assert(r@ =~= test_code(cmov));
    r
}

pub(crate) fn take_instrs(repeat: Symbol, done: Symbol) -> (r: Vec<Instruction>)
    ensures
        r@ == take_code(repeat, done),
{
    let here = Operand::MemIndexed(Reg::Ebx, Reg::Ecx, 0);
    let above = Operand::MemIndexed(Reg::Ebx, Reg::Ecx, -CELL_BYTES);
    let r = vec![
        load_top_x(Reg::Ecx),
        shrink_x(),
        Instruction::Op2(Mnemonic::Cmp, Operand::Reg(Reg::Ecx), Operand::Imm(0)),
        Instruction::Op1(Mnemonic::Jz, Operand::Addr(done)),
        Instruction::Label(repeat),
        Instruction::Op2(Mnemonic::Mov, Operand::Reg(Reg::Eax), here),
        Instruction::Op2(Mnemonic::Mov, Operand::Reg(Reg::Esi), above),
        Instruction::Op2(Mnemonic::Mov, here, Operand::Reg(Reg::Esi)),
        Instruction::Op2(Mnemonic::Mov, above, Operand::Reg(Reg::Eax)),
        Instruction::Op2(Mnemonic::Sub, Operand::Reg(Reg::Ecx), Operand::Imm(1)),
        Instruction::Op1(Mnemonic::Jnz, Operand::Addr(repeat)),
        Instruction::Label(done),
    ];
    assert(r@ =~= take_code(repeat, done));
    r
}

pub(crate) fn bind_instrs(cell: Symbol) -> (r: Vec<Instruction>)
    ensures
        r@ == bind_code(cell),
{
    let r = vec![
        load_top_x(Reg::Eax),
        shrink_x(),
        Instruction::Op2(Mnemonic::Mov, Operand::MemSymbol(cell), Operand::Reg(Reg::Eax)),
    ];
    assert(r@ =~= bind_code(cell));
    r
}

pub(crate) fn put_instrs(cell: Symbol) -> (r: Vec<Instruction>)
    ensures
        r@ == put_code(cell),
{
    let r = vec![
        Instruction::Op2(Mnemonic::Mov, Operand::Reg(Reg::Eax), Operand::MemSymbol(cell)),
        grow_x(),
        store_top_x(Reg::Eax),
    ];
    assert(r@ =~= put_code(cell));
    r
}

pub(crate) fn cell_instrs(cell: Symbol) -> (r: Vec<Instruction>)
    ensures
        r@ == cell_code(cell),
{
    let r = vec![Instruction::Label(cell), Instruction::Op1(Mnemonic::Resd, Operand::Imm(1))];
    assert(r@ =~= cell_code(cell));
    r
}

pub(crate) fn fixed_instrs(t: &Term) -> (r: Vec<Instruction>)
    ensures
        r@ == fixed_code(t@),
{
    let r = match t {
        Term::Int(n) => push_instrs(Operand::Dword(*n as i64)),
        Term::Add => binary_instrs(Mnemonic::Add),
        Term::Sub => binary_instrs(Mnemonic::Sub),
        Term::Mul => vec![
            load_top_x(Reg::Eax),
            shrink_x(),
            Instruction::Op2(Mnemonic::Imul, Operand::Reg(Reg::Eax), top_x()),
            store_top_x(Reg::Eax),
        ],
        Term::Div => vec![
            load_top_x(Reg::Ecx),
            shrink_x(),
            load_top_x(Reg::Eax),
            Instruction::Op0(Mnemonic::Cdq),
            Instruction::Op1(Mnemonic::Idiv, Operand::Reg(Reg::Ecx)),
            store_top_x(Reg::Eax),
        ],
        Term::Print => vec![Instruction::Op1(Mnemonic::Call, Operand::Addr(Symbol::Print))],
        Term::Scan => vec![Instruction::Op1(Mnemonic::Call, Operand::Addr(Symbol::Scan))],
        Term::Dup => vec![load_top_x(Reg::Eax), grow_x(), store_top_x(Reg::Eax)],
        Term::Drop => vec![shrink_x()],
        Term::Apply => vec![
            load_top_x(Reg::Eax),
            shrink_x(),
            Instruction::Op1(Mnemonic::Call, Operand::Reg(Reg::Rax)),
        ],
        Term::If => vec![
            load_top_x(Reg::Eax),
            Instruction::Op2(
                Mnemonic::Mov,
                Operand::Reg(Reg::Ecx),
                Operand::Mem(Reg::Ebx, CELL_BYTES),
            ),
            Instruction::Op2(Mnemonic::Add, Operand::Reg(Reg::Ebx), Operand::Imm(2 * CELL_BYTES)),
            load_top_x(Reg::Edx),
            Instruction::Op2(Mnemonic::Cmp, Operand::Reg(Reg::Eax), Operand::Imm(0)),
            Instruction::Op2(Mnemonic::Cmove, Operand::Reg(Reg::Edx), Operand::Reg(Reg::Ecx)),
            store_top_x(Reg::Edx),
        ],
        Term::Bool => test_instrs(Mnemonic::Cmovne),
        Term::Not => test_instrs(Mnemonic::Cmove),
        Term::And => binary_instrs(Mnemonic::And),
        Term::Or => binary_instrs(Mnemonic::Or),
        Term::Equals => compare_instrs(Mnemonic::Cmove),
        Term::NotEquals => compare_instrs(Mnemonic::Cmovne),
        Term::Less => compare_instrs(Mnemonic::Cmovl),
        Term::LessEquals => compare_instrs(Mnemonic::Cmovle),
        Term::Greater => compare_instrs(Mnemonic::Cmovg),
        Term::GreaterEquals => compare_instrs(Mnemonic::Cmovge),
        _ => Vec::new(),
    };
    assert(r@ =~= fixed_code(t@));
    r
}

pub(crate) fn prelude() -> (r: Asm)
    ensures
        r.rodata@ == prelude_rodata(),
        r.bss@ == prelude_bss(),
        r.text@ == prelude_text(),
        r.text_tail@ == Seq::<Instruction>::empty(),
{
    let rodata = vec![Instruction::Section(Section::Rodata)];
    let bss = vec![
        Instruction::Section(Section::Bss),
        Instruction::Label(Symbol::OpStackBase),
        Instruction::Op1(Mnemonic::Resd, Operand::Imm(1)),
        Instruction::Label(Symbol::OpStack),
        Instruction::Op1(Mnemonic::Resb, Operand::Imm(STACK_BYTES)),
    ];
    let text = vec![
        Instruction::Op1(Mnemonic::Extern, Operand::Addr(Symbol::Print)),
        Instruction::Op1(Mnemonic::Extern, Operand::Addr(Symbol::Scan)),
        Instruction::Op1(Mnemonic::Extern, Operand::Addr(Symbol::Exit)),
        Instruction::Section(Section::Text),
        Instruction::Op1(Mnemonic::Global, Operand::Addr(Symbol::Start)),
        Instruction::Label(Symbol::Start),
        Instruction::Op2(Mnemonic::Mov, Operand::Reg(Reg::Ebx), Operand::Addr(Symbol::OpStack)),
        Instruction::Op2(Mnemonic::Add, Operand::Reg(Reg::Ebx), Operand::Imm(STACK_BYTES)),
        Instruction::Op2(Mnemonic::Mov, Operand::MemSymbol(Symbol::OpStackBase), Operand::Reg(Reg::Ebx)),
    ];
    assert(rodata@ =~= prelude_rodata());
    assert(bss@ =~= prelude_bss());
    assert(text@ =~= prelude_text());
    Asm::new(rodata, bss, text, Vec::new())
}

pub(crate) fn epilogue() -> (r: Asm)
    ensures
        r.rodata@ == Seq::<Instruction>::empty(),
        r.bss@ == Seq::<Instruction>::empty(),
        r.text@ == epilogue_text(),
        r.text_tail@ == Seq::<Instruction>::empty(),
{
    let text = vec![
        Instruction::Op2(Mnemonic::Mov, Operand::Reg(Reg::Rdi), Operand::Imm(0)),
        Instruction::Op1(Mnemonic::Call, Operand::Addr(Symbol::Exit)),
    ];
    assert(text@ =~= epilogue_text());
    Asm::empty().text(text)
}

} // verus!
