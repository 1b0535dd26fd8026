use plc::{
    make_std_lib, parse, translate, Asm, Ast, CompilerError, Instruction, LabelGenerator,
    Mnemonic, Operand, Reg, Section, Symbol, Term,
};

fn translate_source(source: &str) -> Result<Asm, CompilerError> {
    translate(&parse(source).unwrap())
}

#[test]
fn unbound_identifier_is_an_error() {
    match translate_source("foo .") {
        Err(CompilerError::UnboundIdentifier { identifier }) => assert_eq!(identifier, "foo"),
        _ => panic!("expected an unbound identifier"),
    }
}

#[test]
fn put_before_its_bind_is_an_error() {
    match translate_source("[ foo ] :foo") {
        Err(CompilerError::UnboundIdentifier { identifier }) => assert_eq!(identifier, "foo"),
        _ => panic!("expected an unbound identifier"),
    }
}

#[test]
fn first_unbound_identifier_is_reported() {
    match translate_source("1 :a a x y") {
        Err(CompilerError::UnboundIdentifier { identifier }) => assert_eq!(identifier, "x"),
        _ => panic!("expected an unbound identifier"),
    }
}

#[test]
fn bound_identifier_translates() {
    assert!(translate_source("42 :foo foo .").is_ok());
    assert!(translate_source("[ 1 :inner ] ! inner .").is_ok());
}

#[test]
fn list_body_goes_out_of_line() {
    let prog = translate_source("[ 1 ]").unwrap();
    let label = Symbol::Generated(1);
    assert!(prog.text.contains(&Instruction::Op2(
        Mnemonic::Mov,
        Operand::Mem(Reg::Ebx, 0),
        Operand::Addr(label)
    )));
    assert_eq!(prog.text_tail[0], Instruction::Label(label));
    assert_eq!(prog.text_tail.last(), Some(&Instruction::Op0(Mnemonic::Ret)));
    assert!(!prog.text.contains(&Instruction::Label(label)));
}

#[test]
fn labels_are_not_reused() {
    let prog = translate_source("take [ take [ 1 :x ] ] :y take").unwrap();
    let mut labels: Vec<Symbol> = prog
        .text
        .iter()
        .chain(prog.text_tail.iter())
        .chain(prog.bss.iter())
        .filter_map(|i| match i {
            Instruction::Label(s @ Symbol::Generated(_)) => Some(*s),
            _ => None,
        })
        .collect();
    let n = labels.len();
    assert_eq!(n, 10);
    labels.sort_by_key(|s| match s {
        Symbol::Generated(k) => *k,
        _ => 0,
    });
    labels.dedup();
    assert_eq!(labels.len(), n);
}

#[test]
fn each_identifier_gets_one_cell() {
    let prog = translate_source("1 :x 2 :x 3 :y").unwrap();
    let cells = prog
        .bss
        .iter()
        .filter(|i| matches!(i, Instruction::Op1(Mnemonic::Resd, Operand::Imm(1))))
        .count();
    assert_eq!(cells, 3);
}

#[test]
fn empty_program_is_prelude_and_exit() {
    let prog = translate(&Ast::from_terms(vec![])).unwrap();
    assert_eq!(prog.rodata, vec![Instruction::Section(Section::Rodata)]);
    assert_eq!(
        prog.text.last(),
        Some(&Instruction::Op1(Mnemonic::Call, Operand::Addr(Symbol::Exit)))
    );
    assert!(prog.text_tail.is_empty());
}

#[test]
fn label_generator_counts_up() {
    let mut labels = LabelGenerator::default();
    assert_eq!(labels.get_nameless_label(), Symbol::Generated(1));
    assert_eq!(labels.get_nameless_label(), Symbol::Generated(2));
    assert_eq!(labels.get_nameless_label(), Symbol::Generated(3));
}

#[test]
fn label_demand_counts_labels() {
    assert_eq!(parse("1 2 +").unwrap().label_demand(), 0);
    assert_eq!(parse("take").unwrap().label_demand(), 2);
    assert_eq!(parse("[ take :x ]").unwrap().label_demand(), 4);
}

#[test]
fn segments_are_kept_apart() {
    let a = Asm::empty()
        .rodata(vec![Instruction::Section(Section::Rodata)])
        .bss(vec![Instruction::Section(Section::Bss)])
        .text(vec![Instruction::Op0(Mnemonic::Ret)])
        .text_tail(vec![Instruction::Label(Symbol::Start)]);
    let b = Asm::new(
        vec![Instruction::Label(Symbol::OutputFormat)],
        vec![],
        vec![Instruction::Op0(Mnemonic::Cdq)],
        vec![],
    );
    let c = a.append(b);
    assert_eq!(
        c.rodata,
        vec![Instruction::Section(Section::Rodata), Instruction::Label(Symbol::OutputFormat)]
    );
    assert_eq!(c.bss, vec![Instruction::Section(Section::Bss)]);
    assert_eq!(c.text, vec![Instruction::Op0(Mnemonic::Ret), Instruction::Op0(Mnemonic::Cdq)]);
    assert_eq!(c.text_tail, vec![Instruction::Label(Symbol::Start)]);
}

#[test]
fn assembly_text_layout() {
    let a = Asm::new(
        vec![Instruction::Section(Section::Rodata)],
        vec![Instruction::Label(Symbol::Generated(12)), Instruction::Op1(Mnemonic::Resd, Operand::Imm(1))],
        vec![
            Instruction::Op2(Mnemonic::Mov, Operand::Reg(Reg::Eax), Operand::Imm(-5)),
            Instruction::Op2(Mnemonic::Mov, Operand::Mem(Reg::Ebx, 4), Operand::Dword(7)),
            Instruction::Op2(
                Mnemonic::Mov,
                Operand::MemIndexed(Reg::Ebx, Reg::Ecx, -4),
                Operand::Reg(Reg::Esi),
            ),
            Instruction::Op2(Mnemonic::Mov, Operand::MemSymbol(Symbol::OpStackBase), Operand::Reg(Reg::Ebx)),
            Instruction::Op0(Mnemonic::Ret),
        ],
        vec![],
    );
    assert_eq!(
        a.into_assembly(),
        "\tsection .rodata \n\t$lb12: \n\tresd 1\n\tmov eax, -5\n\tmov dword [ebx+4], dword 7\n\tmov dword [ebx+ecx*4-4], esi\n\tmov dword [op_stack_base], ebx\n\tret \n"
    );
}

#[test]
fn runtime_library_text() {
    let text = make_std_lib().into_assembly();
    assert!(text.contains("\tdb `%d`, 10, 0\n"));
    assert!(text.contains("\tcall printf\n"));
    assert!(text.contains("\tglobal $std_print\n"));
}

#[test]
fn program_text_order() {
    let text = translate_source("[ 1 . ] ! 2 .").unwrap().into_assembly();
    let rodata = text.find("section .rodata").unwrap();
    let bss = text.find("section .bss").unwrap();
    let code = text.find("section .text").unwrap();
    let exit = text.find("call $std_exit").unwrap();
    let body = text.find("$lb1: ").unwrap();
    assert!(rodata < bss && bss < code && code < exit && exit < body);
}

#[test]
fn list_of_terms_in_text() {
    let text = translate_source("-3").unwrap().into_assembly();
    assert!(text.contains("\tsub ebx, 4\n\tmov dword [ebx], dword -3\n"));
}
