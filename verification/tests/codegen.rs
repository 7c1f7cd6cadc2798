//! Slots for temporaries and the expansion into machine instructions.

use tcc::codegen::asm_gen::{generate_asm, put_instr};
use tcc::codegen::binop::{comparison_condition, gen_binop_code};
use tcc::codegen::functions::generate_function_call_code;
use tcc::codegen::reg::{argument_register, Reg};
use tcc::codegen::unop::gen_unop_code;
use tcc::codegen::{
    gen_load_val_code, gen_store_code, gen_x86_for_tac, generate_x86_code, push_instr, CCode,
    Location, RegisterAllocator, X86Instr,
};
use tcc::errors::CompileError;
use tcc::parser::expr_parser::{BinOp, UnOp};
use tcc::tac::{Identifier, TacInstr, TacVal};
use tcc::types::VarSize;

fn t(n: u64) -> Identifier {
    Identifier(n, VarSize::Dword)
}

fn lit(v: i64) -> TacVal {
    TacVal::Lit(v, VarSize::Dword)
}

fn reg(r: Reg) -> Location {
    Location::Reg(r)
}

fn prologue(bytes: i32) -> Vec<X86Instr> {
    vec![
        X86Instr::Push { reg: Reg::Rbp },
        X86Instr::Mov { dst: reg(Reg::Rbp), src: reg(Reg::Rsp) },
        X86Instr::SubImm { dst: Reg::Rsp, imm: bytes },
    ]
}

fn epilogue() -> Vec<X86Instr> {
    vec![
        X86Instr::Mov { dst: reg(Reg::Rsp), src: reg(Reg::Rbp) },
        X86Instr::Pop { reg: Reg::Rbp },
    ]
}

/// The instructions between prologue and epilogue for a program that
/// first writes the temporaries 0, 1 and 2 and then runs `instr`.
fn body_after_three_writes(instr: TacInstr) -> Vec<X86Instr> {
    let tac = vec![
        TacInstr::Copy(t(0), lit(0)),
        TacInstr::Copy(t(1), lit(0)),
        TacInstr::Copy(t(2), lit(0)),
        instr,
    ];
    let code = generate_x86_code(&tac).expect("the program has an expansion");
    assert_eq!(code[..3], prologue(12)[..]);
    assert_eq!(code[code.len() - 2..], epilogue()[..]);
    code.into_iter().skip(9).take_while(|i| *i != X86Instr::Mov { dst: reg(Reg::Rsp), src: reg(Reg::Rbp) }).collect()
}

fn load(r: Reg, slot: usize) -> X86Instr {
    X86Instr::Mov { dst: reg(r), src: Location::Mem(slot) }
}

fn store(slot: usize, r: Reg) -> X86Instr {
    X86Instr::Mov { dst: Location::Mem(slot), src: reg(r) }
}

fn imm(r: Reg, v: i64) -> X86Instr {
    X86Instr::MovImm { dst: reg(r), imm: v }
}

#[test]
fn condition_suffixes() {
    assert_eq!(CCode::E.to_suffix(), "e");
    assert_eq!(CCode::NE.to_suffix(), "ne");
    assert_eq!(CCode::L.to_suffix(), "l");
    assert_eq!(CCode::LE.to_suffix(), "le");
    assert_eq!(CCode::G.to_suffix(), "g");
    assert_eq!(CCode::GE.to_suffix(), "ge");
}

#[test]
fn conditions_of_comparisons() {
    assert_eq!(comparison_condition(BinOp::Equals), CCode::E);
    assert_eq!(comparison_condition(BinOp::NotEquals), CCode::NE);
    assert_eq!(comparison_condition(BinOp::LessThan), CCode::L);
    assert_eq!(comparison_condition(BinOp::LessThanEq), CCode::LE);
    assert_eq!(comparison_condition(BinOp::GreaterThan), CCode::G);
    assert_eq!(comparison_condition(BinOp::GreaterThanEq), CCode::GE);
}

#[test]
fn argument_registers_in_order() {
    let expected = [Reg::Rdi, Reg::Rsi, Reg::Rdx, Reg::Rcx, Reg::R8, Reg::R9];
    for (i, r) in expected.iter().enumerate() {
        assert_eq!(argument_register(i), *r);
    }
}

#[test]
fn slots_follow_first_writes() {
    let a = Identifier(7, VarSize::Quad);
    let b = Identifier(3, VarSize::Byte);
    let c = Identifier(7, VarSize::Byte);
    let tac = vec![
        TacInstr::Copy(a, lit(1)),
        TacInstr::Copy(b, TacVal::Var(a)),
        TacInstr::BinOp(a, TacVal::Var(a), TacVal::Var(b), BinOp::Plus),
        TacInstr::Label("l".to_string()),
        TacInstr::Call("f".to_string(), vec![TacVal::Var(b)], Some(c)),
        TacInstr::Copy(b, TacVal::Var(c)),
    ];
    let (alloc, bytes) = RegisterAllocator::new(&tac).expect("every read follows a write");
    assert_eq!(bytes, 12);
    assert_eq!(alloc.get_location(a), Location::Mem(4));
    assert_eq!(alloc.get_location(b), Location::Mem(8));
    assert_eq!(alloc.get_location(c), Location::Mem(12));
}

#[test]
fn a_program_without_temporaries_needs_no_frame() {
    let (_, bytes) = RegisterAllocator::new(&vec![TacInstr::Exit(lit(0))]).expect("nothing is read");
    assert_eq!(bytes, 0);
    let (_, bytes) = RegisterAllocator::new(&vec![]).expect("nothing is read");
    assert_eq!(bytes, 0);
}

#[test]
fn a_read_before_any_write_is_an_error() {
    let tac = vec![TacInstr::Copy(t(0), lit(1)), TacInstr::Exit(TacVal::Var(t(1)))];
    assert_eq!(RegisterAllocator::new(&tac).err(), Some(CompileError::ReadBeforeWrite(t(1))));
    assert_eq!(generate_x86_code(&tac), Err(CompileError::ReadBeforeWrite(t(1))));
    // an instruction may not read what it is the first to write
    let tac = vec![TacInstr::BinOp(t(0), TacVal::Var(t(0)), lit(1), BinOp::Plus)];
    assert_eq!(generate_x86_code(&tac), Err(CompileError::ReadBeforeWrite(t(0))));
    // a write later in the program does not help
    let tac = vec![TacInstr::Exit(TacVal::Var(t(0))), TacInstr::Copy(t(0), lit(1))];
    assert_eq!(generate_x86_code(&tac), Err(CompileError::ReadBeforeWrite(t(0))));
    // temporaries of different widths are different temporaries
    let tac = vec![
        TacInstr::Copy(Identifier(0, VarSize::Quad), lit(1)),
        TacInstr::Exit(TacVal::Var(Identifier(0, VarSize::Dword))),
    ];
    assert_eq!(
        generate_x86_code(&tac),
        Err(CompileError::ReadBeforeWrite(Identifier(0, VarSize::Dword)))
    );
}

#[test]
fn the_first_early_read_is_reported() {
    let tac = vec![
        TacInstr::BinOp(t(0), TacVal::Var(t(5)), TacVal::Var(t(6)), BinOp::Plus),
        TacInstr::Exit(TacVal::Var(t(7))),
    ];
    assert_eq!(generate_x86_code(&tac), Err(CompileError::ReadBeforeWrite(t(5))));
    let tac = vec![
        TacInstr::Copy(t(1), lit(0)),
        TacInstr::Call("f".to_string(), vec![TacVal::Var(t(1)), lit(2), TacVal::Var(t(9)), TacVal::Var(t(8))], None),
    ];
    assert_eq!(generate_x86_code(&tac), Err(CompileError::ReadBeforeWrite(t(9))));
    let tac = vec![TacInstr::DerefStore(t(3), TacVal::Var(t(4)))];
    assert_eq!(generate_x86_code(&tac), Err(CompileError::ReadBeforeWrite(t(3))));
}

#[test]
fn an_early_read_is_reported_before_a_missing_expansion() {
    let tac = vec![
        TacInstr::Copy(t(0), lit(0)),
        TacInstr::DerefStore(t(0), lit(1)),
        TacInstr::Exit(TacVal::Var(t(1))),
    ];
    assert_eq!(generate_x86_code(&tac), Err(CompileError::ReadBeforeWrite(t(1))));
}

#[test]
fn code_of_the_smallest_program() {
    let tac = vec![TacInstr::Copy(t(0), lit(5)), TacInstr::Exit(TacVal::Var(t(0)))];
    let mut expected = prologue(4);
    expected.extend(vec![
        imm(Reg::Rdi, 5),
        store(4, Reg::Rdi),
        load(Reg::Rdi, 4),
        imm(Reg::Rax, 60),
        X86Instr::Syscall,
    ]);
    expected.extend(epilogue());
    assert_eq!(generate_x86_code(&tac), Ok(expected));
}

#[test]
fn code_of_the_empty_program() {
    let mut expected = prologue(0);
    expected.extend(epilogue());
    assert_eq!(generate_x86_code(&vec![]), Ok(expected));
}

#[test]
fn exit_of_a_constant() {
    assert_eq!(
        body_after_three_writes(TacInstr::Exit(lit(7))),
        vec![imm(Reg::Rdi, 7), imm(Reg::Rax, 60), X86Instr::Syscall]
    );
}

#[test]
fn addition_subtraction_multiplication() {
    let cases = [
        (BinOp::Plus, X86Instr::Add { dst: Reg::Rdi, src: Reg::Rsi }),
        (BinOp::Minus, X86Instr::Sub { dst: Reg::Rdi, src: Reg::Rsi }),
        (BinOp::Multiply, X86Instr::IMul { dst: Reg::Rdi, src: Reg::Rsi }),
    ];
    for (op, instr) in cases {
        assert_eq!(
            body_after_three_writes(TacInstr::BinOp(t(2), TacVal::Var(t(0)), TacVal::Var(t(1)), op)),
            vec![load(Reg::Rdi, 4), load(Reg::Rsi, 8), instr, store(12, Reg::Rdi)]
        );
    }
}

#[test]
fn division_and_remainder() {
    assert_eq!(
        body_after_three_writes(TacInstr::BinOp(t(2), TacVal::Var(t(0)), lit(3), BinOp::Divide)),
        vec![
            load(Reg::Rax, 4),
            X86Instr::Cdq,
            imm(Reg::Rdi, 3),
            X86Instr::Idiv { src: Reg::Rdi },
            store(12, Reg::Rax),
        ]
    );
    assert_eq!(
        body_after_three_writes(TacInstr::BinOp(t(0), lit(9), TacVal::Var(t(1)), BinOp::Modulus)),
        vec![
            imm(Reg::Rax, 9),
            X86Instr::Cdq,
            load(Reg::Rdi, 8),
            X86Instr::Idiv { src: Reg::Rdi },
            store(4, Reg::Rdx),
        ]
    );
}

#[test]
fn comparisons_set_a_byte() {
    let cases = [
        (BinOp::Equals, CCode::E),
        (BinOp::NotEquals, CCode::NE),
        (BinOp::LessThan, CCode::L),
        (BinOp::LessThanEq, CCode::LE),
        (BinOp::GreaterThan, CCode::G),
        (BinOp::GreaterThanEq, CCode::GE),
    ];
    for (op, condition) in cases {
        assert_eq!(
            body_after_three_writes(TacInstr::BinOp(t(2), TacVal::Var(t(1)), lit(4), op)),
            vec![
                load(Reg::Rdi, 8),
                imm(Reg::Rsi, 4),
                X86Instr::Cmp { left: Reg::Rdi, right: Reg::Rsi },
                imm(Reg::Rdi, 0),
                X86Instr::SetCC { dst: Reg::Rdi, condition },
                store(12, Reg::Rdi),
            ]
        );
    }
}

#[test]
fn logical_operators_have_no_expansion() {
    for op in [BinOp::LogicalAnd, BinOp::LogicalOr] {
        let tac = vec![TacInstr::BinOp(t(0), lit(1), lit(2), op)];
        assert_eq!(generate_x86_code(&tac), Err(CompileError::UnsupportedInstruction));
    }
}

#[test]
fn a_store_through_a_pointer_has_no_expansion() {
    let tac = vec![TacInstr::Copy(t(0), lit(0)), TacInstr::DerefStore(t(0), lit(1))];
    assert_eq!(generate_x86_code(&tac), Err(CompileError::UnsupportedInstruction));
}

#[test]
fn unary_operations() {
    assert_eq!(
        body_after_three_writes(TacInstr::UnOp(t(1), TacVal::Var(t(0)), UnOp::Negation)),
        vec![load(Reg::Rdi, 4), X86Instr::Neg { dst: Reg::Rdi }, store(8, Reg::Rdi)]
    );
    assert_eq!(
        body_after_three_writes(TacInstr::UnOp(t(1), lit(6), UnOp::BitwiseComplement)),
        vec![imm(Reg::Rdi, 6), X86Instr::Not { dst: Reg::Rdi }, store(8, Reg::Rdi)]
    );
    assert_eq!(
        body_after_three_writes(TacInstr::UnOp(t(2), TacVal::Var(t(2)), UnOp::LogicalNot)),
        vec![
            load(Reg::Rdi, 12),
            X86Instr::Test { src: Reg::Rdi },
            imm(Reg::Rdi, 0),
            X86Instr::SetCC { dst: Reg::Rdi, condition: CCode::E },
            store(12, Reg::Rdi),
        ]
    );
}

#[test]
fn labels_and_jumps() {
    assert_eq!(
        body_after_three_writes(TacInstr::Label("here".to_string())),
        vec![X86Instr::Label { name: "here".to_string() }]
    );
    assert_eq!(
        body_after_three_writes(TacInstr::Jmp("there".to_string())),
        vec![X86Instr::Jmp { label: "there".to_string() }]
    );
    assert_eq!(
        body_after_three_writes(TacInstr::JmpZero("z".to_string(), TacVal::Var(t(1)))),
        vec![
            load(Reg::Rdi, 8),
            X86Instr::Test { src: Reg::Rdi },
            X86Instr::JmpCC { label: "z".to_string(), condition: CCode::E },
        ]
    );
    assert_eq!(
        body_after_three_writes(TacInstr::JmpNotZero("n".to_string(), lit(1))),
        vec![
            imm(Reg::Rdi, 1),
            X86Instr::Test { src: Reg::Rdi },
            X86Instr::JmpCC { label: "n".to_string(), condition: CCode::NE },
        ]
    );
}

#[test]
fn calls_pass_six_arguments_in_registers() {
    assert_eq!(
        body_after_three_writes(TacInstr::Call("f".to_string(), vec![], None)),
        vec![X86Instr::Call { name: "f".to_string() }]
    );
    assert_eq!(
        body_after_three_writes(TacInstr::Call(
            "g".to_string(),
            vec![TacVal::Var(t(1)), lit(2)],
            Some(t(0))
        )),
        vec![
            load(Reg::Rdi, 8),
            imm(Reg::Rsi, 2),
            X86Instr::Call { name: "g".to_string() },
            store(4, Reg::Rax),
        ]
    );
    let eight: Vec<TacVal> = (1..=8).map(lit).collect();
    assert_eq!(
        body_after_three_writes(TacInstr::Call("h".to_string(), eight, Some(t(2)))),
        vec![
            imm(Reg::Rdi, 1),
            imm(Reg::Rsi, 2),
            imm(Reg::Rdx, 3),
            imm(Reg::Rcx, 4),
            imm(Reg::R8, 5),
            imm(Reg::R9, 6),
            X86Instr::Call { name: "h".to_string() },
            store(12, Reg::Rax),
        ]
    );
}

#[test]
fn a_call_may_be_the_first_write_of_its_destination() {
    let tac = vec![TacInstr::Call("f".to_string(), vec![], Some(t(4))), TacInstr::Exit(TacVal::Var(t(4)))];
    let code = generate_x86_code(&tac).expect("the destination is written by the call");
    assert_eq!(code[3], X86Instr::Call { name: "f".to_string() });
    assert_eq!(code[4], store(4, Reg::Rax));
}

#[test]
fn parts_of_the_generator() {
    let tac = vec![TacInstr::Copy(t(0), lit(1)), TacInstr::Copy(t(1), lit(2))];
    let (alloc, _) = RegisterAllocator::new(&tac).expect("nothing is read");
    let mut out = vec![X86Instr::Cdq];
    gen_load_val_code(&mut out, &TacVal::Var(t(1)), Reg::Rcx, &alloc);
    gen_load_val_code(&mut out, &lit(-3), Reg::R8, &alloc);
    gen_store_code(&mut out, t(0), Reg::Rdx, &alloc);
    push_instr(&mut out, X86Instr::Syscall);
    assert_eq!(
        out,
        vec![X86Instr::Cdq, load(Reg::Rcx, 8), imm(Reg::R8, -3), store(4, Reg::Rdx), X86Instr::Syscall]
    );
    let mut out = vec![X86Instr::Cdq];
    assert_eq!(gen_x86_for_tac(&mut out, &TacInstr::Copy(t(1), TacVal::Var(t(0))), &alloc), Ok(()));
    assert_eq!(out, vec![X86Instr::Cdq, load(Reg::Rdi, 4), store(8, Reg::Rdi)]);
    assert_eq!(
        gen_x86_for_tac(&mut out, &TacInstr::DerefStore(t(0), lit(1)), &alloc),
        Err(CompileError::UnsupportedInstruction)
    );
    let mut out = Vec::new();
    assert_eq!(gen_binop_code(&mut out, &t(0), &lit(1), &lit(2), BinOp::Plus, &alloc), Ok(()));
    assert_eq!(out.len(), 4);
    assert_eq!(
        gen_binop_code(&mut out, &t(0), &lit(1), &lit(2), BinOp::LogicalOr, &alloc),
        Err(CompileError::UnsupportedInstruction)
    );
    let mut out = Vec::new();
    gen_unop_code(&mut out, &t(1), &lit(1), UnOp::Negation, &alloc);
    assert_eq!(out, vec![imm(Reg::Rdi, 1), X86Instr::Neg { dst: Reg::Rdi }, store(8, Reg::Rdi)]);
    let mut out = Vec::new();
    generate_function_call_code(&mut out, &"f".to_string(), &vec![lit(1)], None, &alloc);
    assert_eq!(out, vec![imm(Reg::Rdi, 1), X86Instr::Call { name: "f".to_string() }]);
}

#[test]
fn assembly_text_of_each_instruction() {
    let cases: Vec<(X86Instr, &str)> = vec![
        (X86Instr::Push { reg: Reg::Rbp }, "    push rbp\n"),
        (X86Instr::Pop { reg: Reg::Rbp }, "    pop rbp\n"),
        (X86Instr::Mov { dst: reg(Reg::Rbp), src: reg(Reg::Rsp) }, "    mov rbp, rsp\n"),
        (load(Reg::Rdi, 12), "    mov edi, DWORD PTR [rbp - 12]\n"),
        (store(4, Reg::Rax), "    mov DWORD PTR [rbp - 4], eax\n"),
        (imm(Reg::Rax, 60), "    mov eax, 60\n"),
        (imm(Reg::Rdi, -7), "    mov edi, -7\n"),
        (imm(Reg::Rdi, 0), "    mov edi, 0\n"),
        (imm(Reg::Rsi, -2147483648), "    mov esi, -2147483648\n"),
        (imm(Reg::Rsi, 2147483648), "    mov rsi, 2147483648\n"),
        (imm(Reg::R8, i64::MIN), "    mov r8, -9223372036854775808\n"),
        (imm(Reg::R9, i64::MAX), "    mov r9, 9223372036854775807\n"),
        (X86Instr::MovImm { dst: Location::Mem(8), imm: 3 }, "    mov DWORD PTR [rbp - 8], 3\n"),
        (X86Instr::Add { dst: Reg::Rdi, src: Reg::Rsi }, "    add edi, esi\n"),
        (X86Instr::Sub { dst: Reg::Rdx, src: Reg::Rcx }, "    sub edx, ecx\n"),
        (X86Instr::IMul { dst: Reg::R8, src: Reg::R9 }, "    imul r8d, r9d\n"),
        (X86Instr::SubImm { dst: Reg::Rsp, imm: 16 }, "    sub rsp, 16\n"),
        (X86Instr::Cdq, "    cdq\n"),
        (X86Instr::Idiv { src: Reg::Rdi }, "    idiv edi\n"),
        (X86Instr::Label { name: "main".to_string() }, "main:\n"),
        (X86Instr::Jmp { label: "l_1".to_string() }, "    jmp l_1\n"),
        (X86Instr::JmpCC { label: "l".to_string(), condition: CCode::NE }, "    jne l\n"),
        (X86Instr::JmpCC { label: "l".to_string(), condition: CCode::E }, "    je l\n"),
        (X86Instr::SetCC { dst: Reg::Rdi, condition: CCode::LE }, "    setle dil\n"),
        (X86Instr::SetCC { dst: Reg::Rax, condition: CCode::G }, "    setg al\n"),
        (X86Instr::Test { src: Reg::Rdi }, "    test edi, edi\n"),
        (X86Instr::Cmp { left: Reg::Rdi, right: Reg::Rsi }, "    cmp edi, esi\n"),
        (X86Instr::Not { dst: Reg::Rdi }, "    not edi\n"),
        (X86Instr::Neg { dst: Reg::Rdi }, "    neg edi\n"),
        (X86Instr::Call { name: "putchar".to_string() }, "    call putchar\n"),
        (X86Instr::Syscall, "    syscall\n"),
    ];
    for (instr, text) in cases {
        let mut out = "x".to_string();
        put_instr(&mut out, &instr);
        assert_eq!(out, format!("x{}", text));
    }
}

#[test]
fn assembly_text_of_a_function() {
    let code = generate_x86_code(&vec![TacInstr::Exit(lit(0))]).expect("the program has an expansion");
    assert_eq!(
        generate_asm(&"main".to_string(), &code),
        ".intel_syntax noprefix\n.globl main\nmain:\n    push rbp\n    mov rbp, rsp\n    sub rsp, 0\n    mov edi, 0\n    mov eax, 60\n    syscall\n    mov rsp, rbp\n    pop rbp\n"
    );
    assert_eq!(generate_asm(&"f".to_string(), &vec![]), ".intel_syntax noprefix\n.globl f\nf:\n");
}
