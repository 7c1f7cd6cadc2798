//! What holds of all generated code, checked on a collection of programs.

use std::collections::HashSet;
use tcc::codegen::reg::Reg;
use tcc::codegen::{generate_x86_code, Location, X86Instr};
use tcc::driver::{compile, compile_to_x86, generate_tac};
use tcc::errors::CompileError;
use tcc::parser::expr_parser::{BinOp, Expr};
use tcc::parser::generate_program_ast;
use tcc::tac::expr::generate_expr_tac;
use tcc::tac::{CodeEnv, Identifier, TacContext, TacInstr, TacVal};
use tcc::tokenizer::get_tokens;
use tcc::types::VarSize;

const PROGRAMS: [&str; 12] = [
    "int main() { return 0; }",
    "int main() { return 2 + 3 * 4; }",
    "int main() { int a = 5; int b = 7; return a < b ? a : b; }",
    "int main() { int x = 0; for (int i = 0; i < 10; i = i + 1) x = x + i; return x; }",
    "int main() { int a = 0; int b = 1; int i = 0; while (i < 6) { int t = a + b; a = b; b = t; i = i + 1; } return a; }",
    "int main() { int i = 3; return (i++) + (++i); }",
    "int main() { return (0 && (1/0)) == 0; }",
    "int main() { int a = 1; int b = 2; int c = 3; return (a && b || c) + (a || b && c) + !(a && !b); }",
    "int main() { int s = 0; for (int i = 0; i < 4; i++) { for (int j = 0; j < 4; j++) { if (i == j) continue; if (i + j > 5) break; s += i ? j : -j; } } return s; }",
    "int main() { int a = 1; if (a) { int a = 2; while (a) { a--; if (a == 0) break; else continue; } } else if (a == 1) a = 3; else a = 4; return a ? a ? 1 : 2 : a ? 3 : 4; }",
    "int main() { int n = 10; int r = f(n, n + 1, g(), n && h(n)); return r; }",
    "int main() { for (;;) { for (;;) break; break; } while (1) { while (0) ; break; } }",
];

fn tac_of(source: &str) -> Vec<TacInstr> {
    let tokens = get_tokens(source.to_string()).expect("the text has tokens");
    let program = generate_program_ast(tokens).expect("the tokens are a program");
    generate_tac(&program).expect("the program has a meaning")
}

fn label_of(i: &TacInstr) -> Option<&String> {
    match i {
        TacInstr::Label(l) => Some(l),
        _ => None,
    }
}

fn target_of(i: &TacInstr) -> Option<&String> {
    match i {
        TacInstr::Jmp(l) => Some(l),
        TacInstr::JmpZero(l, _) => Some(l),
        TacInstr::JmpNotZero(l, _) => Some(l),
        _ => None,
    }
}

#[test]
fn every_read_follows_a_write() {
    for source in PROGRAMS {
        let tac = tac_of(source);
        let mut written: HashSet<Identifier> = HashSet::new();
        for instr in &tac {
            for id in instr.get_read_identifiers() {
                assert!(written.contains(&id), "{:?} is read too early in {}", id, source);
            }
            if let Some(id) = instr.get_written_identifier() {
                written.insert(id);
            }
        }
        assert!(generate_x86_code(&tac).is_ok());
    }
}

#[test]
fn a_variable_may_be_read_before_it_is_assigned() {
    // the one way to break single assignment: a variable without a value
    let tac = tac_of("int main() { int a; return a; }");
    let a = Identifier(0, VarSize::Dword);
    assert_eq!(tac[0], TacInstr::Exit(TacVal::Var(a)));
    assert_eq!(generate_x86_code(&tac), Err(CompileError::ReadBeforeWrite(a)));
    let tac = tac_of("int main() { int a = a + 1; return a; }");
    assert_eq!(generate_x86_code(&tac), Err(CompileError::ReadBeforeWrite(a)));
    // an assignment anywhere earlier in the text is enough
    let tac = tac_of("int main() { int a; if (0) a = 1; return a; }");
    assert!(generate_x86_code(&tac).is_ok());
}

#[test]
fn every_label_is_defined_once() {
    for source in PROGRAMS {
        let tac = tac_of(source);
        let mut seen: HashSet<&String> = HashSet::new();
        for instr in &tac {
            if let Some(l) = label_of(instr) {
                assert!(seen.insert(l), "{} is defined twice in {}", l, source);
            }
        }
    }
}

#[test]
fn every_jump_has_a_label_to_go_to() {
    for source in PROGRAMS {
        let tac = tac_of(source);
        let defined: HashSet<&String> = tac.iter().filter_map(label_of).collect();
        let mut jumps = 0;
        for instr in &tac {
            if let Some(l) = target_of(instr) {
                assert!(defined.contains(l), "{} is not defined in {}", l, source);
                jumps += 1;
            }
        }
        if source.contains("while") || source.contains("for") {
            assert!(jumps > 0);
        }
    }
}

#[test]
fn the_body_keeps_the_frame() {
    for source in PROGRAMS {
        let (_, code) = compile_to_x86(source.to_string()).expect("the program compiles");
        assert!(code.len() >= 5);
        assert_eq!(code[0], X86Instr::Push { reg: Reg::Rbp });
        assert_eq!(
            code[1],
            X86Instr::Mov { dst: Location::Reg(Reg::Rbp), src: Location::Reg(Reg::Rsp) }
        );
        assert!(matches!(code[2], X86Instr::SubImm { dst: Reg::Rsp, .. }));
        assert_eq!(
            code[code.len() - 2],
            X86Instr::Mov { dst: Location::Reg(Reg::Rsp), src: Location::Reg(Reg::Rbp) }
        );
        assert_eq!(code[code.len() - 1], X86Instr::Pop { reg: Reg::Rbp });
        for instr in &code[3..code.len() - 2] {
            let frame = |r: &Reg| *r == Reg::Rbp || *r == Reg::Rsp;
            let frame_location = |l: &Location| match l {
                Location::Reg(r) => frame(r),
                Location::Mem(_) => false,
            };
            let moved = match instr {
                X86Instr::Push { .. } | X86Instr::Pop { .. } => true,
                X86Instr::Mov { dst, .. } | X86Instr::MovImm { dst, .. } => frame_location(dst),
                X86Instr::Add { dst, .. }
                | X86Instr::Sub { dst, .. }
                | X86Instr::IMul { dst, .. }
                | X86Instr::SubImm { dst, .. }
                | X86Instr::SetCC { dst, .. }
                | X86Instr::Not { dst }
                | X86Instr::Neg { dst } => frame(dst),
                _ => false,
            };
            assert!(!moved, "{:?} moves the frame in {}", instr, source);
        }
    }
}

#[test]
fn the_frame_holds_four_bytes_for_each_temporary() {
    for source in PROGRAMS {
        let tac = tac_of(source);
        let written: HashSet<Identifier> =
            tac.iter().filter_map(|i| i.get_written_identifier()).collect();
        let code = generate_x86_code(&tac).expect("the program has an expansion");
        assert_eq!(code[2], X86Instr::SubImm { dst: Reg::Rsp, imm: 4 * written.len() as i32 });
    }
}

#[test]
fn the_jump_of_a_logical_operator_lands_behind_the_right_operand() {
    let mut env = CodeEnv::new();
    let a = Identifier(100, VarSize::Dword);
    env.bind("a".to_string(), a);
    let right = Expr::BinOp(
        BinOp::Divide,
        Box::new(Expr::IntLiteral(1)),
        Box::new(Expr::Var("a".to_string())),
    );
    for op in [BinOp::LogicalAnd, BinOp::LogicalOr] {
        let mut ctx = TacContext::new();
        let whole = Expr::BinOp(
            op,
            Box::new(Expr::Var("a".to_string())),
            Box::new(Expr::BinOp(
                BinOp::Divide,
                Box::new(Expr::IntLiteral(1)),
                Box::new(Expr::Var("a".to_string())),
            )),
        );
        let (code, _) = generate_expr_tac(&whole, &env, None, None, &mut ctx).expect("a is declared");
        let (right_code, _) =
            generate_expr_tac(&right, &env, None, None, &mut TacContext { next_temp: 1, next_label: 1 })
                .expect("a is declared");
        // the left operand is a variable and has no code: the jump comes first
        let target = target_of(&code[0]).expect("the first instruction is the jump");
        match (&code[0], op) {
            (TacInstr::JmpZero(_, v), BinOp::LogicalAnd) => assert_eq!(*v, TacVal::Var(a)),
            (TacInstr::JmpNotZero(_, v), BinOp::LogicalOr) => assert_eq!(*v, TacVal::Var(a)),
            _ => panic!("the wrong kind of jump"),
        }
        assert_eq!(code[1..1 + right_code.len()], right_code[..]);
        let landing = code.iter().position(|i| label_of(i) == Some(target)).expect("the label is defined");
        assert_eq!(landing, right_code.len() + 3);
        assert_eq!(code.len(), landing + 3);
        // from the landing on, no jump goes back
        assert!(matches!(code[landing + 1], TacInstr::Copy(..)));
        assert!(matches!(code[landing + 2], TacInstr::Label(..)));
    }
}

#[test]
fn the_same_source_gives_the_same_text() {
    for source in PROGRAMS {
        let first = compile(source.to_string());
        let second = compile(source.to_string());
        assert!(first.is_ok());
        assert_eq!(first, second);
    }
    let first = compile("int main() { return a; }".to_string());
    assert_eq!(first, Err(CompileError::UndeclaredVariable("a".to_string())));
    assert_eq!(first, compile("int main() { return a; }".to_string()));
}

#[test]
fn text_of_a_whole_program() {
    assert_eq!(
        compile("int main() { int a = 2; return a + 1; }".to_string()),
        Ok(".intel_syntax noprefix\n\
            .globl main\n\
            main:\n\
            \x20   push rbp\n\
            \x20   mov rbp, rsp\n\
            \x20   sub rsp, 8\n\
            \x20   mov edi, 2\n\
            \x20   mov DWORD PTR [rbp - 4], edi\n\
            \x20   mov edi, DWORD PTR [rbp - 4]\n\
            \x20   mov esi, 1\n\
            \x20   add edi, esi\n\
            \x20   mov DWORD PTR [rbp - 8], edi\n\
            \x20   mov edi, DWORD PTR [rbp - 8]\n\
            \x20   mov eax, 60\n\
            \x20   syscall\n\
            \x20   mov edi, 0\n\
            \x20   mov eax, 60\n\
            \x20   syscall\n\
            \x20   mov rsp, rbp\n\
            \x20   pop rbp\n"
            .to_string())
    );
}

#[test]
fn the_function_gives_the_entry_point_its_name() {
    let (name, _) = compile_to_x86("int start() { return 1; }".to_string()).expect("the program compiles");
    assert_eq!(name, "start");
    let text = compile("int start() { return 1; }".to_string()).expect("the program compiles");
    assert!(text.starts_with(".intel_syntax noprefix\n.globl start\nstart:\n"));
}

#[test]
fn the_first_stage_that_fails_gives_the_error() {
    assert_eq!(compile("int main() { return a $ }".to_string()), Err(CompileError::UnrecognizedChar('$')));
    assert_eq!(compile("int main() { return a }".to_string()), Err(CompileError::UnexpectedToken(7)));
    assert_eq!(
        compile("int main() { return a; }".to_string()),
        Err(CompileError::UndeclaredVariable("a".to_string()))
    );
    assert_eq!(
        compile("int main() { int a; return a; }".to_string()),
        Err(CompileError::ReadBeforeWrite(Identifier(0, VarSize::Dword)))
    );
}
