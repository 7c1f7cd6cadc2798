//! Whole programs: each is compiled to machine instructions, which a small
//! interpreter then runs to find the exit status of the program.

use std::collections::HashMap;
use tcc::codegen::reg::Reg;
use tcc::codegen::{CCode, Location, X86Instr};
use tcc::driver::compile_to_x86;
use tcc::errors::{CompileError, ErrorKind};

fn reg_index(r: Reg) -> usize {
    match r {
        Reg::Rax => 0,
        Reg::Rcx => 1,
        Reg::Rdx => 2,
        Reg::Rsi => 3,
        Reg::Rdi => 4,
        Reg::Rbp => 5,
        Reg::Rsp => 6,
        Reg::R8 => 7,
        Reg::R9 => 8,
    }
}

struct Machine {
    regs: [i64; 9],
    slots: HashMap<usize, i32>,
    stack: Vec<i64>,
    left: i64,
    right: i64,
}

impl Machine {
    fn read(&self, l: Location) -> i64 {
        match l {
            Location::Reg(r) => self.regs[reg_index(r)],
            Location::Mem(offset) => match self.slots.get(&offset) {
                Some(v) => *v as i64,
                None => panic!("read of a slot that was never written: {}", offset),
            },
        }
    }

    fn write(&mut self, l: Location, v: i64) {
        match l {
            Location::Reg(r) => self.regs[reg_index(r)] = v,
            Location::Mem(offset) => {
                self.slots.insert(offset, v as i32);
            }
        }
    }

    fn low(&self, r: Reg) -> i32 {
        self.regs[reg_index(r)] as i32
    }

    fn holds(&self, c: CCode) -> bool {
        match c {
            CCode::E => self.left == self.right,
            CCode::NE => self.left != self.right,
            CCode::L => self.left < self.right,
            CCode::LE => self.left <= self.right,
            CCode::G => self.left > self.right,
            CCode::GE => self.left >= self.right,
        }
    }
}

fn find_label(code: &Vec<X86Instr>, wanted: &String) -> usize {
    let mut found: Option<usize> = None;
    for (i, instr) in code.iter().enumerate() {
        if let X86Instr::Label { name } = instr {
            if name == wanted {
                assert!(found.is_none(), "label {} is defined twice", wanted);
                found = Some(i);
            }
        }
    }
    found.expect("jump to a label that is not defined")
}

/// Runs the instructions and returns the exit status, or `None` if the
/// instructions run out before an exit.
fn execute(code: &Vec<X86Instr>) -> Option<u8> {
    let mut m = Machine { regs: [0; 9], slots: HashMap::new(), stack: Vec::new(), left: 0, right: 0 };
    m.regs[reg_index(Reg::Rsp)] = 1 << 20;
    let mut pc: usize = 0;
    let mut steps: u64 = 0;
    while pc < code.len() {
        steps += 1;
        assert!(steps < 10_000_000, "the program does not end");
        let mut next = pc + 1;
        match &code[pc] {
            X86Instr::Push { reg } => {
                m.stack.push(m.regs[reg_index(*reg)]);
                m.regs[reg_index(Reg::Rsp)] -= 8;
            }
            X86Instr::Pop { reg } => {
                let v = m.stack.pop().expect("pop from an empty stack");
                m.regs[reg_index(*reg)] = v;
                m.regs[reg_index(Reg::Rsp)] += 8;
            }
            X86Instr::Mov { dst, src } => {
                let v = m.read(*src);
                m.write(*dst, v);
            }
            X86Instr::MovImm { dst, imm } => m.write(*dst, *imm as i32 as i64),
            X86Instr::Add { dst, src } => {
                let v = m.low(*dst).wrapping_add(m.low(*src));
                m.regs[reg_index(*dst)] = v as i64;
            }
            X86Instr::Sub { dst, src } => {
                let v = m.low(*dst).wrapping_sub(m.low(*src));
                m.regs[reg_index(*dst)] = v as i64;
            }
            X86Instr::IMul { dst, src } => {
                let v = m.low(*dst).wrapping_mul(m.low(*src));
                m.regs[reg_index(*dst)] = v as i64;
            }
            X86Instr::SubImm { dst, imm } => m.regs[reg_index(*dst)] -= *imm as i64,
            X86Instr::Cdq => {
                m.regs[reg_index(Reg::Rdx)] = if m.low(Reg::Rax) < 0 { -1 } else { 0 };
            }
            X86Instr::Idiv { src } => {
                let divisor = m.low(*src);
                assert!(divisor != 0, "division by zero");
                let dividend = m.low(Reg::Rax);
                m.regs[reg_index(Reg::Rax)] = dividend.wrapping_div(divisor) as i64;
                m.regs[reg_index(Reg::Rdx)] = dividend.wrapping_rem(divisor) as i64;
            }
            X86Instr::Label { .. } => {}
            X86Instr::Jmp { label } => next = find_label(code, label),
            X86Instr::JmpCC { label, condition } => {
                if m.holds(*condition) {
                    next = find_label(code, label);
                }
            }
            X86Instr::SetCC { dst, condition } => {
                let bit = if m.holds(*condition) { 1 } else { 0 };
                let old = m.regs[reg_index(*dst)];
                m.regs[reg_index(*dst)] = (old & !0xff) | bit;
            }
            X86Instr::Test { src } => {
                m.left = m.low(*src) as i64;
                m.right = 0;
            }
            X86Instr::Cmp { left, right } => {
                m.left = m.low(*left) as i64;
                m.right = m.low(*right) as i64;
            }
            X86Instr::Not { dst } => m.regs[reg_index(*dst)] = !m.low(*dst) as i64,
            X86Instr::Neg { dst } => m.regs[reg_index(*dst)] = m.low(*dst).wrapping_neg() as i64,
            X86Instr::Call { name } => panic!("call of {}: no function to call", name),
            X86Instr::Syscall => {
                assert_eq!(m.low(Reg::Rax), 60, "only the exit system call is known");
                return Some((m.low(Reg::Rdi) & 0xff) as u8);
            }
        }
        pc = next;
    }
    None
}

fn run(source: &str) -> u8 {
    let (_, code) = compile_to_x86(source.to_string()).expect("the program compiles");
    execute(&code).expect("the program exits")
}

fn error_of(source: &str) -> CompileError {
    match compile_to_x86(source.to_string()) {
        Ok(_) => panic!("the program compiles"),
        Err(e) => e,
    }
}

#[test]
fn returns_zero() {
    assert_eq!(run("int main() { return 0; }"), 0);
}

#[test]
fn multiplication_binds_tighter_than_addition() {
    assert_eq!(run("int main() { return 2 + 3 * 4; }"), 14);
}

#[test]
fn ternary_picks_the_smaller() {
    assert_eq!(run("int main() { int a = 5; int b = 7; return a < b ? a : b; }"), 5);
}

#[test]
fn for_loop_sums_to_45() {
    assert_eq!(
        run("int main() { int x = 0; for (int i = 0; i < 10; i = i + 1) x = x + i; return x; }"),
        45
    );
}

#[test]
fn while_loop_computes_fibonacci() {
    assert_eq!(
        run(
            "int main() { int a = 0; int b = 1; int i = 0; while (i < 6) { int t = a + b; a = b; b = t; i = i + 1; } return a; }"
        ),
        8
    );
}

#[test]
fn postfix_then_prefix_increment() {
    assert_eq!(run("int main() { int i = 3; return (i++) + (++i); }"), 8);
}

#[test]
fn logical_and_skips_division_by_zero() {
    assert_eq!(run("int main() { return (0 && (1/0)) == 0; }"), 1);
}

#[test]
fn logical_or_skips_division_by_zero() {
    assert_eq!(run("int main() { return (1 || (1/0)) == 1; }"), 1);
}

#[test]
fn logical_operators_give_zero_or_one() {
    assert_eq!(run("int main() { return (5 && 7) + (0 || 9) + (0 && 1) + (0 || 0); }"), 2);
}

#[test]
fn exit_status_is_the_low_byte() {
    assert_eq!(run("int main() { return 256 + 7; }"), 7);
    assert_eq!(run("int main() { return -1; }"), 255);
}

#[test]
fn body_without_return_exits_with_zero() {
    assert_eq!(run("int main() { int a = 3; a = a + 1; }"), 0);
    assert_eq!(run("int main() { }"), 0);
}

#[test]
fn division_and_remainder_truncate() {
    assert_eq!(run("int main() { return 17 / 5; }"), 3);
    assert_eq!(run("int main() { return 17 % 5; }"), 2);
    assert_eq!(run("int main() { return (0 - 17) / 5 + 10; }"), 7);
    assert_eq!(run("int main() { return (0 - 17) % 5 + 10; }"), 8);
}

#[test]
fn unary_operators() {
    assert_eq!(run("int main() { return -(-5); }"), 5);
    assert_eq!(run("int main() { return ~0 + 2; }"), 1);
    assert_eq!(run("int main() { return !0 + !7; }"), 1);
    assert_eq!(run("int main() { int a = 4; return -a + 10; }"), 6);
}

#[test]
fn comparisons() {
    assert_eq!(run("int main() { return (1 < 2) + (2 < 1) * 2 + (2 <= 2) * 4 + (3 <= 2) * 8; }"), 5);
    assert_eq!(run("int main() { return (2 > 1) + (1 > 2) * 2 + (2 >= 2) * 4 + (2 >= 3) * 8; }"), 5);
    assert_eq!(run("int main() { return (3 == 3) + (3 == 4) * 2 + (3 != 4) * 4 + (3 != 3) * 8; }"), 5);
    assert_eq!(run("int main() { return (0 - 1) < 1; }"), 1);
}

#[test]
fn overflow_wraps() {
    assert_eq!(run("int main() { int a = 2147483647; a = a + 1; return a == (0 - 2147483647 - 1); }"), 1);
}

#[test]
fn compound_assignment() {
    assert_eq!(run("int main() { int a = 5; a += 4; a -= 2; return a; }"), 7);
}

#[test]
fn assignment_is_an_expression() {
    assert_eq!(run("int main() { int a = 0; int b = 0; a = b = 6; return a + b; }"), 12);
}

#[test]
fn if_with_and_without_else() {
    assert_eq!(run("int main() { int a = 1; if (a) a = 5; return a; }"), 5);
    assert_eq!(run("int main() { int a = 0; if (a) a = 5; return a; }"), 0);
    assert_eq!(run("int main() { int a = 0; if (a) a = 5; else a = 9; return a; }"), 9);
    assert_eq!(run("int main() { if (1) return 3; else return 4; }"), 3);
}

#[test]
fn break_leaves_the_loop() {
    assert_eq!(
        run("int main() { int i = 0; while (1) { if (i == 5) break; i = i + 1; } return i; }"),
        5
    );
}

#[test]
fn continue_goes_to_the_next_round() {
    assert_eq!(
        run(
            "int main() { int s = 0; for (int i = 0; i < 10; i++) { if (i % 2) continue; s += i; } return s; }"
        ),
        20
    );
    assert_eq!(
        run(
            "int main() { int s = 0; int i = 0; while (i < 10) { i++; if (i % 2) continue; s += i; } return s; }"
        ),
        30
    );
}

#[test]
fn for_with_absent_parts() {
    assert_eq!(run("int main() { int i = 0; for (;;) { i++; if (i > 3) break; } return i; }"), 4);
    assert_eq!(run("int main() { int i = 0; for (i = 2; i < 6;) i = i + 3; return i; }"), 8);
}

#[test]
fn inner_scope_shadows_and_ends() {
    assert_eq!(run("int main() { int a = 1; { int a = 2; a = a + 5; } return a; }"), 1);
    assert_eq!(run("int main() { int a = 1; { a = 2; } return a; }"), 2);
}

#[test]
fn nested_loops() {
    assert_eq!(
        run(
            "int main() { int s = 0; for (int i = 0; i < 4; i++) for (int j = 0; j < 3; j++) s = s + i * j; return s; }"
        ),
        18
    );
}

#[test]
fn nested_ternaries() {
    assert_eq!(run("int main() { int a = 2; return a == 1 ? 10 : a == 2 ? 20 : 30; }"), 20);
}

#[test]
fn postfix_and_prefix_decrement() {
    assert_eq!(run("int main() { int i = 3; int a = i--; int b = --i; return a * 10 + b; }"), 31);
}

#[test]
fn postfix_into_a_variable_keeps_the_value_from_before() {
    assert_eq!(run("int main() { int i = 3; int j = i++; return j * 10 + i; }"), 34);
    assert_eq!(run("int main() { int i = 3; int j = 0; j = i--; return j * 10 + i; }"), 32);
    assert_eq!(run("int main() { int i = 3; i = i++; return i; }"), 3);
    assert_eq!(run("int main() { int i = 3; int j = 1 ? i++ : 0; return j * 10 + i; }"), 34);
    assert_eq!(run("int main() { int i = 3; int j = 0 ? 0 : i--; return j * 10 + i; }"), 32);
}

#[test]
fn prefix_into_a_variable_gives_the_value_after() {
    assert_eq!(run("int main() { int i = 3; int j = ++i; return j * 10 + i; }"), 44);
    assert_eq!(run("int main() { int i = 3; i = ++i; return i; }"), 4);
    assert_eq!(run("int main() { int i = 3; i = --i; return i; }"), 2);
}

#[test]
fn comments_are_skipped() {
    assert_eq!(run("// a program\nint main() { // body\n return 4; // done\n}"), 4);
}

#[test]
fn each_error_kind_comes_from_its_stage() {
    assert_eq!(error_of("int main() { return 0 @ 1; }").kind(), ErrorKind::LexError);
    assert_eq!(error_of("int main() { return 0 }").kind(), ErrorKind::ParseError);
    assert_eq!(error_of("int main() { return a; }").kind(), ErrorKind::SemanticError);
    assert_eq!(error_of("int main() { int a; return a; }").kind(), ErrorKind::InternalInvariant);
}

#[test]
fn undeclared_variable_is_named() {
    assert_eq!(
        error_of("int main() { return missing; }"),
        CompileError::UndeclaredVariable("missing".to_string())
    );
    assert_eq!(
        error_of("int main() { { int a = 1; } return a; }"),
        CompileError::UndeclaredVariable("a".to_string())
    );
}

#[test]
fn break_and_continue_need_a_loop() {
    assert_eq!(error_of("int main() { break; }"), CompileError::BreakOutsideLoop);
    assert_eq!(error_of("int main() { continue; }"), CompileError::ContinueOutsideLoop);
    assert_eq!(
        error_of("int main() { while (1) { } if (1) break; }"),
        CompileError::BreakOutsideLoop
    );
}
