//! Lowering of expressions and statements to three-address code.

use tcc::driver::generate_tac;
use tcc::errors::{CompileError, ErrorKind};
use tcc::parser::expr_parser::{BinOp, Expr, UnOp};
use tcc::parser::{Function, Program, Statement};
use tcc::tac::array_init_expr::gen_arr_init_expr_tac;
use tcc::tac::expr::{
    deliver_value, gen_function_call_tac, generate_binop_tac, generate_expr_tac,
    generate_short_circuiting_tac, generate_ternary_tac, get_bigger_size, get_expr_size,
    pick_destination,
};
use tcc::tac::labels::{make_label, LabelKind};
use tcc::tac::prefix_postfix_inc_dec::{
    gen_postfix_dec_tac, gen_postfix_inc_tac, gen_prefix_dec_tac, gen_prefix_inc_tac,
};
use tcc::tac::stmt::{generate_compound_stmt_tac, generate_function_tac, generate_statement_tac};
use tcc::tac::{
    emit, emit_all, resolve_variable_to_temp_name, CodeEnv, Identifier, TacContext, TacInstr,
    TacVal,
};
use tcc::text::{char_to_digit, digit_to_char, numbered, push_decimal};
use tcc::types::{VarSize, VarType};

fn a() -> Identifier {
    Identifier(100, VarSize::Dword)
}

fn b() -> Identifier {
    Identifier(101, VarSize::Dword)
}

fn wide() -> Identifier {
    Identifier(102, VarSize::Quad)
}

fn small() -> Identifier {
    Identifier(103, VarSize::Byte)
}

/// An environment with the variables `a` and `b` of 32 bits, `wide` of 64
/// and `small` of 8.
fn env() -> CodeEnv {
    let mut env = CodeEnv::new();
    env.bind("a".to_string(), a());
    env.bind("b".to_string(), b());
    env.bind("wide".to_string(), wide());
    env.bind("small".to_string(), small());
    env
}

fn t(n: u64, size: VarSize) -> Identifier {
    Identifier(n, size)
}

fn t32(n: u64) -> Identifier {
    Identifier(n, VarSize::Dword)
}

fn lit(v: i64) -> TacVal {
    TacVal::Lit(v, VarSize::Dword)
}

fn num(v: i32) -> Expr {
    Expr::IntLiteral(v)
}

fn var(name: &str) -> Expr {
    Expr::Var(name.to_string())
}

fn bin(op: BinOp, x: Expr, y: Expr) -> Expr {
    Expr::BinOp(op, Box::new(x), Box::new(y))
}

fn assign(name: &str, rhs: Expr) -> Expr {
    Expr::Assign(name.to_string(), Box::new(rhs))
}

fn int_type() -> VarType {
    VarType::Fund(VarSize::Dword)
}

/// Lowers without a target and without a hint, with counters from zero.
fn lower(e: &Expr) -> Result<(Vec<TacInstr>, TacVal), CompileError> {
    generate_expr_tac(e, &env(), None, None, &mut TacContext::new())
}

fn lower_stmt(s: &Statement) -> Result<Vec<TacInstr>, CompileError> {
    generate_statement_tac(s, &mut env(), &mut TacContext::new())
}

#[test]
fn a_literal_needs_no_code() {
    assert_eq!(lower(&num(5)), Ok((vec![], lit(5))));
    assert_eq!(lower(&num(-2147483648)), Ok((vec![], lit(-2147483648))));
}

#[test]
fn a_literal_takes_the_suggested_width() {
    let mut ctx = TacContext::new();
    assert_eq!(
        generate_expr_tac(&num(5), &env(), None, Some(VarSize::Quad), &mut ctx),
        Ok((vec![], TacVal::Lit(5, VarSize::Quad)))
    );
    assert_eq!(ctx, TacContext::new());
}

#[test]
fn a_literal_with_a_target_is_copied() {
    let target = t(9, VarSize::Word);
    assert_eq!(
        generate_expr_tac(&num(5), &env(), Some(target), Some(VarSize::Quad), &mut TacContext::new()),
        Ok((vec![TacInstr::Copy(target, TacVal::Lit(5, VarSize::Word))], TacVal::Var(target)))
    );
}

#[test]
fn a_variable_needs_no_code() {
    assert_eq!(lower(&var("a")), Ok((vec![], TacVal::Var(a()))));
    assert_eq!(lower(&var("wide")), Ok((vec![], TacVal::Var(wide()))));
}

#[test]
fn a_variable_with_a_target_is_copied() {
    let target = t32(9);
    assert_eq!(
        generate_expr_tac(&var("b"), &env(), Some(target), None, &mut TacContext::new()),
        Ok((vec![TacInstr::Copy(target, TacVal::Var(b()))], TacVal::Var(target)))
    );
}

#[test]
fn an_undeclared_variable_is_an_error() {
    let missing = CompileError::UndeclaredVariable("x".to_string());
    assert_eq!(lower(&var("x")), Err(missing.clone_for_test()));
    assert_eq!(lower(&assign("x", num(1))), Err(missing.clone_for_test()));
    assert_eq!(lower(&bin(BinOp::Plus, var("a"), var("x"))), Err(missing.clone_for_test()));
    assert_eq!(lower(&Expr::PostfixInc("x".to_string())), Err(missing.clone_for_test()));
    assert_eq!(lower(&Expr::PrefixDec("x".to_string())), Err(missing.clone_for_test()));
    assert_eq!(
        lower(&Expr::FunctionCall("f".to_string(), vec![num(1), var("x"), var("y")])),
        Err(missing.clone_for_test())
    );
    assert_eq!(
        lower(&Expr::Ternary(Box::new(var("x")), Box::new(num(1)), Box::new(num(2)))),
        Err(missing.clone_for_test())
    );
    assert_eq!(lower(&Expr::UnOp(UnOp::Negation, Box::new(var("x")))), Err(missing));
    assert_eq!(
        lower(&bin(BinOp::LogicalAnd, var("y"), var("x"))),
        Err(CompileError::UndeclaredVariable("y".to_string()))
    );
}

trait CloneForTest {
    fn clone_for_test(&self) -> Self;
}

impl CloneForTest for CompileError {
    fn clone_for_test(&self) -> CompileError {
        match self {
            CompileError::UndeclaredVariable(n) => CompileError::UndeclaredVariable(n.to_string()),
            _ => panic!("only used for undeclared variables"),
        }
    }
}

#[test]
fn assignment_writes_the_variable() {
    assert_eq!(
        lower(&assign("a", num(5))),
        Ok((vec![TacInstr::Copy(a(), lit(5))], TacVal::Var(a())))
    );
    assert_eq!(
        lower(&assign("wide", num(5))),
        Ok((vec![TacInstr::Copy(wide(), TacVal::Lit(5, VarSize::Quad))], TacVal::Var(wide())))
    );
    assert_eq!(
        lower(&assign("a", var("b"))),
        Ok((vec![TacInstr::Copy(a(), TacVal::Var(b()))], TacVal::Var(a())))
    );
}

#[test]
fn assignment_with_a_target_copies_the_variable() {
    let target = t32(9);
    assert_eq!(
        generate_expr_tac(&assign("a", num(5)), &env(), Some(target), None, &mut TacContext::new()),
        Ok((
            vec![TacInstr::Copy(a(), lit(5)), TacInstr::Copy(target, TacVal::Var(a()))],
            TacVal::Var(target)
        ))
    );
}

#[test]
fn chained_assignment() {
    assert_eq!(
        lower(&assign("a", assign("b", num(6)))),
        Ok((
            vec![TacInstr::Copy(b(), lit(6)), TacInstr::Copy(a(), TacVal::Var(b()))],
            TacVal::Var(a())
        ))
    );
}

#[test]
fn unary_operation() {
    assert_eq!(
        lower(&Expr::UnOp(UnOp::Negation, Box::new(var("a")))),
        Ok((vec![TacInstr::UnOp(t32(0), TacVal::Var(a()), UnOp::Negation)], TacVal::Var(t32(0))))
    );
    let wide_temp = t(0, VarSize::Quad);
    assert_eq!(
        lower(&Expr::UnOp(UnOp::BitwiseComplement, Box::new(var("wide")))),
        Ok((
            vec![TacInstr::UnOp(wide_temp, TacVal::Var(wide()), UnOp::BitwiseComplement)],
            TacVal::Var(wide_temp)
        ))
    );
    assert_eq!(
        lower(&Expr::UnOp(UnOp::LogicalNot, Box::new(num(5)))),
        Ok((vec![TacInstr::UnOp(t32(0), lit(5), UnOp::LogicalNot)], TacVal::Var(t32(0))))
    );
}

#[test]
fn unary_operation_of_a_literal_takes_the_suggested_width() {
    let word = t(0, VarSize::Word);
    assert_eq!(
        generate_expr_tac(
            &Expr::UnOp(UnOp::Negation, Box::new(num(5))),
            &env(),
            None,
            Some(VarSize::Word),
            &mut TacContext::new()
        ),
        Ok((
            vec![TacInstr::UnOp(word, TacVal::Lit(5, VarSize::Word), UnOp::Negation)],
            TacVal::Var(word)
        ))
    );
}

#[test]
fn unary_operation_into_a_target_makes_no_temporary() {
    let target = t32(9);
    let mut ctx = TacContext::new();
    assert_eq!(
        generate_expr_tac(
            &Expr::UnOp(UnOp::Negation, Box::new(var("a"))),
            &env(),
            Some(target),
            None,
            &mut ctx
        ),
        Ok((vec![TacInstr::UnOp(target, TacVal::Var(a()), UnOp::Negation)], TacVal::Var(target)))
    );
    assert_eq!(ctx, TacContext::new());
}

#[test]
fn binary_operation() {
    assert_eq!(
        lower(&bin(BinOp::Plus, var("a"), var("b"))),
        Ok((
            vec![TacInstr::BinOp(t32(0), TacVal::Var(a()), TacVal::Var(b()), BinOp::Plus)],
            TacVal::Var(t32(0))
        ))
    );
    assert_eq!(
        lower(&bin(BinOp::LessThan, num(1), num(2))),
        Ok((vec![TacInstr::BinOp(t32(0), lit(1), lit(2), BinOp::LessThan)], TacVal::Var(t32(0))))
    );
}

#[test]
fn a_literal_operand_takes_the_width_of_the_other_operand() {
    let wide_temp = t(0, VarSize::Quad);
    assert_eq!(
        lower(&bin(BinOp::Plus, var("wide"), num(1))),
        Ok((
            vec![TacInstr::BinOp(
                wide_temp,
                TacVal::Var(wide()),
                TacVal::Lit(1, VarSize::Quad),
                BinOp::Plus
            )],
            TacVal::Var(wide_temp)
        ))
    );
    let byte_temp = t(0, VarSize::Byte);
    assert_eq!(
        lower(&bin(BinOp::Minus, num(1), var("small"))),
        Ok((
            vec![TacInstr::BinOp(
                byte_temp,
                TacVal::Lit(1, VarSize::Byte),
                TacVal::Var(small()),
                BinOp::Minus
            )],
            TacVal::Var(byte_temp)
        ))
    );
}

#[test]
fn the_wider_operand_decides_the_width_of_the_result() {
    let wide_temp = t(0, VarSize::Quad);
    assert_eq!(
        lower(&bin(BinOp::Multiply, var("small"), var("wide"))),
        Ok((
            vec![TacInstr::BinOp(
                wide_temp,
                TacVal::Var(small()),
                TacVal::Var(wide()),
                BinOp::Multiply
            )],
            TacVal::Var(wide_temp)
        ))
    );
}

#[test]
fn the_left_operand_is_computed_first() {
    // (a + 1) * (b + 2)
    let e = bin(
        BinOp::Multiply,
        bin(BinOp::Plus, var("a"), num(1)),
        bin(BinOp::Plus, var("b"), num(2)),
    );
    let mut ctx = TacContext::new();
    assert_eq!(
        generate_expr_tac(&e, &env(), None, None, &mut ctx),
        Ok((
            vec![
                TacInstr::BinOp(t32(0), TacVal::Var(a()), lit(1), BinOp::Plus),
                TacInstr::BinOp(t32(1), TacVal::Var(b()), lit(2), BinOp::Plus),
                TacInstr::BinOp(t32(2), TacVal::Var(t32(0)), TacVal::Var(t32(1)), BinOp::Multiply),
            ],
            TacVal::Var(t32(2))
        ))
    );
    assert_eq!(ctx, TacContext { next_temp: 3, next_label: 0 });
}

#[test]
fn side_effects_of_the_left_operand_come_first() {
    // (a = 1) + (a = 2)
    let e = bin(BinOp::Plus, assign("a", num(1)), assign("a", num(2)));
    assert_eq!(
        lower(&e),
        Ok((
            vec![
                TacInstr::Copy(a(), lit(1)),
                TacInstr::Copy(a(), lit(2)),
                TacInstr::BinOp(t32(0), TacVal::Var(a()), TacVal::Var(a()), BinOp::Plus),
            ],
            TacVal::Var(t32(0))
        ))
    );
}

#[test]
fn binary_operation_into_a_target() {
    let target = t32(9);
    assert_eq!(
        generate_binop_tac(BinOp::Divide, &var("a"), &num(2), &env(), Some(target), None, &mut TacContext::new()),
        Ok((
            vec![TacInstr::BinOp(target, TacVal::Var(a()), lit(2), BinOp::Divide)],
            TacVal::Var(target)
        ))
    );
}

fn and_code(dst: Identifier, left: TacVal, right: TacVal, k: u64) -> Vec<TacInstr> {
    vec![
        TacInstr::JmpZero(format!("label_and_false_{}", k), left),
        TacInstr::BinOp(dst, right, TacVal::Lit(0, dst.1), BinOp::NotEquals),
        TacInstr::Jmp(format!("label_and_end_{}", k)),
        TacInstr::Label(format!("label_and_false_{}", k)),
        TacInstr::Copy(dst, TacVal::Lit(0, dst.1)),
        TacInstr::Label(format!("label_and_end_{}", k)),
    ]
}

fn or_code(dst: Identifier, left: TacVal, right: TacVal, k: u64) -> Vec<TacInstr> {
    vec![
        TacInstr::JmpNotZero(format!("label_or_true_{}", k), left),
        TacInstr::BinOp(dst, right, TacVal::Lit(0, dst.1), BinOp::NotEquals),
        TacInstr::Jmp(format!("label_or_end_{}", k)),
        TacInstr::Label(format!("label_or_true_{}", k)),
        TacInstr::Copy(dst, TacVal::Lit(1, dst.1)),
        TacInstr::Label(format!("label_or_end_{}", k)),
    ]
}

#[test]
fn logical_and() {
    let mut ctx = TacContext::new();
    assert_eq!(
        generate_expr_tac(&bin(BinOp::LogicalAnd, var("a"), var("b")), &env(), None, None, &mut ctx),
        Ok((and_code(t32(0), TacVal::Var(a()), TacVal::Var(b()), 0), TacVal::Var(t32(0))))
    );
    assert_eq!(ctx, TacContext { next_temp: 1, next_label: 1 });
}

#[test]
fn logical_or() {
    let mut ctx = TacContext { next_temp: 4, next_label: 7 };
    assert_eq!(
        generate_expr_tac(&bin(BinOp::LogicalOr, var("a"), num(3)), &env(), None, None, &mut ctx),
        Ok((or_code(t32(4), TacVal::Var(a()), lit(3), 7), TacVal::Var(t32(4))))
    );
    assert_eq!(ctx, TacContext { next_temp: 5, next_label: 8 });
}

#[test]
fn logical_operators_into_a_target() {
    let target = t(9, VarSize::Quad);
    assert_eq!(
        generate_short_circuiting_tac(
            BinOp::LogicalAnd,
            &var("a"),
            &var("b"),
            &env(),
            Some(target),
            None,
            &mut TacContext::new()
        ),
        Ok((and_code(target, TacVal::Var(a()), TacVal::Var(b()), 0), TacVal::Var(target)))
    );
}

#[test]
fn nested_logical_operators() {
    // (a && b) || wide
    let e = bin(BinOp::LogicalOr, bin(BinOp::LogicalAnd, var("a"), var("b")), var("wide"));
    let outer = t(0, VarSize::Quad);
    let mut expected = and_code(t32(1), TacVal::Var(a()), TacVal::Var(b()), 1);
    let tail = or_code(outer, TacVal::Var(t32(1)), TacVal::Var(wide()), 0);
    expected.extend(tail);
    assert_eq!(lower(&e), Ok((expected, TacVal::Var(outer))));
}

#[test]
fn ternary_writes_one_temporary_in_both_branches() {
    let e = Expr::Ternary(Box::new(var("a")), Box::new(num(1)), Box::new(var("b")));
    let mut ctx = TacContext::new();
    assert_eq!(
        generate_expr_tac(&e, &env(), None, None, &mut ctx),
        Ok((
            vec![
                TacInstr::JmpZero("label_ternary_false_0".to_string(), TacVal::Var(a())),
                TacInstr::Copy(t32(0), lit(1)),
                TacInstr::Jmp("label_ternary_end_0".to_string()),
                TacInstr::Label("label_ternary_false_0".to_string()),
                TacInstr::Copy(t32(0), TacVal::Var(b())),
                TacInstr::Label("label_ternary_end_0".to_string()),
            ],
            TacVal::Var(t32(0))
        ))
    );
    assert_eq!(ctx, TacContext { next_temp: 1, next_label: 1 });
}

#[test]
fn ternary_into_a_target() {
    let target = t(9, VarSize::Quad);
    assert_eq!(
        generate_ternary_tac(&num(1), &num(2), &num(3), &env(), Some(target), None, &mut TacContext::new()),
        Ok((
            vec![
                TacInstr::JmpZero("label_ternary_false_0".to_string(), lit(1)),
                TacInstr::Copy(target, TacVal::Lit(2, VarSize::Quad)),
                TacInstr::Jmp("label_ternary_end_0".to_string()),
                TacInstr::Label("label_ternary_false_0".to_string()),
                TacInstr::Copy(target, TacVal::Lit(3, VarSize::Quad)),
                TacInstr::Label("label_ternary_end_0".to_string()),
            ],
            TacVal::Var(target)
        ))
    );
}

#[test]
fn the_branches_decide_the_width_of_a_ternary() {
    let e = Expr::Ternary(Box::new(var("a")), Box::new(var("small")), Box::new(var("wide")));
    let (_, val) = lower(&e).expect("all variables are declared");
    assert_eq!(val, TacVal::Var(t(0, VarSize::Quad)));
}

#[test]
fn call_computes_arguments_from_the_left() {
    let e = Expr::FunctionCall(
        "f".to_string(),
        vec![var("a"), bin(BinOp::Plus, var("b"), num(1)), num(7), assign("a", num(2))],
    );
    assert_eq!(
        lower(&e),
        Ok((
            vec![
                TacInstr::BinOp(t32(1), TacVal::Var(b()), lit(1), BinOp::Plus),
                TacInstr::Copy(a(), lit(2)),
                TacInstr::Call(
                    "f".to_string(),
                    vec![TacVal::Var(a()), TacVal::Var(t32(1)), lit(7), TacVal::Var(a())],
                    Some(t32(0))
                ),
            ],
            TacVal::Var(t32(0))
        ))
    );
}

#[test]
fn call_without_arguments_and_with_a_target() {
    let target = t32(9);
    assert_eq!(
        gen_function_call_tac(&"g".to_string(), &vec![], &env(), Some(target), &mut TacContext::new()),
        Ok((vec![TacInstr::Call("g".to_string(), vec![], Some(target))], TacVal::Var(target)))
    );
}

#[test]
fn postfix_gives_the_value_before_the_change() {
    let kept = t(0, VarSize::Quad);
    let one = TacVal::Lit(1, VarSize::Quad);
    assert_eq!(
        lower(&Expr::PostfixInc("wide".to_string())),
        Ok((
            vec![
                TacInstr::Copy(kept, TacVal::Var(wide())),
                TacInstr::BinOp(wide(), TacVal::Var(wide()), one, BinOp::Plus),
            ],
            TacVal::Var(kept)
        ))
    );
    let mut ctx = TacContext::new();
    let (_, val) = gen_postfix_inc_tac(&"a".to_string(), &env(), None, &mut ctx).expect("a is declared");
    assert_eq!(val, TacVal::Var(t32(0)));
    assert_eq!(ctx.next_temp, 1);
}

#[test]
fn postfix_with_a_target_writes_the_target_last() {
    let mut ctx = TacContext::new();
    assert_eq!(
        gen_postfix_dec_tac(&"a".to_string(), &env(), Some(t32(9)), &mut ctx),
        Ok((
            vec![
                TacInstr::Copy(t32(0), TacVal::Var(a())),
                TacInstr::BinOp(a(), TacVal::Var(a()), lit(1), BinOp::Minus),
                TacInstr::Copy(t32(9), TacVal::Var(t32(0))),
            ],
            TacVal::Var(t32(9))
        ))
    );
    assert_eq!(ctx, TacContext { next_temp: 1, next_label: 0 });
    // a = a++ leaves in a the value from before the change
    assert_eq!(
        lower(&assign("a", Expr::PostfixInc("a".to_string()))),
        Ok((
            vec![
                TacInstr::Copy(t32(0), TacVal::Var(a())),
                TacInstr::BinOp(a(), TacVal::Var(a()), lit(1), BinOp::Plus),
                TacInstr::Copy(a(), TacVal::Var(t32(0))),
            ],
            TacVal::Var(a())
        ))
    );
}

#[test]
fn an_arm_of_a_ternary_that_is_a_postfix_ends_by_writing_the_result() {
    let e = Expr::Ternary(
        Box::new(var("b")),
        Box::new(Expr::PostfixInc("a".to_string())),
        Box::new(Expr::PrefixDec("a".to_string())),
    );
    assert_eq!(
        lower(&e),
        Ok((
            vec![
                TacInstr::JmpZero("label_ternary_false_0".to_string(), TacVal::Var(b())),
                TacInstr::Copy(t32(1), TacVal::Var(a())),
                TacInstr::BinOp(a(), TacVal::Var(a()), lit(1), BinOp::Plus),
                TacInstr::Copy(t32(0), TacVal::Var(t32(1))),
                TacInstr::Jmp("label_ternary_end_0".to_string()),
                TacInstr::Label("label_ternary_false_0".to_string()),
                TacInstr::BinOp(a(), TacVal::Var(a()), lit(1), BinOp::Minus),
                TacInstr::Copy(t32(0), TacVal::Var(a())),
                TacInstr::Label("label_ternary_end_0".to_string()),
            ],
            TacVal::Var(t32(0))
        ))
    );
}

#[test]
fn the_last_write_lands_in_the_target() {
    let target = t32(9);
    let cases = vec![
        num(1),
        var("a"),
        assign("a", num(1)),
        Expr::UnOp(UnOp::Negation, Box::new(var("a"))),
        bin(BinOp::Plus, var("a"), var("b")),
        bin(BinOp::LogicalAnd, var("a"), var("b")),
        bin(BinOp::LogicalOr, assign("a", num(1)), assign("b", num(2))),
        Expr::Ternary(
            Box::new(var("a")),
            Box::new(Expr::PostfixInc("a".to_string())),
            Box::new(Expr::PostfixDec("b".to_string())),
        ),
        Expr::FunctionCall("f".to_string(), vec![assign("a", num(1))]),
        Expr::PostfixInc("a".to_string()),
        Expr::PostfixDec("a".to_string()),
        Expr::PrefixInc("a".to_string()),
        Expr::PrefixDec("a".to_string()),
    ];
    for e in cases {
        for given in [target, a()] {
            let (code, val) =
                generate_expr_tac(&e, &env(), Some(given), None, &mut TacContext::new())
                    .expect("all variables are declared");
            assert_eq!(val, TacVal::Var(given));
            let last = code.iter().rev().find_map(|i| i.get_written_identifier());
            assert_eq!(last, Some(given), "{:?}", e);
        }
    }
}

#[test]
fn prefix_gives_the_value_after_the_change() {
    assert_eq!(
        lower(&Expr::PrefixInc("a".to_string())),
        Ok((vec![TacInstr::BinOp(a(), TacVal::Var(a()), lit(1), BinOp::Plus)], TacVal::Var(a())))
    );
    assert_eq!(
        lower(&Expr::PrefixDec("a".to_string())),
        Ok((vec![TacInstr::BinOp(a(), TacVal::Var(a()), lit(1), BinOp::Minus)], TacVal::Var(a())))
    );
    assert_eq!(
        gen_prefix_inc_tac(&"a".to_string(), &env(), Some(t32(9)), &mut TacContext::new()),
        Ok((
            vec![
                TacInstr::BinOp(a(), TacVal::Var(a()), lit(1), BinOp::Plus),
                TacInstr::Copy(t32(9), TacVal::Var(a())),
            ],
            TacVal::Var(t32(9))
        ))
    );
    // the variable itself as target holds the value already
    assert_eq!(
        gen_prefix_inc_tac(&"a".to_string(), &env(), Some(a()), &mut TacContext::new()),
        Ok((vec![TacInstr::BinOp(a(), TacVal::Var(a()), lit(1), BinOp::Plus)], TacVal::Var(a())))
    );
    assert_eq!(
        lower(&assign("a", Expr::PrefixDec("a".to_string()))),
        Ok((vec![TacInstr::BinOp(a(), TacVal::Var(a()), lit(1), BinOp::Minus)], TacVal::Var(a())))
    );
    assert_eq!(
        gen_prefix_dec_tac(&"nothing".to_string(), &env(), None, &mut TacContext::new()),
        Err(CompileError::UndeclaredVariable("nothing".to_string()))
    );
}

#[test]
fn an_array_initialiser_is_no_value() {
    assert_eq!(lower(&Expr::ArrInitExpr(vec![num(1)])), Err(CompileError::MisplacedArrayInit));
    assert_eq!(
        lower(&bin(BinOp::Plus, num(1), Expr::ArrInitExpr(vec![]))),
        Err(CompileError::MisplacedArrayInit)
    );
}

#[test]
fn counters_that_have_run_out() {
    let mut ctx = TacContext { next_temp: u64::MAX, next_label: 0 };
    assert_eq!(
        generate_expr_tac(&bin(BinOp::Plus, num(1), num(2)), &env(), None, None, &mut ctx),
        Err(CompileError::CounterExhausted)
    );
    let mut ctx = TacContext { next_temp: 0, next_label: u64::MAX };
    assert_eq!(
        generate_expr_tac(&bin(BinOp::LogicalOr, num(1), num(2)), &env(), None, None, &mut ctx),
        Err(CompileError::CounterExhausted)
    );
    let mut ctx = TacContext { next_temp: u64::MAX, next_label: u64::MAX };
    assert_eq!(generate_expr_tac(&var("a"), &env(), None, None, &mut ctx), Ok((vec![], TacVal::Var(a()))));
    assert_eq!(ctx.get_new_temp_name(VarSize::Byte), Err(CompileError::CounterExhausted));
    assert_eq!(ctx.get_new_label_number(), Err(CompileError::CounterExhausted));
    assert_eq!(ctx, TacContext { next_temp: u64::MAX, next_label: u64::MAX });
    assert_eq!(CompileError::CounterExhausted.kind(), ErrorKind::InternalInvariant);
}

#[test]
fn counters_hand_out_each_number_once() {
    let mut ctx = TacContext::new();
    assert_eq!(ctx.get_new_temp_name(VarSize::Byte), Ok(Identifier(0, VarSize::Byte)));
    assert_eq!(ctx.get_new_temp_name(VarSize::Quad), Ok(Identifier(1, VarSize::Quad)));
    assert_eq!(ctx.get_new_label_number(), Ok(0));
    assert_eq!(ctx.get_new_label_number(), Ok(1));
    assert_eq!(ctx, TacContext { next_temp: 2, next_label: 2 });
    let mut last = TacContext { next_temp: u64::MAX - 1, next_label: u64::MAX - 1 };
    assert_eq!(last.get_new_temp_name(VarSize::Word), Ok(Identifier(u64::MAX - 1, VarSize::Word)));
    assert_eq!(last.get_new_label_number(), Ok(u64::MAX - 1));
}

#[test]
fn destination_is_the_target_or_fresh() {
    let mut ctx = TacContext::new();
    assert_eq!(pick_destination(Some(a()), VarSize::Quad, &mut ctx), Ok(a()));
    assert_eq!(ctx, TacContext::new());
    assert_eq!(pick_destination(None, VarSize::Quad, &mut ctx), Ok(Identifier(0, VarSize::Quad)));
    assert_eq!(ctx.next_temp, 1);
}

#[test]
fn delivering_a_value() {
    assert_eq!(deliver_value(vec![], lit(1), None), (vec![], lit(1)));
    assert_eq!(
        deliver_value(vec![TacInstr::Exit(lit(0))], lit(1), Some(a())),
        (vec![TacInstr::Exit(lit(0)), TacInstr::Copy(a(), lit(1))], TacVal::Var(a()))
    );
}

#[test]
fn wider_of_two_widths() {
    let order = [VarSize::Byte, VarSize::Word, VarSize::Dword, VarSize::Quad];
    assert_eq!(get_bigger_size(None, None), None);
    for (i, x) in order.iter().enumerate() {
        assert_eq!(get_bigger_size(Some(*x), None), Some(*x));
        assert_eq!(get_bigger_size(None, Some(*x)), Some(*x));
        for (j, y) in order.iter().enumerate() {
            let expected = if i >= j { *x } else { *y };
            assert_eq!(get_bigger_size(Some(*x), Some(*y)), Some(expected));
        }
    }
}

#[test]
fn widths_of_expressions() {
    let env = env();
    assert_eq!(get_expr_size(&num(1), &env), Ok(None));
    assert_eq!(get_expr_size(&var("wide"), &env), Ok(Some(VarSize::Quad)));
    assert_eq!(get_expr_size(&assign("small", num(1)), &env), Ok(Some(VarSize::Byte)));
    assert_eq!(get_expr_size(&assign("small", var("nothing")), &env), Ok(Some(VarSize::Byte)));
    assert_eq!(
        get_expr_size(&Expr::UnOp(UnOp::Negation, Box::new(var("wide"))), &env),
        Ok(Some(VarSize::Quad))
    );
    assert_eq!(get_expr_size(&Expr::UnOp(UnOp::Negation, Box::new(num(1))), &env), Ok(None));
    assert_eq!(get_expr_size(&bin(BinOp::Plus, var("small"), var("a")), &env), Ok(Some(VarSize::Dword)));
    assert_eq!(get_expr_size(&bin(BinOp::Plus, num(1), var("small")), &env), Ok(Some(VarSize::Byte)));
    assert_eq!(get_expr_size(&bin(BinOp::Plus, num(1), num(2)), &env), Ok(None));
    assert_eq!(
        get_expr_size(
            &Expr::Ternary(Box::new(var("wide")), Box::new(var("small")), Box::new(num(1))),
            &env
        ),
        Ok(Some(VarSize::Byte))
    );
    assert_eq!(
        get_expr_size(&Expr::FunctionCall("f".to_string(), vec![var("wide")]), &env),
        Ok(Some(VarSize::Dword))
    );
    assert_eq!(get_expr_size(&Expr::PostfixInc("wide".to_string()), &env), Ok(Some(VarSize::Quad)));
    assert_eq!(get_expr_size(&Expr::PostfixDec("small".to_string()), &env), Ok(Some(VarSize::Byte)));
    assert_eq!(get_expr_size(&Expr::PrefixInc("a".to_string()), &env), Ok(Some(VarSize::Dword)));
    assert_eq!(get_expr_size(&Expr::PrefixDec("wide".to_string()), &env), Ok(Some(VarSize::Quad)));
    assert_eq!(get_expr_size(&Expr::ArrInitExpr(vec![var("wide")]), &env), Ok(None));
    assert_eq!(
        get_expr_size(&var("nothing"), &env),
        Err(CompileError::UndeclaredVariable("nothing".to_string()))
    );
    assert_eq!(
        get_expr_size(&bin(BinOp::Plus, var("a"), var("nothing")), &env),
        Err(CompileError::UndeclaredVariable("nothing".to_string()))
    );
}

#[test]
fn innermost_declaration_wins() {
    let mut env = env();
    let inner = Identifier(200, VarSize::Byte);
    assert_eq!(resolve_variable_to_temp_name(&"a".to_string(), &env), Ok(a()));
    let mark = env.scope_mark();
    assert_eq!(mark, 4);
    env.bind("a".to_string(), inner);
    assert_eq!(resolve_variable_to_temp_name(&"a".to_string(), &env), Ok(inner));
    assert_eq!(resolve_variable_to_temp_name(&"b".to_string(), &env), Ok(b()));
    env.restore_scope(mark);
    assert_eq!(resolve_variable_to_temp_name(&"a".to_string(), &env), Ok(a()));
    assert_eq!(
        resolve_variable_to_temp_name(&"c".to_string(), &env),
        Err(CompileError::UndeclaredVariable("c".to_string()))
    );
    assert_eq!(
        resolve_variable_to_temp_name(&"a".to_string(), &CodeEnv::new()),
        Err(CompileError::UndeclaredVariable("a".to_string()))
    );
}

#[test]
fn loops_nest() {
    let mut env = CodeEnv::new();
    env.enter_loop("c1".to_string(), "b1".to_string());
    env.enter_loop("c2".to_string(), "b2".to_string());
    assert_eq!(
        generate_statement_tac(&Statement::Break, &mut env, &mut TacContext::new()),
        Ok(vec![TacInstr::Jmp("b2".to_string())])
    );
    assert_eq!(
        generate_statement_tac(&Statement::Continue, &mut env, &mut TacContext::new()),
        Ok(vec![TacInstr::Jmp("c2".to_string())])
    );
    env.exit_loop();
    assert_eq!(
        generate_statement_tac(&Statement::Break, &mut env, &mut TacContext::new()),
        Ok(vec![TacInstr::Jmp("b1".to_string())])
    );
    env.exit_loop();
    assert_eq!(
        generate_statement_tac(&Statement::Break, &mut env, &mut TacContext::new()),
        Err(CompileError::BreakOutsideLoop)
    );
    assert_eq!(
        generate_statement_tac(&Statement::Continue, &mut env, &mut TacContext::new()),
        Err(CompileError::ContinueOutsideLoop)
    );
}

#[test]
fn lowering_of_simple_statements() {
    assert_eq!(lower_stmt(&Statement::Empty), Ok(vec![]));
    assert_eq!(lower_stmt(&Statement::Return(var("a"))), Ok(vec![TacInstr::Exit(TacVal::Var(a()))]));
    assert_eq!(lower_stmt(&Statement::Return(num(3))), Ok(vec![TacInstr::Exit(lit(3))]));
    assert_eq!(
        lower_stmt(&Statement::Expr(assign("a", num(1)))),
        Ok(vec![TacInstr::Copy(a(), lit(1))])
    );
    assert_eq!(lower_stmt(&Statement::Expr(num(1))), Ok(vec![]));
}

#[test]
fn declaration_with_and_without_initial_value() {
    let mut env = CodeEnv::new();
    let mut ctx = TacContext::new();
    assert_eq!(
        generate_statement_tac(
            &Statement::Declare("x".to_string(), Some(num(5)), int_type()),
            &mut env,
            &mut ctx
        ),
        Ok(vec![TacInstr::Copy(t32(0), lit(5))])
    );
    assert_eq!(resolve_variable_to_temp_name(&"x".to_string(), &env), Ok(t32(0)));
    assert_eq!(
        generate_statement_tac(
            &Statement::Declare("p".to_string(), None, VarType::Ptr(Box::new(int_type()))),
            &mut env,
            &mut ctx
        ),
        Ok(vec![])
    );
    assert_eq!(resolve_variable_to_temp_name(&"p".to_string(), &env), Ok(t(1, VarSize::Quad)));
    assert_eq!(
        generate_statement_tac(
            &Statement::Declare("c".to_string(), Some(var("x")), VarType::Fund(VarSize::Byte)),
            &mut env,
            &mut ctx
        ),
        Ok(vec![TacInstr::Copy(t(2, VarSize::Byte), TacVal::Var(t32(0)))])
    );
    assert_eq!(ctx.next_temp, 3);
}

#[test]
fn a_variable_is_in_scope_in_its_own_initial_value() {
    let mut env = env();
    assert_eq!(
        generate_statement_tac(
            &Statement::Declare("a".to_string(), Some(var("a")), int_type()),
            &mut env,
            &mut TacContext::new()
        ),
        Ok(vec![TacInstr::Copy(t32(0), TacVal::Var(t32(0)))])
    );
}

#[test]
fn redeclaration_hides_the_earlier_variable() {
    let mut env = CodeEnv::new();
    let mut ctx = TacContext::new();
    let stmts = vec![
        Statement::Declare("x".to_string(), Some(num(1)), int_type()),
        Statement::Declare("x".to_string(), Some(num(2)), int_type()),
        Statement::Return(var("x")),
    ];
    assert_eq!(
        generate_compound_stmt_tac(&stmts, &mut env, &mut ctx),
        Ok(vec![
            TacInstr::Copy(t32(0), lit(1)),
            TacInstr::Copy(t32(1), lit(2)),
            TacInstr::Exit(TacVal::Var(t32(1))),
        ])
    );
    assert_eq!(env.scope_mark(), 2);
}

#[test]
fn a_compound_statement_is_a_scope() {
    let mut env = env();
    let s = Statement::CompoundStmt(vec![
        Statement::Declare("a".to_string(), Some(num(1)), VarType::Fund(VarSize::Quad)),
        Statement::Return(var("a")),
    ]);
    let inner = t(0, VarSize::Quad);
    assert_eq!(
        generate_statement_tac(&s, &mut env, &mut TacContext::new()),
        Ok(vec![
            TacInstr::Copy(inner, TacVal::Lit(1, VarSize::Quad)),
            TacInstr::Exit(TacVal::Var(inner)),
        ])
    );
    assert_eq!(env.scope_mark(), 4);
    assert_eq!(resolve_variable_to_temp_name(&"a".to_string(), &env), Ok(a()));
}

#[test]
fn if_without_else() {
    let s = Statement::If(var("a"), Box::new(Statement::Expr(assign("b", num(1)))), None);
    let mut ctx = TacContext::new();
    assert_eq!(
        generate_statement_tac(&s, &mut env(), &mut ctx),
        Ok(vec![
            TacInstr::JmpZero("label_if_end_0".to_string(), TacVal::Var(a())),
            TacInstr::Copy(b(), lit(1)),
            TacInstr::Label("label_if_end_0".to_string()),
        ])
    );
    assert_eq!(ctx, TacContext { next_temp: 0, next_label: 1 });
}

#[test]
fn if_with_else() {
    let s = Statement::If(
        bin(BinOp::Equals, var("a"), num(0)),
        Box::new(Statement::Return(num(1))),
        Some(Box::new(Statement::Return(num(2)))),
    );
    assert_eq!(
        lower_stmt(&s),
        Ok(vec![
            TacInstr::BinOp(t32(0), TacVal::Var(a()), lit(0), BinOp::Equals),
            TacInstr::JmpZero("label_if_else_0".to_string(), TacVal::Var(t32(0))),
            TacInstr::Exit(lit(1)),
            TacInstr::Jmp("label_if_end_0".to_string()),
            TacInstr::Label("label_if_else_0".to_string()),
            TacInstr::Exit(lit(2)),
            TacInstr::Label("label_if_end_0".to_string()),
        ])
    );
}

#[test]
fn the_branches_of_an_if_are_scopes() {
    let mut env = CodeEnv::new();
    let s = Statement::If(
        num(1),
        Box::new(Statement::Declare("x".to_string(), Some(num(1)), int_type())),
        Some(Box::new(Statement::Return(var("x")))),
    );
    assert_eq!(
        generate_statement_tac(&s, &mut env, &mut TacContext::new()),
        Err(CompileError::UndeclaredVariable("x".to_string()))
    );
}

#[test]
fn while_loop() {
    let s = Statement::While(
        var("a"),
        Box::new(Statement::CompoundStmt(vec![Statement::Break, Statement::Continue])),
    );
    let mut env = env();
    assert_eq!(
        generate_statement_tac(&s, &mut env, &mut TacContext::new()),
        Ok(vec![
            TacInstr::Label("label_while_start_0".to_string()),
            TacInstr::JmpZero("label_while_end_0".to_string(), TacVal::Var(a())),
            TacInstr::Jmp("label_while_end_0".to_string()),
            TacInstr::Jmp("label_while_start_0".to_string()),
            TacInstr::Jmp("label_while_start_0".to_string()),
            TacInstr::Label("label_while_end_0".to_string()),
        ])
    );
    // the loop is left behind
    assert_eq!(
        generate_statement_tac(&Statement::Break, &mut env, &mut TacContext::new()),
        Err(CompileError::BreakOutsideLoop)
    );
}

#[test]
fn the_condition_of_a_while_is_computed_in_every_round() {
    let s = Statement::While(bin(BinOp::LessThan, var("a"), num(3)), Box::new(Statement::Empty));
    assert_eq!(
        lower_stmt(&s),
        Ok(vec![
            TacInstr::Label("label_while_start_0".to_string()),
            TacInstr::BinOp(t32(0), TacVal::Var(a()), lit(3), BinOp::LessThan),
            TacInstr::JmpZero("label_while_end_0".to_string(), TacVal::Var(t32(0))),
            TacInstr::Jmp("label_while_start_0".to_string()),
            TacInstr::Label("label_while_end_0".to_string()),
        ])
    );
}

#[test]
fn for_loop() {
    // for (int i = 0; i < 3; i++) continue;
    let s = Statement::For(
        Box::new(Statement::Declare("i".to_string(), Some(num(0)), int_type())),
        Some(bin(BinOp::LessThan, var("i"), num(3))),
        Some(Expr::PostfixInc("i".to_string())),
        Box::new(Statement::Continue),
    );
    let mut env = CodeEnv::new();
    let mut ctx = TacContext::new();
    let i = t32(0);
    assert_eq!(
        generate_statement_tac(&s, &mut env, &mut ctx),
        Ok(vec![
            TacInstr::Copy(i, lit(0)),
            TacInstr::Label("label_for_start_0".to_string()),
            TacInstr::BinOp(t32(1), TacVal::Var(i), lit(3), BinOp::LessThan),
            TacInstr::JmpZero("label_for_end_0".to_string(), TacVal::Var(t32(1))),
            TacInstr::Jmp("label_for_post_0".to_string()),
            TacInstr::Label("label_for_post_0".to_string()),
            TacInstr::Copy(t32(2), TacVal::Var(i)),
            TacInstr::BinOp(i, TacVal::Var(i), lit(1), BinOp::Plus),
            TacInstr::Jmp("label_for_start_0".to_string()),
            TacInstr::Label("label_for_end_0".to_string()),
        ])
    );
    assert_eq!(ctx, TacContext { next_temp: 3, next_label: 1 });
    // what the loop declares is out of scope behind it
    assert_eq!(env.scope_mark(), 0);
}

#[test]
fn for_loop_without_condition_and_step() {
    let s = Statement::For(
        Box::new(Statement::Empty),
        None,
        None,
        Box::new(Statement::Break),
    );
    assert_eq!(
        lower_stmt(&s),
        Ok(vec![
            TacInstr::Label("label_for_start_0".to_string()),
            TacInstr::Jmp("label_for_end_0".to_string()),
            TacInstr::Label("label_for_post_0".to_string()),
            TacInstr::Jmp("label_for_start_0".to_string()),
            TacInstr::Label("label_for_end_0".to_string()),
        ])
    );
}

#[test]
fn what_the_body_of_a_for_declares_is_not_seen_by_the_step() {
    let s = Statement::For(
        Box::new(Statement::Empty),
        None,
        Some(var("x")),
        Box::new(Statement::Declare("x".to_string(), Some(num(1)), int_type())),
    );
    assert_eq!(lower_stmt(&s), Err(CompileError::UndeclaredVariable("x".to_string())));
}

#[test]
fn inner_loops_take_later_label_numbers() {
    let s = Statement::While(
        num(1),
        Box::new(Statement::While(num(2), Box::new(Statement::Break))),
    );
    assert_eq!(
        lower_stmt(&s),
        Ok(vec![
            TacInstr::Label("label_while_start_0".to_string()),
            TacInstr::JmpZero("label_while_end_0".to_string(), lit(1)),
            TacInstr::Label("label_while_start_1".to_string()),
            TacInstr::JmpZero("label_while_end_1".to_string(), lit(2)),
            TacInstr::Jmp("label_while_end_1".to_string()),
            TacInstr::Jmp("label_while_start_1".to_string()),
            TacInstr::Label("label_while_end_1".to_string()),
            TacInstr::Jmp("label_while_start_0".to_string()),
            TacInstr::Label("label_while_end_0".to_string()),
        ])
    );
}

#[test]
fn the_first_error_of_a_list_is_reported() {
    let stmts = vec![
        Statement::Expr(var("first")),
        Statement::Break,
        Statement::Expr(var("second")),
    ];
    assert_eq!(
        generate_compound_stmt_tac(&stmts, &mut CodeEnv::new(), &mut TacContext::new()),
        Err(CompileError::UndeclaredVariable("first".to_string()))
    );
}

#[test]
fn a_function_ends_with_an_exit() {
    let f = Function { name: "main".to_string(), body: vec![Statement::Return(num(4))] };
    assert_eq!(generate_function_tac(&f), Ok(vec![TacInstr::Exit(lit(4)), TacInstr::Exit(lit(0))]));
    let empty = Function { name: "main".to_string(), body: vec![] };
    assert_eq!(generate_function_tac(&empty), Ok(vec![TacInstr::Exit(lit(0))]));
    assert_eq!(
        generate_tac(&Program { function: empty }),
        Ok(vec![TacInstr::Exit(lit(0))])
    );
    let bad = Function { name: "main".to_string(), body: vec![Statement::Continue] };
    assert_eq!(generate_function_tac(&bad), Err(CompileError::ContinueOutsideLoop));
}

#[test]
fn array_initialiser() {
    let p = Identifier(50, VarSize::Quad);
    let ty = VarType::Arr(Box::new(int_type()), 2);
    let init = Expr::ArrInitExpr(vec![num(1), var("a")]);
    let step = TacInstr::BinOp(p, TacVal::Var(p), TacVal::Lit(4, VarSize::Quad), BinOp::Plus);
    let mut ctx = TacContext::new();
    assert_eq!(
        gen_arr_init_expr_tac(&ty, &init, p, &env(), &mut ctx),
        Ok(vec![
            TacInstr::DerefStore(p, lit(1)),
            TacInstr::BinOp(p, TacVal::Var(p), TacVal::Lit(4, VarSize::Quad), BinOp::Plus),
            TacInstr::DerefStore(p, TacVal::Var(a())),
            step,
        ])
    );
    assert_eq!(ctx, TacContext::new());
    assert_eq!(
        gen_arr_init_expr_tac(&ty, &Expr::ArrInitExpr(vec![]), p, &env(), &mut ctx),
        Ok(vec![])
    );
}

#[test]
fn nested_array_initialiser() {
    let p = Identifier(50, VarSize::Quad);
    let row = VarType::Arr(Box::new(VarType::Fund(VarSize::Byte)), 3);
    let ty = VarType::Arr(Box::new(row), 2);
    let init = Expr::ArrInitExpr(vec![
        Expr::ArrInitExpr(vec![num(1), num(2)]),
        Expr::ArrInitExpr(vec![bin(BinOp::Plus, var("a"), num(1))]),
    ]);
    let q0 = t(0, VarSize::Quad);
    let q1 = t(1, VarSize::Quad);
    let one = TacVal::Lit(1, VarSize::Quad);
    let three = TacVal::Lit(3, VarSize::Quad);
    assert_eq!(
        gen_arr_init_expr_tac(&ty, &init, p, &env(), &mut TacContext::new()),
        Ok(vec![
            TacInstr::Copy(q0, TacVal::Var(p)),
            TacInstr::DerefStore(q0, lit(1)),
            TacInstr::BinOp(q0, TacVal::Var(q0), one, BinOp::Plus),
            TacInstr::DerefStore(q0, lit(2)),
            TacInstr::BinOp(q0, TacVal::Var(q0), one, BinOp::Plus),
            TacInstr::BinOp(p, TacVal::Var(p), three, BinOp::Plus),
            TacInstr::Copy(q1, TacVal::Var(p)),
            TacInstr::BinOp(t32(2), TacVal::Var(a()), lit(1), BinOp::Plus),
            TacInstr::DerefStore(q1, TacVal::Var(t32(2))),
            TacInstr::BinOp(q1, TacVal::Var(q1), one, BinOp::Plus),
            TacInstr::BinOp(p, TacVal::Var(p), three, BinOp::Plus),
        ])
    );
}

#[test]
fn array_initialiser_and_type_must_match() {
    let p = Identifier(50, VarSize::Quad);
    let ty = VarType::Arr(Box::new(int_type()), 2);
    let mut ctx = TacContext::new();
    assert_eq!(
        gen_arr_init_expr_tac(&int_type(), &Expr::ArrInitExpr(vec![num(1)]), p, &env(), &mut ctx),
        Err(CompileError::NotAnArray)
    );
    assert_eq!(
        gen_arr_init_expr_tac(&VarType::Ptr(Box::new(int_type())), &Expr::ArrInitExpr(vec![]), p, &env(), &mut ctx),
        Err(CompileError::NotAnArray)
    );
    assert_eq!(gen_arr_init_expr_tac(&ty, &num(1), p, &env(), &mut ctx), Err(CompileError::NotAnArray));
    assert_eq!(
        gen_arr_init_expr_tac(
            &ty,
            &Expr::ArrInitExpr(vec![num(1), Expr::ArrInitExpr(vec![num(2)])]),
            p,
            &env(),
            &mut ctx
        ),
        Err(CompileError::NotAnArray)
    );
    assert_eq!(
        gen_arr_init_expr_tac(&ty, &Expr::ArrInitExpr(vec![var("nothing")]), p, &env(), &mut ctx),
        Err(CompileError::UndeclaredVariable("nothing".to_string()))
    );
    assert_eq!(CompileError::NotAnArray.kind(), ErrorKind::SemanticError);
}

#[test]
fn elements_too_large_for_an_immediate() {
    let p = Identifier(50, VarSize::Quad);
    let huge = VarType::Arr(Box::new(VarType::Fund(VarSize::Quad)), u64::MAX);
    let ty = VarType::Arr(Box::new(huge), 2);
    assert_eq!(
        gen_arr_init_expr_tac(&ty, &Expr::ArrInitExpr(vec![]), p, &env(), &mut TacContext::new()),
        Err(CompileError::TypeTooLarge)
    );
    let large = VarType::Arr(Box::new(VarType::Fund(VarSize::Byte)), 1 << 63);
    let ty = VarType::Arr(Box::new(large), 2);
    assert_eq!(
        gen_arr_init_expr_tac(&ty, &Expr::ArrInitExpr(vec![]), p, &env(), &mut TacContext::new()),
        Err(CompileError::TypeTooLarge)
    );
    let fits = VarType::Arr(Box::new(VarType::Fund(VarSize::Byte)), (1 << 63) - 1);
    let ty = VarType::Arr(Box::new(fits), 2);
    assert_eq!(
        gen_arr_init_expr_tac(&ty, &Expr::ArrInitExpr(vec![num(1)]), p, &env(), &mut TacContext::new()),
        Ok(vec![
            TacInstr::DerefStore(p, lit(1)),
            TacInstr::BinOp(p, TacVal::Var(p), TacVal::Lit(i64::MAX, VarSize::Quad), BinOp::Plus),
        ])
    );
}

#[test]
fn sizes_of_types() {
    assert_eq!(VarSize::Byte.num_bytes(), 1);
    assert_eq!(VarSize::Word.num_bytes(), 2);
    assert_eq!(VarSize::Dword.num_bytes(), 4);
    assert_eq!(VarSize::Quad.num_bytes(), 8);
    assert_eq!(VarSize::default(), VarSize::Dword);
    assert_eq!(int_type().num_bytes(), Some(4));
    assert_eq!(VarType::Ptr(Box::new(VarType::Fund(VarSize::Byte))).num_bytes(), Some(8));
    assert_eq!(VarType::Arr(Box::new(int_type()), 10).num_bytes(), Some(40));
    assert_eq!(VarType::Arr(Box::new(int_type()), 0).num_bytes(), Some(0));
    let rows = VarType::Arr(Box::new(VarType::Arr(Box::new(VarType::Fund(VarSize::Word)), 3)), 5);
    assert_eq!(rows.num_bytes(), Some(30));
    let huge = VarType::Arr(Box::new(VarType::Fund(VarSize::Quad)), u64::MAX);
    assert_eq!(huge.num_bytes(), None);
    assert_eq!(VarType::Arr(Box::new(huge), 0).num_bytes(), Some(0));
    let huge = VarType::Arr(Box::new(VarType::Fund(VarSize::Quad)), u64::MAX);
    assert_eq!(VarType::Arr(Box::new(huge), 1).num_bytes(), None);
    assert_eq!(VarType::Arr(Box::new(VarType::Fund(VarSize::Byte)), u64::MAX).num_bytes(), Some(u64::MAX));
    assert_eq!(int_type().to_size(), VarSize::Dword);
    assert_eq!(VarType::Fund(VarSize::Byte).to_size(), VarSize::Byte);
    assert_eq!(VarType::Ptr(Box::new(VarType::Fund(VarSize::Byte))).to_size(), VarSize::Quad);
    assert_eq!(rows.to_size(), VarSize::Quad);
    assert_eq!(rows.duplicate(), rows);
    assert!(rows.same_as(&rows.duplicate()));
    assert!(!rows.same_as(&int_type()));
    assert!(!int_type().same_as(&VarType::Fund(VarSize::Quad)));
    assert!(!VarType::Arr(Box::new(int_type()), 2).same_as(&VarType::Arr(Box::new(int_type()), 3)));
    assert!(VarType::Ptr(Box::new(int_type())).same_as(&VarType::Ptr(Box::new(int_type()))));
}

#[test]
fn names_of_labels() {
    assert_eq!(make_label(LabelKind::AndFalse, 0), "label_and_false_0");
    assert_eq!(make_label(LabelKind::AndEnd, 1), "label_and_end_1");
    assert_eq!(make_label(LabelKind::OrTrue, 9), "label_or_true_9");
    assert_eq!(make_label(LabelKind::OrEnd, 10), "label_or_end_10");
    assert_eq!(make_label(LabelKind::TernaryFalse, 11), "label_ternary_false_11");
    assert_eq!(make_label(LabelKind::TernaryEnd, 99), "label_ternary_end_99");
    assert_eq!(make_label(LabelKind::IfElse, 100), "label_if_else_100");
    assert_eq!(make_label(LabelKind::IfEnd, 101), "label_if_end_101");
    assert_eq!(make_label(LabelKind::WhileStart, 1234567890), "label_while_start_1234567890");
    assert_eq!(make_label(LabelKind::WhileEnd, 7), "label_while_end_7");
    assert_eq!(make_label(LabelKind::ForStart, 20), "label_for_start_20");
    assert_eq!(make_label(LabelKind::ForPost, 12), "label_for_post_12");
    assert_eq!(make_label(LabelKind::ForEnd, u64::MAX), "label_for_end_18446744073709551615");
}

#[test]
fn decimal_text() {
    assert_eq!(numbered("x", 0), "x0");
    assert_eq!(numbered("", 907), "907");
    assert_eq!(numbered("n", 1000), "n1000");
    let mut s = "a".to_string();
    push_decimal(&mut s, 42);
    push_decimal(&mut s, 0);
    assert_eq!(s, "a420");
    for d in 0..10u64 {
        let c = digit_to_char(d);
        assert_eq!(c, char::from_digit(d as u32, 10).expect("a digit"));
        assert_eq!(char_to_digit(c), Some(d as u8));
    }
    assert_eq!(char_to_digit('a'), None);
    assert_eq!(char_to_digit('/'), None);
    assert_eq!(char_to_digit(':'), None);
    assert_eq!(char_to_digit('\u{661}'), None);
}

#[test]
fn reads_and_writes_of_instructions() {
    let x = a();
    let y = b();
    let z = wide();
    let cases: Vec<(TacInstr, Vec<Identifier>, Option<Identifier>)> = vec![
        (TacInstr::Exit(TacVal::Var(x)), vec![x], None),
        (TacInstr::Exit(lit(1)), vec![], None),
        (TacInstr::BinOp(z, TacVal::Var(x), TacVal::Var(y), BinOp::Plus), vec![x, y], Some(z)),
        (TacInstr::BinOp(x, TacVal::Var(x), lit(1), BinOp::Plus), vec![x], Some(x)),
        (TacInstr::BinOp(x, lit(1), TacVal::Var(y), BinOp::Plus), vec![y], Some(x)),
        (TacInstr::UnOp(y, TacVal::Var(x), UnOp::Negation), vec![x], Some(y)),
        (TacInstr::Copy(y, TacVal::Var(x)), vec![x], Some(y)),
        (TacInstr::Copy(y, lit(3)), vec![], Some(y)),
        (TacInstr::Label("l".to_string()), vec![], None),
        (TacInstr::Jmp("l".to_string()), vec![], None),
        (TacInstr::JmpZero("l".to_string(), TacVal::Var(z)), vec![z], None),
        (TacInstr::JmpNotZero("l".to_string(), TacVal::Var(y)), vec![y], None),
        (
            TacInstr::Call("f".to_string(), vec![TacVal::Var(y), lit(1), TacVal::Var(x), TacVal::Var(y)], Some(z)),
            vec![y, x, y],
            Some(z),
        ),
        (TacInstr::Call("f".to_string(), vec![], None), vec![], None),
        (TacInstr::DerefStore(z, TacVal::Var(x)), vec![z, x], None),
        (TacInstr::DerefStore(z, lit(0)), vec![z], None),
    ];
    for (instr, reads, written) in cases {
        assert_eq!(instr.get_read_identifiers(), reads);
        assert_eq!(instr.get_written_identifier(), written);
    }
}

#[test]
fn appending_instructions() {
    let mut code = vec![TacInstr::Exit(lit(0))];
    emit(&mut code, TacInstr::Exit(lit(1)));
    emit_all(&mut code, vec![TacInstr::Exit(lit(2)), TacInstr::Exit(lit(3))]);
    emit_all(&mut code, vec![]);
    assert_eq!(
        code,
        vec![
            TacInstr::Exit(lit(0)),
            TacInstr::Exit(lit(1)),
            TacInstr::Exit(lit(2)),
            TacInstr::Exit(lit(3)),
        ]
    );
}

#[test]
fn kinds_of_errors() {
    let cases = [
        (CompileError::UnrecognizedChar('@'), ErrorKind::LexError),
        (CompileError::UnexpectedToken(3), ErrorKind::ParseError),
        (CompileError::UnexpectedEnd, ErrorKind::ParseError),
        (CompileError::InvalidIntLiteral("9a".to_string()), ErrorKind::ParseError),
        (CompileError::UndeclaredVariable("x".to_string()), ErrorKind::SemanticError),
        (CompileError::BreakOutsideLoop, ErrorKind::SemanticError),
        (CompileError::ContinueOutsideLoop, ErrorKind::SemanticError),
        (CompileError::MisplacedArrayInit, ErrorKind::SemanticError),
        (CompileError::NotAnArray, ErrorKind::SemanticError),
        (CompileError::TypeTooLarge, ErrorKind::SemanticError),
        (CompileError::CounterExhausted, ErrorKind::InternalInvariant),
        (CompileError::ReadBeforeWrite(a()), ErrorKind::InternalInvariant),
        (CompileError::UnsupportedInstruction, ErrorKind::InternalInvariant),
        (CompileError::FrameTooLarge, ErrorKind::InternalInvariant),
    ];
    for (error, kind) in cases {
        assert_eq!(error.kind(), kind);
    }
}
