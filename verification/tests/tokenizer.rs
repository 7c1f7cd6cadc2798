//! The tokenizer.

use tcc::errors::CompileError;
use tcc::parser::expr_parser::{BinOp, BinOpPrecedenceLevel, UnOp};
use tcc::tokenizer::operator::{char_to_operator, chars_to_operator, is_operator, Op};
use tcc::tokenizer::{
    chars_of, get_tokens, is_alphabetic, is_alphanumeric, is_whitespace, word_to_token,
    SourceCodeCursor, Token,
};
use tcc::types::{VarSize, VarType};

fn ident(name: &str) -> Token {
    Token::Identifier { val: name.to_string() }
}

fn int_lit(text: &str) -> Token {
    Token::IntLit { val: text.to_string() }
}

fn int_type() -> Token {
    Token::Type(VarType::Fund(VarSize::Dword))
}

#[test]
fn tokens_of_a_small_program() {
    assert_eq!(
        get_tokens("int main() { return 2; }".to_string()),
        Ok(vec![
            int_type(),
            ident("main"),
            Token::OpenParen,
            Token::CloseParen,
            Token::OpenBrace,
            Token::Return,
            int_lit("2"),
            Token::Semicolon,
            Token::CloseBrace,
        ])
    );
}

#[test]
fn empty_text_has_no_tokens() {
    assert_eq!(get_tokens(String::new()), Ok(vec![]));
    assert_eq!(get_tokens(" \t\r\n\u{c}".to_string()), Ok(vec![]));
}

#[test]
fn punctuation_marks() {
    assert_eq!(
        get_tokens("(){};,:?".to_string()),
        Ok(vec![
            Token::OpenParen,
            Token::CloseParen,
            Token::OpenBrace,
            Token::CloseBrace,
            Token::Semicolon,
            Token::Comma,
            Token::Colon,
            Token::QuestionMark,
        ])
    );
}

#[test]
fn keywords_and_names() {
    assert_eq!(
        get_tokens("return if else while for break continue int returns iff x1 Int".to_string()),
        Ok(vec![
            Token::Return,
            Token::If,
            Token::Else,
            Token::While,
            Token::For,
            Token::Break,
            Token::Continue,
            int_type(),
            ident("returns"),
            ident("iff"),
            ident("x1"),
            ident("Int"),
        ])
    );
}

#[test]
fn operators_of_one_character() {
    assert_eq!(
        get_tokens("+ - * / % ! ~ < > =".to_string()),
        Ok(vec![
            Token::Op(Op::Plus),
            Token::Op(Op::Minus),
            Token::Op(Op::Star),
            Token::Op(Op::Slash),
            Token::Op(Op::Percent),
            Token::Op(Op::Not),
            Token::Op(Op::BitwiseComplement),
            Token::Op(Op::LessThan),
            Token::Op(Op::GreaterThan),
            Token::AssignmentEquals,
        ])
    );
}

#[test]
fn operators_of_two_characters() {
    assert_eq!(
        get_tokens("++ -- += -= == != <= >= && ||".to_string()),
        Ok(vec![
            Token::Op(Op::PlusPlus),
            Token::Op(Op::MinusMinus),
            Token::Op(Op::PlusEquals),
            Token::Op(Op::MinusEquals),
            Token::Op(Op::DoubleEquals),
            Token::Op(Op::NotEquals),
            Token::Op(Op::LessThanEq),
            Token::Op(Op::GreaterThanEq),
            Token::Op(Op::AndAnd),
            Token::Op(Op::OrOr),
        ])
    );
}

#[test]
fn two_characters_are_taken_together_first() {
    assert_eq!(
        get_tokens("a+++b".to_string()),
        Ok(vec![ident("a"), Token::Op(Op::PlusPlus), Token::Op(Op::Plus), ident("b")])
    );
    assert_eq!(
        get_tokens("a===b".to_string()),
        Ok(vec![ident("a"), Token::Op(Op::DoubleEquals), Token::AssignmentEquals, ident("b")])
    );
    assert_eq!(
        get_tokens("a<-b".to_string()),
        Ok(vec![ident("a"), Token::Op(Op::LessThan), Token::Op(Op::Minus), ident("b")])
    );
}

#[test]
fn tokens_need_no_space_between_them() {
    assert_eq!(
        get_tokens("x=y+12;".to_string()),
        Ok(vec![
            ident("x"),
            Token::AssignmentEquals,
            ident("y"),
            Token::Op(Op::Plus),
            int_lit("12"),
            Token::Semicolon,
        ])
    );
}

#[test]
fn a_word_that_starts_with_a_digit_is_a_literal() {
    assert_eq!(get_tokens("12ab 007".to_string()), Ok(vec![int_lit("12ab"), int_lit("007")]));
}

#[test]
fn a_comment_runs_to_the_end_of_its_line() {
    assert_eq!(
        get_tokens("a // b c\nd".to_string()),
        Ok(vec![ident("a"), ident("d")])
    );
    assert_eq!(get_tokens("a // the end".to_string()), Ok(vec![ident("a")]));
    assert_eq!(get_tokens("//\n//x\n".to_string()), Ok(vec![]));
    assert_eq!(get_tokens("a //@ not read\n".to_string()), Ok(vec![ident("a")]));
}

#[test]
fn one_slash_divides() {
    assert_eq!(
        get_tokens("a / b".to_string()),
        Ok(vec![ident("a"), Token::Op(Op::Slash), ident("b")])
    );
    assert_eq!(get_tokens("/".to_string()), Ok(vec![Token::Op(Op::Slash)]));
}

#[test]
fn a_character_that_starts_no_token_is_an_error() {
    assert_eq!(get_tokens("a @ b".to_string()), Err(CompileError::UnrecognizedChar('@')));
    assert_eq!(get_tokens("a & b".to_string()), Err(CompileError::UnrecognizedChar('&')));
    assert_eq!(get_tokens("a | b".to_string()), Err(CompileError::UnrecognizedChar('|')));
    assert_eq!(get_tokens("_a".to_string()), Err(CompileError::UnrecognizedChar('_')));
    assert_eq!(get_tokens("caf\u{e9}".to_string()), Err(CompileError::UnrecognizedChar('\u{e9}')));
    assert_eq!(get_tokens("#".to_string()), Err(CompileError::UnrecognizedChar('#')));
}

#[test]
fn the_first_bad_character_is_reported() {
    assert_eq!(get_tokens("a $ b @".to_string()), Err(CompileError::UnrecognizedChar('$')));
}

#[test]
fn additive_operators_of_tokens() {
    assert_eq!(Token::Op(Op::Plus).to_plus_minus(), Some(BinOp::Plus));
    assert_eq!(Token::Op(Op::Minus).to_plus_minus(), Some(BinOp::Minus));
    assert_eq!(Token::Op(Op::Star).to_plus_minus(), None);
    assert_eq!(Token::Semicolon.to_plus_minus(), None);
}

#[test]
fn multiplicative_operators_of_tokens() {
    assert_eq!(Token::Op(Op::Star).to_mul_div(), Some(BinOp::Multiply));
    assert_eq!(Token::Op(Op::Slash).to_mul_div(), Some(BinOp::Divide));
    assert_eq!(Token::Op(Op::Percent).to_mul_div(), Some(BinOp::Modulus));
    assert_eq!(Token::Op(Op::Plus).to_mul_div(), None);
    assert_eq!(ident("x").to_mul_div(), None);
}

#[test]
fn unary_operators_of_tokens() {
    assert_eq!(Token::Op(Op::Minus).to_un_op(), Some(UnOp::Negation));
    assert_eq!(Token::Op(Op::BitwiseComplement).to_un_op(), Some(UnOp::BitwiseComplement));
    assert_eq!(Token::Op(Op::Not).to_un_op(), Some(UnOp::LogicalNot));
    assert_eq!(Token::Op(Op::Plus).to_un_op(), None);
    assert_eq!(Token::OpenParen.to_un_op(), None);
}

#[test]
fn binary_operators_belong_to_one_level_each() {
    let levels = [
        BinOpPrecedenceLevel::MulDiv,
        BinOpPrecedenceLevel::AddSub,
        BinOpPrecedenceLevel::OrderingCmp,
        BinOpPrecedenceLevel::EqCmp,
        BinOpPrecedenceLevel::LogicalAnd,
        BinOpPrecedenceLevel::LogicalOr,
    ];
    let cases = [
        (Op::Star, 0, BinOp::Multiply),
        (Op::Slash, 0, BinOp::Divide),
        (Op::Percent, 0, BinOp::Modulus),
        (Op::Plus, 1, BinOp::Plus),
        (Op::Minus, 1, BinOp::Minus),
        (Op::LessThan, 2, BinOp::LessThan),
        (Op::LessThanEq, 2, BinOp::LessThanEq),
        (Op::GreaterThan, 2, BinOp::GreaterThan),
        (Op::GreaterThanEq, 2, BinOp::GreaterThanEq),
        (Op::DoubleEquals, 3, BinOp::Equals),
        (Op::NotEquals, 3, BinOp::NotEquals),
        (Op::AndAnd, 4, BinOp::LogicalAnd),
        (Op::OrOr, 5, BinOp::LogicalOr),
    ];
    for (op, at, expected) in cases {
        for (i, level) in levels.iter().enumerate() {
            let found = Token::Op(op).to_binop_precedence_level(*level);
            if i == at {
                assert_eq!(found, Some(expected));
            } else {
                assert_eq!(found, None);
            }
        }
    }
    assert_eq!(Token::Op(Op::Not).to_binop_precedence_level(BinOpPrecedenceLevel::MulDiv), None);
    assert_eq!(Token::Comma.to_binop_precedence_level(BinOpPrecedenceLevel::LogicalOr), None);
}

#[test]
fn operators_from_characters() {
    assert!(is_operator(&'+'));
    assert!(is_operator(&'~'));
    assert!(!is_operator(&'='));
    assert!(!is_operator(&'a'));
    assert_eq!(char_to_operator(&'%'), Some(Op::Percent));
    assert_eq!(char_to_operator(&'('), None);
    assert_eq!(chars_to_operator('&', '&'), Some(Op::AndAnd));
    assert_eq!(chars_to_operator('&', '|'), None);
    assert_eq!(chars_to_operator('=', '='), Some(Op::DoubleEquals));
    assert_eq!(chars_to_operator('=', '+'), None);
}

#[test]
fn kinds_of_characters() {
    for c in ['a', 'z', 'A', 'Z', 'm'] {
        assert!(is_alphabetic(c));
        assert!(is_alphanumeric(c));
    }
    for c in ['0', '9', '5'] {
        assert!(!is_alphabetic(c));
        assert!(is_alphanumeric(c));
    }
    for c in ['@', '[', '`', '{', '_', ' ', '/', ':', '\u{e9}'] {
        assert!(!is_alphabetic(c));
        assert!(!is_alphanumeric(c));
    }
    for c in [' ', '\t', '\n', '\r', '\u{c}'] {
        assert!(is_whitespace(c));
    }
    for c in ['a', '0', '\u{b}', '\u{a0}'] {
        assert!(!is_whitespace(c));
    }
}

#[test]
fn words_become_keywords_or_names() {
    assert_eq!(word_to_token("while".to_string()), Token::While);
    assert_eq!(word_to_token("int".to_string()), int_type());
    assert_eq!(word_to_token("integer".to_string()), ident("integer"));
    assert_eq!(word_to_token("While".to_string()), ident("While"));
}

#[test]
fn characters_of_a_text() {
    assert_eq!(chars_of("a\u{e9}b"), vec!['a', '\u{e9}', 'b']);
    assert_eq!(chars_of(""), Vec::<char>::new());
}

#[test]
fn source_cursor_walks_the_text() {
    let mut cursor = SourceCodeCursor::new("ab".to_string());
    assert_eq!(cursor.peek(), Some(&'a'));
    assert_eq!(cursor.peek_nth(1), Some(&'a'));
    assert_eq!(cursor.peek_nth(2), Some(&'b'));
    assert_eq!(cursor.peek_nth(3), None);
    assert_eq!(cursor.peek_nth(usize::MAX), None);
    assert_eq!(cursor.next(), Some(&'a'));
    assert_eq!(cursor.peek(), Some(&'b'));
    assert_eq!(cursor.next(), Some(&'b'));
    assert_eq!(cursor.peek(), None);
    assert_eq!(cursor.next(), None);
    assert_eq!(cursor.next(), None);
    assert_eq!(cursor.peek_nth(1), None);
}
