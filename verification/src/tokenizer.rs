//! The tokenizer: from source text to tokens.

pub mod operator;

use vstd::prelude::*;
use vstd::string::StrSliceExecFns;
use crate::errors::{CompileError, CompileErrorView};
use crate::parser::expr_parser::{BinOp, UnOp};
use crate::text::{char_to_digit, is_digit};
use crate::types::{VarSize, VarType};
use self::operator::{
    char_to_operator, chars_to_operator, double_operator, single_operator, Op,
};

verus! {

/// A token: the smallest piece of source text that has a meaning.
#[derive(Debug, PartialEq, Eq)]
pub enum Token {
    OpenParen,
    CloseParen,
    OpenBrace,
    CloseBrace,
    Semicolon,
    Comma,
    Colon,
    QuestionMark,
    /// An integer literal, as written.
    IntLit { val: String },
    /// A name.
    Identifier { val: String },
    Return,
    If,
    Else,
    While,
    For,
    Break,
    Continue,
    /// The name of a type.
    Type(VarType),
    AssignmentEquals,
    Op(Op),
}

/// The mathematical value of a [`Token`].
pub enum TokenView {
    OpenParen,
    CloseParen,
    OpenBrace,
    CloseBrace,
    Semicolon,
    Comma,
    Colon,
    QuestionMark,
    IntLit { val: Seq<char> },
    Identifier { val: Seq<char> },
    Return,
    If,
    Else,
    While,
    For,
    Break,
    Continue,
    Type(VarType),
    AssignmentEquals,
    Op(Op),
}

impl View for Token {
    type V = TokenView;

    open spec fn view(&self) -> TokenView {
        match self {
            Token::OpenParen => TokenView::OpenParen,
            Token::CloseParen => TokenView::CloseParen,
            Token::OpenBrace => TokenView::OpenBrace,
            Token::CloseBrace => TokenView::CloseBrace,
            Token::Semicolon => TokenView::Semicolon,
            Token::Comma => TokenView::Comma,
            Token::Colon => TokenView::Colon,
            Token::QuestionMark => TokenView::QuestionMark,
            Token::IntLit { val } => TokenView::IntLit { val: val@ },
            Token::Identifier { val } => TokenView::Identifier { val: val@ },
            Token::Return => TokenView::Return,
            Token::If => TokenView::If,
            Token::Else => TokenView::Else,
            Token::While => TokenView::While,
            Token::For => TokenView::For,
            Token::Break => TokenView::Break,
            Token::Continue => TokenView::Continue,
            Token::Type(t) => TokenView::Type(*t),
            Token::AssignmentEquals => TokenView::AssignmentEquals,
            Token::Op(op) => TokenView::Op(*op),
        }
    }
}

/// The mathematical value of a list of tokens.
pub open spec fn tokens_view(tokens: Seq<Token>) -> Seq<TokenView> {
    tokens.map_values(|t: Token| t@)
}

/// The additive operator that a token writes, if it writes one.
pub open spec fn plus_minus_of(t: TokenView) -> Option<BinOp> {
    match t {
        TokenView::Op(Op::Minus) => Some(BinOp::Minus),
        TokenView::Op(Op::Plus) => Some(BinOp::Plus),
        _ => None,
    }
}

/// The multiplicative operator that a token writes, if it writes one.
pub open spec fn mul_div_of(t: TokenView) -> Option<BinOp> {
    match t {
        TokenView::Op(Op::Slash) => Some(BinOp::Divide),
        TokenView::Op(Op::Star) => Some(BinOp::Multiply),
        TokenView::Op(Op::Percent) => Some(BinOp::Modulus),
        _ => None,
    }
}

/// The unary operator that a token writes, if it writes one.
pub open spec fn un_op_of(t: TokenView) -> Option<UnOp> {
    match t {
        TokenView::Op(Op::Minus) => Some(UnOp::Negation),
        TokenView::Op(Op::BitwiseComplement) => Some(UnOp::BitwiseComplement),
        TokenView::Op(Op::Not) => Some(UnOp::LogicalNot),
        _ => None,
    }
}

impl Token {
    /// The additive operator that the token writes, if it writes one.
    pub fn to_plus_minus(&self) -> (op: Option<BinOp>)
        ensures
            op == plus_minus_of(self@),
    {
        match self {
            Token::Op(Op::Minus) => Some(BinOp::Minus),
            Token::Op(Op::Plus) => Some(BinOp::Plus),
            _ => None,
        }
    }

    /// The multiplicative operator that the token writes, if it writes one.
    pub fn to_mul_div(&self) -> (op: Option<BinOp>)
        ensures
            op == mul_div_of(self@),
    {
        match self {
            Token::Op(Op::Slash) => Some(BinOp::Divide),
            Token::Op(Op::Star) => Some(BinOp::Multiply),
            Token::Op(Op::Percent) => Some(BinOp::Modulus),
            _ => None,
        }
    }

    /// The unary operator that the token writes, if it writes one.
    pub fn to_un_op(&self) -> (op: Option<UnOp>)
        ensures
            op == un_op_of(self@),
    {
        match self {
            Token::Op(Op::Minus) => Some(UnOp::Negation),
            Token::Op(Op::BitwiseComplement) => Some(UnOp::BitwiseComplement),
            Token::Op(Op::Not) => Some(UnOp::LogicalNot),
            _ => None,
        }
    }
}

// ---------------------------------------------------------------------
// What the tokens of a text are
// ---------------------------------------------------------------------

/// Whether the character separates tokens without being one.
pub open spec fn is_space(c: char) -> bool {
    c == ' ' || c == '\t' || c == '\n' || c == '\r' || c as u32 == 0x0c
}

/// Whether the character is a letter of the Latin alphabet.
pub open spec fn is_alpha(c: char) -> bool {
    0x41 <= c as u32 <= 0x5a || 0x61 <= c as u32 <= 0x7a
}

/// Whether the character is a letter or a digit.
pub open spec fn is_alnum(c: char) -> bool {
    is_alpha(c) || is_digit(c)
}

/// The index behind the longest run of letters and digits that starts at
/// index `i`.
pub open spec fn run_end(s: Seq<char>, i: int) -> int
    decreases s.len() - i,
{
    if 0 <= i < s.len() && is_alnum(s[i]) {
        run_end(s, i + 1)
    } else {
        i
    }
}

/// The index behind the end of the line that index `i` is on.
pub open spec fn line_end(s: Seq<char>, i: int) -> int
    decreases s.len() - i,
{
    if 0 <= i < s.len() {
        if s[i] == '\n' {
            i + 1
        } else {
            line_end(s, i + 1)
        }
    } else {
        i
    }
}

/// A run ends at or behind its start, and within the text.
pub proof fn lemma_run_end_bounds(s: Seq<char>, i: int)
    requires
        0 <= i <= s.len(),
    ensures
        i <= run_end(s, i) <= s.len(),
    decreases s.len() - i,
{
    if i < s.len() && is_alnum(s[i]) {
        lemma_run_end_bounds(s, i + 1);
    }
}

/// A line ends behind each of its characters, and within the text.
pub proof fn lemma_line_end_bounds(s: Seq<char>, i: int)
    requires
        0 <= i < s.len(),
    ensures
        i < line_end(s, i) <= s.len(),
    decreases s.len() - i,
{
    if s[i] != '\n' {
        if i + 1 < s.len() {
            lemma_line_end_bounds(s, i + 1);
        } else {
            assert(line_end(s, i + 1) == i + 1);
        }
    }
}

/// The token that a word is: a keyword, the name of a type, or else a
/// name.
pub open spec fn word_token(w: Seq<char>) -> TokenView {
    if w == "return"@ {
        TokenView::Return
    } else if w == "if"@ {
        TokenView::If
    } else if w == "else"@ {
        TokenView::Else
    } else if w == "while"@ {
        TokenView::While
    } else if w == "for"@ {
        TokenView::For
    } else if w == "break"@ {
        TokenView::Break
    } else if w == "continue"@ {
        TokenView::Continue
    } else if w == "int"@ {
        TokenView::Type(VarType::Fund(VarSize::Dword))
    } else {
        TokenView::Identifier { val: w }
    }
}

/// The punctuation mark that the character writes, if it writes one.
pub open spec fn punctuation(c: char) -> Option<TokenView> {
    if c == '{' {
        Some(TokenView::OpenBrace)
    } else if c == '}' {
        Some(TokenView::CloseBrace)
    } else if c == '(' {
        Some(TokenView::OpenParen)
    } else if c == ')' {
        Some(TokenView::CloseParen)
    } else if c == ';' {
        Some(TokenView::Semicolon)
    } else if c == ',' {
        Some(TokenView::Comma)
    } else if c == ':' {
        Some(TokenView::Colon)
    } else if c == '?' {
        Some(TokenView::QuestionMark)
    } else {
        None
    }
}

/// The token made of punctuation or operator characters that starts at
/// index `i`, and the number of characters it takes: two where two
/// characters write one operator, else one.
pub open spec fn symbol_at(s: Seq<char>, i: int) -> Option<(TokenView, int)> {
    if i + 1 < s.len() && double_operator(s[i], s[i + 1]) is Some {
        Some((TokenView::Op(double_operator(s[i], s[i + 1])->0), 2))
    } else if punctuation(s[i]) is Some {
        Some((punctuation(s[i])->0, 1))
    } else if s[i] == '=' {
        Some((TokenView::AssignmentEquals, 1))
    } else if single_operator(s[i]) is Some {
        Some((TokenView::Op(single_operator(s[i])->0), 1))
    } else {
        None
    }
}

/// A token followed by the tokens of the rest, if the rest has tokens.
pub open spec fn token_then(
    t: TokenView,
    rest: Result<Seq<TokenView>, CompileErrorView>,
) -> Result<Seq<TokenView>, CompileErrorView> {
    match rest {
        Ok(ts) => Ok(seq![t] + ts),
        Err(e) => Err(e),
    }
}

/// The tokens of the text from index `i` on. A comment runs from `//` to
/// the end of its line and counts as space; a word is a longest run of
/// letters and digits, and is an integer literal if it starts with a
/// digit. It is an error if a character starts no token.
pub open spec fn lex_from(s: Seq<char>, i: int) -> Result<Seq<TokenView>, CompileErrorView>
    decreases s.len() - i,
{
    if i < 0 || i >= s.len() {
        Ok(Seq::empty())
    } else if s[i] == '/' && i + 1 < s.len() && s[i + 1] == '/' {
        proof {
            lemma_line_end_bounds(s, i);
        }
        lex_from(s, line_end(s, i))
    } else if is_space(s[i]) {
        lex_from(s, i + 1)
    } else if is_digit(s[i]) {
        proof {
            lemma_run_end_bounds(s, i + 1);
        }
        token_then(
            TokenView::IntLit { val: s.subrange(i, run_end(s, i)) },
            lex_from(s, run_end(s, i)),
        )
    } else if is_alpha(s[i]) {
        proof {
            lemma_run_end_bounds(s, i + 1);
        }
        token_then(word_token(s.subrange(i, run_end(s, i))), lex_from(s, run_end(s, i)))
    } else {
        match symbol_at(s, i) {
            Some((t, n)) => token_then(t, lex_from(s, i + n)),
            None => Err(CompileErrorView::UnrecognizedChar(s[i])),
        }
    }
}

/// The tokens of a text.
pub open spec fn lex(s: Seq<char>) -> Result<Seq<TokenView>, CompileErrorView> {
    lex_from(s, 0)
}


// ---------------------------------------------------------------------
// The tokenizer
// ---------------------------------------------------------------------

/// The characters of a text, in order.
pub fn chars_of(s: &str) -> (v: Vec<char>)
    ensures
        v@ == s@,
{
    let mut v: Vec<char> = Vec::new();
    for c in iter: s.chars()
        invariant
            iter.seq() == s@,
            v@ == iter.seq().take(iter.index() as int),
    {
        v.push(c);
        assert(iter.seq().take(iter.index() + 1) =~= iter.seq().take(iter.index() as int).push(c));
    }
    assert(s@.take(s@.len() as int) =~= s@);
    v
}

/// A place in a source text. The text is held twice: as a string, from
/// which words are cut, and as its characters, which are looked at one by
/// one. A well-formed cursor holds the same text in both.
pub struct SourceCodeCursor {
    text: String,
    contents: Vec<char>,
    index: usize,
}

/// The mathematical value of a [`SourceCodeCursor`]: the text, which is
/// one for a well-formed cursor, and the index of the next character.
pub struct SourceCodeCursorView {
    pub contents: Seq<char>,
    pub index: int,
}

impl View for SourceCodeCursor {
    type V = SourceCodeCursorView;

    closed spec fn view(&self) -> SourceCodeCursorView {
        SourceCodeCursorView { contents: self.contents@, index: self.index as int }
    }
}

impl SourceCodeCursor {
    /// The cursor is within its text or at its end, and its string and
    /// its characters are the same text.
    pub closed spec fn wf(&self) -> bool {
        &&& self.index <= self.contents@.len()
        &&& self.contents@ == self.text@
    }

    /// A cursor at the start of a text.
    pub fn new(contents: String) -> (cursor: SourceCodeCursor)
        ensures
            cursor.wf(),
            cursor@.contents == contents@,
            cursor@.index == 0,
    {
        let chars = chars_of(contents.as_str());
        SourceCodeCursor { text: contents, contents: chars, index: 0 }
    }

    /// The next character, if there is one.
    pub fn peek(&self) -> (c: Option<&char>)
        requires
            self.wf(),
        ensures
            match c {
                Some(x) => self@.index < self@.contents.len() && *x == self@.contents[self@.index],
                None => self@.index >= self@.contents.len(),
            },
    {
        if self.index < self.contents.len() {
            Some(&self.contents[self.index])
        } else {
            None
        }
    }

    /// The character `n - 1` places after the next one, if there is one:
    /// `peek_nth(1)` is `peek()`.
    pub fn peek_nth(&self, n: usize) -> (c: Option<&char>)
        requires
            self.wf(),
            n >= 1,
        ensures
            match c {
                Some(x) => self@.index + n - 1 < self@.contents.len() && *x
                    == self@.contents[self@.index + n - 1],
                None => self@.index + n - 1 >= self@.contents.len(),
            },
    {
        if n - 1 < self.contents.len() - self.index {
            Some(&self.contents[self.index + (n - 1)])
        } else {
            None
        }
    }

    /// The next character, if there is one; the cursor moves behind it.
    pub fn next(&mut self) -> (c: Option<&char>)
        requires
            old(self).wf(),
        ensures
            final(self).wf(),
            final(self)@.contents == old(self)@.contents,
            match c {
                Some(x) => old(self)@.index < old(self)@.contents.len() && *x == old(
                    self,
                )@.contents[old(self)@.index] && final(self)@.index == old(self)@.index + 1,
                None => old(self)@.index >= old(self)@.contents.len() && final(self)@.index == old(
                    self,
                )@.index,
            },
    {
        if self.index < self.contents.len() {
            self.index = self.index + 1;
            Some(&self.contents[self.index - 1])
        } else {
            None
        }
    }
}

/// Whether the character separates tokens without being one.
pub fn is_whitespace(c: char) -> (b: bool)
    ensures
        b == is_space(c),
{
    c == ' ' || c == '\t' || c == '\n' || c == '\r' || c as u32 == 0x0c
}

/// Whether the character is a letter of the Latin alphabet.
pub fn is_alphabetic(c: char) -> (b: bool)
    ensures
        b == is_alpha(c),
{
    let n: u32 = c as u32;
    (0x41 <= n && n <= 0x5a) || (0x61 <= n && n <= 0x7a)
}

/// Whether the character is a letter or a digit.
pub fn is_alphanumeric(c: char) -> (b: bool)
    ensures
        b == is_alnum(c),
{
    is_alphabetic(c) || char_to_digit(c).is_some()
}

fn text_is(s: &String, word: &str) -> (b: bool)
    ensures
        b == (s@ == word@),
{
    let w = word.to_owned();
    *s == w
}

/// Makes the token that a word is.
pub fn word_to_token(val: String) -> (t: Token)
    ensures
        t@ == word_token(val@),
{
    if text_is(&val, "return") {
        Token::Return
    } else if text_is(&val, "if") {
        Token::If
    } else if text_is(&val, "else") {
        Token::Else
    } else if text_is(&val, "while") {
        Token::While
    } else if text_is(&val, "for") {
        Token::For
    } else if text_is(&val, "break") {
        Token::Break
    } else if text_is(&val, "continue") {
        Token::Continue
    } else if text_is(&val, "int") {
        Token::Type(VarType::Fund(VarSize::Dword))
    } else {
        Token::Identifier { val }
    }
}

fn punctuation_token(c: char) -> (t: Option<Token>)
    ensures
        match t {
            Some(tok) => punctuation(c) == Some(tok@),
            None => punctuation(c) is None,
        },
{
    if c == '{' {
        Some(Token::OpenBrace)
    } else if c == '}' {
        Some(Token::CloseBrace)
    } else if c == '(' {
        Some(Token::OpenParen)
    } else if c == ')' {
        Some(Token::CloseParen)
    } else if c == ';' {
        Some(Token::Semicolon)
    } else if c == ',' {
        Some(Token::Comma)
    } else if c == ':' {
        Some(Token::Colon)
    } else if c == '?' {
        Some(Token::QuestionMark)
    } else {
        None
    }
}

impl SourceCodeCursor {
    /// Reads the longest run of letters and digits at the cursor.
    pub fn read_word(&mut self) -> (val: String)
        requires
            old(self).wf(),
        ensures
            final(self).wf(),
            final(self)@.contents == old(self)@.contents,
            final(self)@.index == run_end(old(self)@.contents, old(self)@.index),
            val@ == old(self)@.contents.subrange(old(self)@.index, final(self)@.index),
    {
        let ghost s = self@.contents;
        let start = self.index;
        loop
            invariant
                self.wf(),
                self@.contents == s,
                0 <= start <= self@.index <= s.len(),
                run_end(s, start as int) == run_end(s, self@.index),
            ensures
                self@.index == run_end(s, start as int),
            decreases s.len() - self@.index,
        {
            match self.peek() {
                Some(c) => {
                    if !is_alphanumeric(*c) {
                        break;
                    }
                    self.next();
                },
                None => {
                    break;
                },
            }
        }
        self.text.as_str().substring_char(start, self.index).to_owned()
    }
}

/// Moves the cursor behind the end of the line it is on.
fn skip_line(cursor: &mut SourceCodeCursor)
    requires
        old(cursor).wf(),
    ensures
        final(cursor).wf(),
        final(cursor)@.contents == old(cursor)@.contents,
        final(cursor)@.index == line_end(old(cursor)@.contents, old(cursor)@.index),
{
    let ghost s = cursor@.contents;
    let ghost start = cursor@.index;
    loop
        invariant_except_break
            line_end(s, start) == line_end(s, cursor@.index),
        invariant
            cursor.wf(),
            cursor@.contents == s,
        ensures
            cursor@.index == line_end(s, start),
        decreases s.len() - cursor@.index,
    {
        match cursor.next() {
            Some(c) => {
                if *c == '\n' {
                    break;
                }
            },
            None => {
                break;
            },
        }
    }
}

/// Reads the token made of punctuation or operator characters at the
/// cursor, if there is one.
fn read_symbol(cursor: &mut SourceCodeCursor) -> (t: Option<Token>)
    requires
        old(cursor).wf(),
        old(cursor)@.index < old(cursor)@.contents.len(),
    ensures
        final(cursor).wf(),
        final(cursor)@.contents == old(cursor)@.contents,
        match symbol_at(old(cursor)@.contents, old(cursor)@.index) {
            Some((tok, n)) => t matches Some(x) && x@ == tok && final(cursor)@.index == old(
                cursor,
            )@.index + n,
            None => t is None,
        },
{
    let c = match cursor.peek() {
        Some(c) => *c,
        None => {
            return None;
        },
    };
    let follow = match cursor.peek_nth(2) {
        Some(d) => chars_to_operator(c, *d),
        None => None,
    };
    match follow {
        Some(op) => {
            cursor.next();
            cursor.next();
            return Some(Token::Op(op));
        },
        None => {},
    }
    match punctuation_token(c) {
        Some(tok) => {
            cursor.next();
            return Some(tok);
        },
        None => {},
    }
    if c == '=' {
        cursor.next();
        return Some(Token::AssignmentEquals);
    }
    match char_to_operator(&c) {
        Some(op) => {
            cursor.next();
            Some(Token::Op(op))
        },
        None => None,
    }
}

/// The tokens read so far, followed by the tokens of the rest.
pub open spec fn tokens_then(
    done: Seq<TokenView>,
    rest: Result<Seq<TokenView>, CompileErrorView>,
) -> Result<Seq<TokenView>, CompileErrorView> {
    match rest {
        Ok(ts) => Ok(done + ts),
        Err(e) => Err(e),
    }
}

/// The mathematical value of what the tokenizer returns.
pub open spec fn lexed_view(res: Result<Vec<Token>, CompileError>) -> Result<
    Seq<TokenView>,
    CompileErrorView,
> {
    match res {
        Ok(tokens) => Ok(tokens_view(tokens@)),
        Err(e) => Err(e@),
    }
}

/// Splits a source text into tokens. Fails at the first character that
/// starts no token.
pub fn get_tokens(source_code_contents: String) -> (res: Result<Vec<Token>, CompileError>)
    ensures
        lexed_view(res) == lex(source_code_contents@),
{
    let mut cursor = SourceCodeCursor::new(source_code_contents);
    let ghost s = cursor@.contents;
    let mut tokens: Vec<Token> = Vec::new();
    assert(tokens_view(tokens@) =~= Seq::<TokenView>::empty());
    assert(tokens_then(Seq::empty(), lex_from(s, 0)) == lex_from(s, 0)) by {
        if let Ok(ts) = lex_from(s, 0) {
            assert(Seq::<TokenView>::empty() + ts =~= ts);
        }
    }

    loop
        invariant
            cursor.wf(),
            cursor@.contents == s,
            s == source_code_contents@,
            lex_from(s, 0) == tokens_then(tokens_view(tokens@), lex_from(s, cursor@.index)),
        ensures
            cursor@.index >= s.len(),
        decreases s.len() - cursor@.index,
    {
        let next_char = match cursor.peek() {
            Some(c) => *c,
            None => {
                break;
            },
        };
        let ghost i = cursor@.index;
        let ghost done = tokens_view(tokens@);
        let comment = next_char == '/' && match cursor.peek_nth(2) {
            Some(d) => *d == '/',
            None => false,
        };
        if comment {
            proof {
                lemma_line_end_bounds(s, i);
            }
            skip_line(&mut cursor);
        } else if is_whitespace(next_char) {
            cursor.next();
        } else if char_to_digit(next_char).is_some() {
            proof {
                lemma_run_end_bounds(s, i + 1);
            }
            let val = cursor.read_word();
            let token = Token::IntLit { val };
            proof {
                lemma_tokens_then_push(done, token@, lex_from(s, cursor@.index));
            }
            tokens.push(token);
            assert(tokens_view(tokens@) =~= done.push(token@));
        } else if is_alphabetic(next_char) {
            proof {
                lemma_run_end_bounds(s, i + 1);
            }
            let val = cursor.read_word();
            let token = word_to_token(val);
            proof {
                lemma_tokens_then_push(done, token@, lex_from(s, cursor@.index));
            }
            tokens.push(token);
            assert(tokens_view(tokens@) =~= done.push(token@));
        } else {
            match read_symbol(&mut cursor) {
                Some(token) => {
                    proof {
                        lemma_tokens_then_push(done, token@, lex_from(s, cursor@.index));
                    }
                    tokens.push(token);
                    assert(tokens_view(tokens@) =~= done.push(token@));
                },
                None => {
                    return Err(CompileError::UnrecognizedChar(next_char));
                },
            }
        }
    }
    proof {
        let done = tokens_view(tokens@);
        assert(done + Seq::<TokenView>::empty() =~= done);
    }
    Ok(tokens)
}

/// Reading one more token moves it from the rest to the tokens read.
pub proof fn lemma_tokens_then_push(
    done: Seq<TokenView>,
    t: TokenView,
    rest: Result<Seq<TokenView>, CompileErrorView>,
)
    ensures
        tokens_then(done, token_then(t, rest)) == tokens_then(done.push(t), rest),
{
    if let Ok(ts) = rest {
        assert(done + (seq![t] + ts) =~= done.push(t) + ts);
    }
}

} // verus!
