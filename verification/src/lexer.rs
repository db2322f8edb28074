//! Tokens and the lexer.
//!
//! The lexer walks a byte buffer and hands out one token per call to
//! [`Lexer::next_token`]. Its behaviour is specified by
//! [`spec_next_token`], a pure function from the input bytes and the
//! current position to the token produced and the position after it.

use vstd::prelude::*;
use vstd::string::StrSliceExecFns;
use vstd::string::StringExecFns;
use vstd::string::StringSliceAdditionalSpecFns;
use crate::strutil::push_char;

verus! {

#[derive(Debug, PartialEq, Eq, Copy, Clone, Structural)]
pub enum TokenType {
    Illegal,
    Eof,
    // Identifiers + literals
    Ident,
    Int,
    // Operators
    Assign,
    Plus,
    Minus,
    Bang,
    Asterisk,
    Slash,
    Lt,
    Gt,
    // Delimiters
    Comma,
    Semicolon,
    Lparen,
    Rparen,
    Lbrace,
    Rbrace,
    // Keywords
    Function,
    Let,
    If,
    Else,
    True,
    False,
    Return,
    Eq,
    NotEq,
}

/// The mathematical model of a token: its kind and its literal text.
pub struct TokenV {
    pub tk_type: TokenType,
    pub literal: Seq<char>,
}

#[derive(Debug)]
pub struct Token {
    pub tk_type: TokenType,
    pub literal: String,
}

impl View for Token {
    type V = TokenV;

    open spec fn view(&self) -> TokenV {
        TokenV { tk_type: self.tk_type, literal: self.literal@ }
    }
}

impl Clone for Token {
    fn clone(&self) -> (res: Token)
        ensures
            res == *self,
    {
        Token { tk_type: self.tk_type, literal: self.literal.clone() }
    }
}

/// Which token type an identifier's text denotes: one of the keywords,
/// or a plain identifier.
pub open spec fn spec_lookup_ident(lit: Seq<char>) -> TokenType {
    if lit == "fn"@ {
        TokenType::Function
    } else if lit == "let"@ {
        TokenType::Let
    } else if lit == "if"@ {
        TokenType::If
    } else if lit == "else"@ {
        TokenType::Else
    } else if lit == "return"@ {
        TokenType::Return
    } else if lit == "true"@ {
        TokenType::True
    } else if lit == "false"@ {
        TokenType::False
    } else {
        TokenType::Ident
    }
}

impl Token {
    pub fn new(token_type: TokenType, ch: char) -> (t: Token)
        ensures
            t@ == (TokenV { tk_type: token_type, literal: seq![ch] }),
    {
        let mut s = String::new();
        push_char(&mut s, ch);
        proof {
            assert(s@ =~= seq![ch]);
        }
        Token { tk_type: token_type, literal: s }
    }

    pub fn lookup_ident(ident: &String) -> (t: TokenType)
        ensures
            t == spec_lookup_ident(ident@),
    {
        if *ident == String::from_str("fn") {
            TokenType::Function
        } else if *ident == String::from_str("let") {
            TokenType::Let
        } else if *ident == String::from_str("if") {
            TokenType::If
        } else if *ident == String::from_str("else") {
            TokenType::Else
        } else if *ident == String::from_str("return") {
            TokenType::Return
        } else if *ident == String::from_str("true") {
            TokenType::True
        } else if *ident == String::from_str("false") {
            TokenType::False
        } else {
            TokenType::Ident
        }
    }
}

/// The byte at `pos`, or 0 past the end of the input.
pub open spec fn byte_at(input: Seq<u8>, pos: int) -> u8 {
    if 0 <= pos < input.len() {
        input[pos]
    } else {
        0
    }
}

/// Whitespace between tokens.
pub open spec fn is_ws(b: u8) -> bool {
    (b as char) == ' ' || (b as char) == '\t' || (b as char) == '\n' || (b as char) == '\r'
}

/// A letter, as identifiers are made of: ASCII alphabetic.
pub open spec fn is_letter(b: u8) -> bool {
    ('a' <= (b as char) && (b as char) <= 'z') || ('A' <= (b as char) && (b as char) <= 'Z')
}

/// An ASCII decimal digit.
pub open spec fn is_digit(b: u8) -> bool {
    '0' <= (b as char) && (b as char) <= '9'
}

/// The position of the first non-whitespace byte at or after `pos`.
pub open spec fn skip_ws_end(input: Seq<u8>, pos: int) -> int
    decreases input.len() - pos,
{
    if 0 <= pos < input.len() && is_ws(input[pos]) {
        skip_ws_end(input, pos + 1)
    } else {
        pos
    }
}

/// The position just after the run of letters starting at `pos`.
pub open spec fn ident_end(input: Seq<u8>, pos: int) -> int
    decreases input.len() - pos,
{
    if 0 <= pos < input.len() && is_letter(input[pos]) {
        ident_end(input, pos + 1)
    } else {
        pos
    }
}

/// The position just after the run of digits starting at `pos`.
pub open spec fn number_end(input: Seq<u8>, pos: int) -> int
    decreases input.len() - pos,
{
    if 0 <= pos < input.len() && is_digit(input[pos]) {
        number_end(input, pos + 1)
    } else {
        pos
    }
}

/// The bytes read as characters, one character per byte.
pub open spec fn chars_of(bytes: Seq<u8>) -> Seq<char>
    decreases bytes.len(),
{
    if bytes.len() == 0 {
        Seq::empty()
    } else {
        chars_of(bytes.drop_last()).push(bytes.last() as char)
    }
}

pub proof fn lemma_skip_ws_end_bounds(input: Seq<u8>, pos: int)
    requires
        0 <= pos <= input.len(),
    ensures
        pos <= skip_ws_end(input, pos) <= input.len(),
    decreases input.len() - pos,
{
    if pos < input.len() && is_ws(input[pos]) {
        lemma_skip_ws_end_bounds(input, pos + 1);
    }
}

pub proof fn lemma_ident_end_bounds(input: Seq<u8>, pos: int)
    requires
        0 <= pos <= input.len(),
    ensures
        pos <= ident_end(input, pos) <= input.len(),
    decreases input.len() - pos,
{
    if pos < input.len() && is_letter(input[pos]) {
        lemma_ident_end_bounds(input, pos + 1);
    }
}

pub proof fn lemma_number_end_bounds(input: Seq<u8>, pos: int)
    requires
        0 <= pos <= input.len(),
    ensures
        pos <= number_end(input, pos) <= input.len(),
    decreases input.len() - pos,
{
    if pos < input.len() && is_digit(input[pos]) {
        lemma_number_end_bounds(input, pos + 1);
    }
}

/// One step of the lexer: the token found at (or after) `pos0`, and
/// the position at which the following token starts.
pub struct LexStep {
    pub tok: TokenV,
    pub pos: int,
}

pub open spec fn spec_next_token(input: Seq<u8>, pos0: int) -> LexStep {
    let pos = skip_ws_end(input, pos0);
    if pos >= input.len() {
        LexStep { tok: TokenV { tk_type: TokenType::Eof, literal: Seq::empty() }, pos: pos }
    } else {
        let b = input[pos];
        let c = b as char;
        if c == '=' {
            if (byte_at(input, pos + 1) as char) == '=' && pos + 1 < input.len() {
                LexStep {
                    tok: TokenV {
                        tk_type: TokenType::Eq,
                        literal: seq![c, byte_at(input, pos + 1) as char],
                    },
                    pos: pos + 2,
                }
            } else {
                LexStep { tok: TokenV { tk_type: TokenType::Assign, literal: seq![c] }, pos: pos + 1 }
            }
        } else if c == '!' {
            if (byte_at(input, pos + 1) as char) == '=' && pos + 1 < input.len() {
                LexStep {
                    tok: TokenV {
                        tk_type: TokenType::NotEq,
                        literal: seq![c, byte_at(input, pos + 1) as char],
                    },
                    pos: pos + 2,
                }
            } else {
                LexStep { tok: TokenV { tk_type: TokenType::Bang, literal: seq![c] }, pos: pos + 1 }
            }
        } else if c == ';' {
            LexStep { tok: TokenV { tk_type: TokenType::Semicolon, literal: seq![c] }, pos: pos + 1 }
        } else if c == '(' {
            LexStep { tok: TokenV { tk_type: TokenType::Lparen, literal: seq![c] }, pos: pos + 1 }
        } else if c == ')' {
            LexStep { tok: TokenV { tk_type: TokenType::Rparen, literal: seq![c] }, pos: pos + 1 }
        } else if c == ',' {
            LexStep { tok: TokenV { tk_type: TokenType::Comma, literal: seq![c] }, pos: pos + 1 }
        } else if c == '+' {
            LexStep { tok: TokenV { tk_type: TokenType::Plus, literal: seq![c] }, pos: pos + 1 }
        } else if c == '-' {
            LexStep { tok: TokenV { tk_type: TokenType::Minus, literal: seq![c] }, pos: pos + 1 }
        } else if c == '/' {
            LexStep { tok: TokenV { tk_type: TokenType::Slash, literal: seq![c] }, pos: pos + 1 }
        } else if c == '*' {
            LexStep { tok: TokenV { tk_type: TokenType::Asterisk, literal: seq![c] }, pos: pos + 1 }
        } else if c == '<' {
            LexStep { tok: TokenV { tk_type: TokenType::Lt, literal: seq![c] }, pos: pos + 1 }
        } else if c == '>' {
            LexStep { tok: TokenV { tk_type: TokenType::Gt, literal: seq![c] }, pos: pos + 1 }
        } else if c == '{' {
            LexStep { tok: TokenV { tk_type: TokenType::Lbrace, literal: seq![c] }, pos: pos + 1 }
        } else if c == '}' {
            LexStep { tok: TokenV { tk_type: TokenType::Rbrace, literal: seq![c] }, pos: pos + 1 }
        } else if b == 0 {
            LexStep { tok: TokenV { tk_type: TokenType::Eof, literal: Seq::empty() }, pos: pos + 1 }
        } else if is_letter(b) {
            let end = ident_end(input, pos);
            let lit = chars_of(input.subrange(pos, end));
            LexStep { tok: TokenV { tk_type: spec_lookup_ident(lit), literal: lit }, pos: end }
        } else if is_digit(b) {
            let end = number_end(input, pos);
            let lit = chars_of(input.subrange(pos, end));
            LexStep { tok: TokenV { tk_type: TokenType::Int, literal: lit }, pos: end }
        } else {
            LexStep { tok: TokenV { tk_type: TokenType::Illegal, literal: seq![c] }, pos: pos + 1 }
        }
    }
}

pub proof fn lemma_next_token_bounds(input: Seq<u8>, pos0: int)
    requires
        0 <= pos0 <= input.len(),
    ensures
        pos0 <= spec_next_token(input, pos0).pos <= input.len(),
        spec_next_token(input, pos0).tok.tk_type != TokenType::Eof ==> spec_next_token(
            input,
            pos0,
        ).pos > pos0,
{
    lemma_skip_ws_end_bounds(input, pos0);
    let pos = skip_ws_end(input, pos0);
    if pos < input.len() {
        lemma_ident_end_bounds(input, pos);
        lemma_number_end_bounds(input, pos);
        if is_letter(input[pos]) {
            lemma_ident_end_bounds(input, pos + 1);
            assert(ident_end(input, pos) == ident_end(input, pos + 1));
        }
        if is_digit(input[pos]) {
            lemma_number_end_bounds(input, pos + 1);
            assert(number_end(input, pos) == number_end(input, pos + 1));
        }
    }
}

/// What the lexer's consistency gives a caller: the position stays
/// inside the input.
pub proof fn lemma_lexer_wf(l: Lexer)
    requires
        l.wf(),
    ensures
        0 <= l.spec_pos() <= l.spec_input().len(),
{
}

pub struct Lexer {
    input: Vec<u8>,
    position: usize,
    /// current byte under examination; 0 at end of input
    pub ch: u8,
}

impl Lexer {
    /// The lexer's state is consistent: the position is inside the
    /// input (or one past it), and `ch` caches the byte there.
    pub closed spec fn wf(&self) -> bool {
        &&& self.position <= self.input@.len()
        &&& self.ch == byte_at(self.input@, self.position as int)
    }

    /// The bytes being tokenized.
    pub closed spec fn spec_input(&self) -> Seq<u8> {
        self.input@
    }

    /// The position of the next token.
    pub closed spec fn spec_pos(&self) -> int {
        self.position as int
    }

    pub fn new(input: &str) -> (l: Lexer)
        ensures
            l.wf(),
            l.spec_input() == input.spec_bytes(),
            l.spec_pos() == 0,
    {
        let bytes = input.as_bytes_vec();
        let ch: u8 = if bytes.len() > 0 {
            bytes[0]
        } else {
            0
        };
        Lexer { input: bytes, position: 0, ch }
    }

    fn read_char(&mut self)
        requires
            old(self).wf(),
        ensures
            final(self).wf(),
            final(self).input == old(self).input,
            final(self).position == if old(self).position < old(self).input@.len() {
                old(self).position + 1
            } else {
                old(self).position as int
            },
    {
        if self.position < self.input.len() {
            self.position = self.position + 1;
        }
        if self.position < self.input.len() {
            self.ch = self.input[self.position];
        } else {
            self.ch = 0;
        }
    }

    fn peek_char(&self) -> (b: u8)
        requires
            self.wf(),
        ensures
            b == byte_at(self.input@, self.position + 1),
    {
        let rem = self.input.len() - self.position;
        if rem > 1 {
            self.input[self.position + 1]
        } else {
            0
        }
    }

    fn skip_whitespace(&mut self)
        requires
            old(self).wf(),
        ensures
            final(self).wf(),
            final(self).input == old(self).input,
            final(self).position == skip_ws_end(old(self).input@, old(self).position as int),
    {
        loop
            invariant
                self.wf(),
                self.input == old(self).input,
                skip_ws_end(self.input@, self.position as int) == skip_ws_end(
                    old(self).input@,
                    old(self).position as int,
                ),
            decreases self.input@.len() - self.position,
        {
            let c = self.ch as char;
            if c == ' ' || c == '\t' || c == '\n' || c == '\r' {
                self.read_char();
            } else {
                return ;
            }
        }
    }

    fn read_identifier(&mut self) -> (lit: String)
        requires
            old(self).wf(),
        ensures
            final(self).wf(),
            final(self).input == old(self).input,
            final(self).position == ident_end(old(self).input@, old(self).position as int),
            lit@ == chars_of(
                old(self).input@.subrange(
                    old(self).position as int,
                    ident_end(old(self).input@, old(self).position as int),
                ),
            ),
    {
        let ghost start = self.position as int;
        let mut s = String::new();
        proof {
            assert(self.input@.subrange(start, start) =~= Seq::<u8>::empty());
        }
        loop
            invariant
                self.wf(),
                self.input == old(self).input,
                start == old(self).position as int,
                0 <= start <= self.position as int,
                ident_end(self.input@, self.position as int) == ident_end(self.input@, start),
                s@ == chars_of(self.input@.subrange(start, self.position as int)),
            decreases self.input@.len() - self.position,
        {
            let b = self.ch;
            let c = b as char;
            if ('a' <= c && c <= 'z') || ('A' <= c && c <= 'Z') {
                let ghost cur = self.position as int;
                proof {
                    assert(cur < self.input@.len()) by {
                        if cur >= self.input@.len() {
                            assert(b == 0);
                        }
                    }
                    assert(is_letter(self.input@[cur]));
                }
                push_char(&mut s, c);
                self.read_char();
                proof {
                    assert(self.input@.subrange(start, cur + 1).drop_last() =~= self.input@.subrange(
                        start,
                        cur,
                    ));
                    assert(self.input@.subrange(start, cur + 1).last() == self.input@[cur]);
                }
            } else {
                proof {
                    assert(ident_end(self.input@, self.position as int) == self.position as int)
                        by {
                        if (self.position as int) < self.input@.len() {
                            assert(!is_letter(self.input@[self.position as int]));
                        }
                    }
                }
                return s;
            }
        }
    }

    fn read_number(&mut self) -> (lit: String)
        requires
            old(self).wf(),
        ensures
            final(self).wf(),
            final(self).input == old(self).input,
            final(self).position == number_end(old(self).input@, old(self).position as int),
            lit@ == chars_of(
                old(self).input@.subrange(
                    old(self).position as int,
                    number_end(old(self).input@, old(self).position as int),
                ),
            ),
    {
        let ghost start = self.position as int;
        let mut s = String::new();
        proof {
            assert(self.input@.subrange(start, start) =~= Seq::<u8>::empty());
        }
        loop
            invariant
                self.wf(),
                self.input == old(self).input,
                start == old(self).position as int,
                0 <= start <= self.position as int,
                number_end(self.input@, self.position as int) == number_end(self.input@, start),
                s@ == chars_of(self.input@.subrange(start, self.position as int)),
            decreases self.input@.len() - self.position,
        {
            let b = self.ch;
            let c = b as char;
            if '0' <= c && c <= '9' {
                let ghost cur = self.position as int;
                proof {
                    assert(cur < self.input@.len()) by {
                        if cur >= self.input@.len() {
                            assert(b == 0);
                        }
                    }
                    assert(is_digit(self.input@[cur]));
                }
                push_char(&mut s, c);
                self.read_char();
                proof {
                    assert(self.input@.subrange(start, cur + 1).drop_last() =~= self.input@.subrange(
                        start,
                        cur,
                    ));
                    assert(self.input@.subrange(start, cur + 1).last() == self.input@[cur]);
                }
            } else {
                proof {
                    assert(number_end(self.input@, self.position as int) == self.position as int)
                        by {
                        if (self.position as int) < self.input@.len() {
                            assert(!is_digit(self.input@[self.position as int]));
                        }
                    }
                }
                return s;
            }
        }
    }

    pub fn next_token(&mut self) -> (tok: Token)
        requires
            old(self).wf(),
        ensures
            final(self).wf(),
            final(self).spec_input() == old(self).spec_input(),
            tok@ == spec_next_token(old(self).spec_input(), old(self).spec_pos()).tok,
            final(self).spec_pos() == spec_next_token(
                old(self).spec_input(),
                old(self).spec_pos(),
            ).pos,
    {
        self.skip_whitespace();
        let c = self.ch as char;
        if self.position >= self.input.len() {
            return Token { tk_type: TokenType::Eof, literal: String::new() };
        }
        if c == '=' {
            let p = self.peek_char();
            if p as char == '=' {
                let mut lit = String::new();
                push_char(&mut lit, c);
                push_char(&mut lit, p as char);
                proof {
                    assert(lit@ =~= seq![c, p as char]);
                }
                let tok = Token { tk_type: TokenType::Eq, literal: lit };
                self.read_char();
                self.read_char();
                tok
            } else {
                let tok = Token::new(TokenType::Assign, c);
                self.read_char();
                tok
            }
        } else if c == '!' {
            let p = self.peek_char();
            if p as char == '=' {
                let mut lit = String::new();
                push_char(&mut lit, c);
                push_char(&mut lit, p as char);
                proof {
                    assert(lit@ =~= seq![c, p as char]);
                }
                let tok = Token { tk_type: TokenType::NotEq, literal: lit };
                self.read_char();
                self.read_char();
                tok
            } else {
                let tok = Token::new(TokenType::Bang, c);
                self.read_char();
                tok
            }
        } else if c == ';' {
            let tok = Token::new(TokenType::Semicolon, c);
            self.read_char();
            tok
        } else if c == '(' {
            let tok = Token::new(TokenType::Lparen, c);
            self.read_char();
            tok
        } else if c == ')' {
            let tok = Token::new(TokenType::Rparen, c);
            self.read_char();
            tok
        } else if c == ',' {
            let tok = Token::new(TokenType::Comma, c);
            self.read_char();
            tok
        } else if c == '+' {
            let tok = Token::new(TokenType::Plus, c);
            self.read_char();
            tok
        } else if c == '-' {
            let tok = Token::new(TokenType::Minus, c);
            self.read_char();
            tok
        } else if c == '/' {
            let tok = Token::new(TokenType::Slash, c);
            self.read_char();
            tok
        } else if c == '*' {
            let tok = Token::new(TokenType::Asterisk, c);
            self.read_char();
            tok
        } else if c == '<' {
            let tok = Token::new(TokenType::Lt, c);
            self.read_char();
            tok
        } else if c == '>' {
            let tok = Token::new(TokenType::Gt, c);
            self.read_char();
            tok
        } else if c == '{' {
            let tok = Token::new(TokenType::Lbrace, c);
            self.read_char();
            tok
        } else if c == '}' {
            let tok = Token::new(TokenType::Rbrace, c);
            self.read_char();
            tok
        } else if self.ch == 0 {
            let tok = Token { tk_type: TokenType::Eof, literal: String::new() };
            self.read_char();
            tok
        } else if ('a' <= c && c <= 'z') || ('A' <= c && c <= 'Z') {
            let lit = self.read_identifier();
            let tk_type = Token::lookup_ident(&lit);
            Token { tk_type, literal: lit }
        } else if '0' <= c && c <= '9' {
            let lit = self.read_number();
            Token { tk_type: TokenType::Int, literal: lit }
        } else {
            let tok = Token::new(TokenType::Illegal, c);
            self.read_char();
            tok
        }
    }
}

} // verus!
