//! A recursive-descent parser from tokens to the syntax tree.
//!
//! ```text
//! declaration := "let" IDENT ("=" expression)? ";"? | expression ";"?
//! expression  := block | and
//! block       := "{" declaration* "}"
//! and         := or ("&&" or)*
//! or          := equal ("||" equal)*
//! equal       := comparison (("==" | "!=") comparison)*
//! comparison  := term ((">" | ">=" | "<" | "<=") term)*
//! term        := factor (("+" | "-") factor)*
//! factor      := unary (("*" | "/") unary)*
//! unary       := ("!" | "-") unary | primary
//! primary     := literal | IDENT | "(" expression ")"
//!              | "if" and block ("else" block)?
//! ```
use vstd::prelude::*;
use crate::ast::{BinaryOp, Expr, ExprKind, Located, ParseObj, Stmt, StmtKind, UnaryOp};
use crate::token::{Token, TokenKind};

verus! {

broadcast use vstd::std_specs::vec::group_vec_axioms;

/// The token at index `at` was not expected there.
#[derive(Debug, Clone, Copy, PartialEq, Eq, Structural)]
pub struct ParseError {
    pub at: usize,
}

pub struct Parser {
    tokens: Vec<Token>,
    pos: usize,
    eof: Token,
}

impl Parser {
    /// How many tokens are left.
    pub closed spec fn remaining(&self) -> nat {
        (self.tokens@.len() - self.pos) as nat
    }

    pub closed spec fn wf(&self) -> bool {
        self.pos <= self.tokens@.len() && self.eof.kind is Eof
    }

    /// A parser over a token list; the list needs no trailing `Eof`. A
    /// number token must already be a float (see [`TokenKind::Decimal`]).
    pub fn new(tokens: Vec<Token>) -> (r: Parser)
        ensures
            r.wf(),
            r.remaining() == tokens@.len(),
    {
        Parser { tokens, pos: 0, eof: Token::new(TokenKind::Eof) }
    }

    /// Parses one program: a single declaration, then the end of the tokens.
    pub fn parse(&mut self) -> (r: Result<Box<Stmt>, ParseError>)
        requires
            old(self).wf(),
        ensures
            final(self).wf(),
            r is Ok ==> final(self).at_end(),
    {
        let stmt = match self.declaration() {
            Ok(s) => s,
            Err(e) => return Err(e),
        };
        if !self.check_eof() {
            return Err(ParseError { at: self.pos });
        }
        Ok(stmt)
    }

    /// No token is left but `Eof`s.
    pub closed spec fn at_end(&self) -> bool {
        self.pos == self.tokens@.len() || self.tokens@[self.pos as int].kind is Eof
    }

    fn check_eof(&self) -> (r: bool)
        requires
            self.wf(),
        ensures
            r == self.at_end(),
    {
        matches!(self.peek(), TokenKind::Eof)
    }

    fn peek(&self) -> (r: &TokenKind)
        requires
            self.wf(),
        ensures
            self.pos < self.tokens@.len() ==> *r == self.tokens@[self.pos as int].kind,
            self.pos == self.tokens@.len() ==> r is Eof,
    {
        if self.pos < self.tokens.len() {
            &self.tokens[self.pos].kind
        } else {
            &self.eof.kind
        }
    }

    /// Steps over the next token.
    fn eat(&mut self)
        requires
            old(self).wf(),
            old(self).remaining() > 0,
        ensures
            final(self).wf(),
            final(self).remaining() == old(self).remaining() - 1,
            final(self).tokens == old(self).tokens,
            final(self).pos == old(self).pos + 1,
    {
        assert(self.pos < self.tokens.len());
        self.pos = self.pos + 1;
    }

    fn declaration(&mut self) -> (r: Result<Box<Stmt>, ParseError>)
        requires
            old(self).wf(),
        ensures
            final(self).wf(),
            final(self).remaining() <= old(self).remaining(),
            r is Ok ==> final(self).remaining() < old(self).remaining(),
        decreases old(self).remaining(), 12nat,
    {
        let stmt = if matches!(self.peek(), TokenKind::Let) && self.pos < self.tokens.len() {
            self.eat();
            match self.var_declaration() {
                Ok(s) => s,
                Err(e) => return Err(e),
            }
        } else {
            match self.expression() {
                Ok(expr) => Box::new(Located::new(StmtKind::ExprStmt { expr })),
                Err(e) => return Err(e),
            }
        };
        if matches!(self.peek(), TokenKind::Semi) && self.pos < self.tokens.len() {
            self.eat();
        }
        Ok(stmt)
    }

    fn var_declaration(&mut self) -> (r: Result<Box<Stmt>, ParseError>)
        requires
            old(self).wf(),
        ensures
            final(self).wf(),
            final(self).remaining() <= old(self).remaining(),
            r is Ok ==> final(self).remaining() < old(self).remaining(),
        decreases old(self).remaining(), 11nat,
    {
        let name = match self.peek() {
            TokenKind::Ident { name } => name.clone(),
            _ => return Err(ParseError { at: self.pos }),
        };
        self.eat();
        let value = if matches!(self.peek(), TokenKind::Eq) && self.pos < self.tokens.len() {
            self.eat();
            match self.expression() {
                Ok(e) => e,
                Err(e) => return Err(e),
            }
        } else {
            Box::new(Located::new(ExprKind::Literal { value: ParseObj::Nil }))
        };
        Ok(Box::new(Located::new(StmtKind::VarDec { name, value })))
    }

    fn expression(&mut self) -> (r: Result<Box<Expr>, ParseError>)
        requires
            old(self).wf(),
        ensures
            final(self).wf(),
            final(self).remaining() <= old(self).remaining(),
            r is Ok ==> final(self).remaining() < old(self).remaining(),
        decreases old(self).remaining(), 10nat,
    {
        if matches!(self.peek(), TokenKind::OpenBrace) {
            match self.block() {
                Ok(inner) => Ok(Box::new(Located::new(ExprKind::Block { inner }))),
                Err(e) => Err(e),
            }
        } else {
            self.expr_and()
        }
    }

    /// `{ declaration* }`
    fn block(&mut self) -> (r: Result<Vec<Stmt>, ParseError>)
        requires
            old(self).wf(),
        ensures
            final(self).wf(),
            final(self).remaining() <= old(self).remaining(),
            r is Ok ==> final(self).remaining() < old(self).remaining(),
        decreases old(self).remaining(), 0nat,
    {
        if !(matches!(self.peek(), TokenKind::OpenBrace) && self.pos < self.tokens.len()) {
            return Err(ParseError { at: self.pos });
        }
        self.eat();
        let mut inner: Vec<Stmt> = Vec::new();
        while !matches!(self.peek(), TokenKind::CloseBrace | TokenKind::Eof)
            invariant
                self.wf(),
                self.remaining() < old(self).remaining(),
            decreases self.remaining(),
        {
            match self.declaration() {
                Ok(s) => inner.push(*s),
                Err(e) => return Err(e),
            }
        }
        if !(matches!(self.peek(), TokenKind::CloseBrace) && self.pos < self.tokens.len()) {
            return Err(ParseError { at: self.pos });
        }
        self.eat();
        Ok(inner)
    }

    fn expr_and(&mut self) -> (r: Result<Box<Expr>, ParseError>)
        requires
            old(self).wf(),
        ensures
            final(self).wf(),
            final(self).remaining() <= old(self).remaining(),
            r is Ok ==> final(self).remaining() < old(self).remaining(),
        decreases old(self).remaining(), 9nat,
    {
        let mut left = match self.expr_or() {
            Ok(e) => e,
            Err(e) => return Err(e),
        };
        while matches!(self.peek(), TokenKind::And) && self.pos < self.tokens.len()
            invariant
                self.wf(),
                self.remaining() < old(self).remaining(),
            decreases self.remaining(),
        {
            self.eat();
            let right = match self.expr_or() {
                Ok(e) => e,
                Err(e) => return Err(e),
            };
            left = Box::new(Located::new(ExprKind::Binary { left, op: BinaryOp::And, right }));
        }
        Ok(left)
    }

    fn expr_or(&mut self) -> (r: Result<Box<Expr>, ParseError>)
        requires
            old(self).wf(),
        ensures
            final(self).wf(),
            final(self).remaining() <= old(self).remaining(),
            r is Ok ==> final(self).remaining() < old(self).remaining(),
        decreases old(self).remaining(), 8nat,
    {
        let mut left = match self.expr_equal() {
            Ok(e) => e,
            Err(e) => return Err(e),
        };
        while matches!(self.peek(), TokenKind::Or) && self.pos < self.tokens.len()
            invariant
                self.wf(),
                self.remaining() < old(self).remaining(),
            decreases self.remaining(),
        {
            self.eat();
            let right = match self.expr_equal() {
                Ok(e) => e,
                Err(e) => return Err(e),
            };
            left = Box::new(Located::new(ExprKind::Binary { left, op: BinaryOp::Or, right }));
        }
        Ok(left)
    }

    fn expr_equal(&mut self) -> (r: Result<Box<Expr>, ParseError>)
        requires
            old(self).wf(),
        ensures
            final(self).wf(),
            final(self).remaining() <= old(self).remaining(),
            r is Ok ==> final(self).remaining() < old(self).remaining(),
        decreases old(self).remaining(), 7nat,
    {
        let mut left = match self.expr_comparison() {
            Ok(e) => e,
            Err(e) => return Err(e),
        };
        loop
            invariant
                self.wf(),
                self.remaining() < old(self).remaining(),
            decreases self.remaining(),
        {
            let op = match self.peek() {
                TokenKind::EqEq => BinaryOp::Eq,
                TokenKind::BangEq => BinaryOp::NotEq,
                _ => break,
            };
            self.eat();
            let right = match self.expr_comparison() {
                Ok(e) => e,
                Err(e) => return Err(e),
            };
            left = Box::new(Located::new(ExprKind::Binary { left, op, right }));
        }
        Ok(left)
    }

    fn expr_comparison(&mut self) -> (r: Result<Box<Expr>, ParseError>)
        requires
            old(self).wf(),
        ensures
            final(self).wf(),
            final(self).remaining() <= old(self).remaining(),
            r is Ok ==> final(self).remaining() < old(self).remaining(),
        decreases old(self).remaining(), 6nat,
    {
        let mut left = match self.term() {
            Ok(e) => e,
            Err(e) => return Err(e),
        };
        loop
            invariant
                self.wf(),
                self.remaining() < old(self).remaining(),
            decreases self.remaining(),
        {
            let op = match self.peek() {
                TokenKind::Gt => BinaryOp::Gt,
                TokenKind::GtE => BinaryOp::GtE,
                TokenKind::Lt => BinaryOp::Lt,
                TokenKind::LtE => BinaryOp::LtE,
                _ => break,
            };
            self.eat();
            let right = match self.term() {
                Ok(e) => e,
                Err(e) => return Err(e),
            };
            left = Box::new(Located::new(ExprKind::Binary { left, op, right }));
        }
        Ok(left)
    }

    fn term(&mut self) -> (r: Result<Box<Expr>, ParseError>)
        requires
            old(self).wf(),
        ensures
            final(self).wf(),
            final(self).remaining() <= old(self).remaining(),
            r is Ok ==> final(self).remaining() < old(self).remaining(),
        decreases old(self).remaining(), 5nat,
    {
        let mut left = match self.factor() {
            Ok(e) => e,
            Err(e) => return Err(e),
        };
        loop
            invariant
                self.wf(),
                self.remaining() < old(self).remaining(),
            decreases self.remaining(),
        {
            let op = match self.peek() {
                TokenKind::Plus => BinaryOp::Add,
                TokenKind::Minus => BinaryOp::Sub,
                _ => break,
            };
            self.eat();
            let right = match self.factor() {
                Ok(e) => e,
                Err(e) => return Err(e),
            };
            left = Box::new(Located::new(ExprKind::Binary { left, op, right }));
        }
        Ok(left)
    }

    fn factor(&mut self) -> (r: Result<Box<Expr>, ParseError>)
        requires
            old(self).wf(),
        ensures
            final(self).wf(),
            final(self).remaining() <= old(self).remaining(),
            r is Ok ==> final(self).remaining() < old(self).remaining(),
        decreases old(self).remaining(), 4nat,
    {
        let mut left = match self.unary() {
            Ok(e) => e,
            Err(e) => return Err(e),
        };
        loop
            invariant
                self.wf(),
                self.remaining() < old(self).remaining(),
            decreases self.remaining(),
        {
            let op = match self.peek() {
                TokenKind::Star => BinaryOp::Mult,
                TokenKind::Slash => BinaryOp::Div,
                _ => break,
            };
            self.eat();
            let right = match self.unary() {
                Ok(e) => e,
                Err(e) => return Err(e),
            };
            left = Box::new(Located::new(ExprKind::Binary { left, op, right }));
        }
        Ok(left)
    }

    fn unary(&mut self) -> (r: Result<Box<Expr>, ParseError>)
        requires
            old(self).wf(),
        ensures
            final(self).wf(),
            final(self).remaining() <= old(self).remaining(),
            r is Ok ==> final(self).remaining() < old(self).remaining(),
        decreases old(self).remaining(), 3nat,
    {
        let op = match self.peek() {
            TokenKind::Bang => UnaryOp::Not,
            TokenKind::Minus => UnaryOp::Minus,
            _ => return self.primary(),
        };
        self.eat();
        match self.unary() {
            Ok(operand) => Ok(Box::new(Located::new(ExprKind::Unary { op, operand }))),
            Err(e) => Err(e),
        }
    }

    fn primary(&mut self) -> (r: Result<Box<Expr>, ParseError>)
        requires
            old(self).wf(),
        ensures
            final(self).wf(),
            final(self).remaining() <= old(self).remaining(),
            r is Ok ==> final(self).remaining() < old(self).remaining(),
        decreases old(self).remaining(), 2nat,
    {
        let at = self.pos;
        let value = match self.peek() {
            TokenKind::True => ParseObj::Bool(true),
            TokenKind::False => ParseObj::Bool(false),
            TokenKind::Nil => ParseObj::Nil,
            TokenKind::Int { value } => ParseObj::Int(*value as i64),
            TokenKind::Float { value } => ParseObj::Float(*value),
            TokenKind::Str { value } => ParseObj::Str(value.clone()),
            TokenKind::Ident { name } => ParseObj::Ident(name.clone()),
            TokenKind::OpenParen => {
                self.eat();
                let body = match self.expression() {
                    Ok(e) => e,
                    Err(e) => return Err(e),
                };
                if !(matches!(self.peek(), TokenKind::CloseParen) && self.pos < self.tokens.len()) {
                    return Err(ParseError { at: self.pos });
                }
                self.eat();
                return Ok(Box::new(Located::new(ExprKind::Group { body })));
            },
            TokenKind::If => {
                self.eat();
                return self.if_expression();
            },
            _ => return Err(ParseError { at }),
        };
        self.eat();
        Ok(Box::new(Located::new(ExprKind::Literal { value })))
    }

    /// After `if`: the test, the then-block and an optional else-block.
    fn if_expression(&mut self) -> (r: Result<Box<Expr>, ParseError>)
        requires
            old(self).wf(),
        ensures
            final(self).wf(),
            final(self).remaining() <= old(self).remaining(),
        decreases old(self).remaining() + 1, 1nat,
    {
        let test = match self.expr_and() {
            Ok(e) => e,
            Err(e) => return Err(e),
        };
        let body = match self.block() {
            Ok(b) => b,
            Err(e) => return Err(e),
        };
        let orelse = if matches!(self.peek(), TokenKind::Else) && self.pos < self.tokens.len() {
            self.eat();
            match self.block() {
                Ok(b) => b,
                Err(e) => return Err(e),
            }
        } else {
            Vec::new()
        };
        Ok(Box::new(Located::new(ExprKind::If { test, body, orelse })))
    }
}

} // verus!
