//! The start of a parser: a window of two tokens over a tokenizer.
use vstd::prelude::*;
use crate::ast::Program;
use crate::lexer::{outcome, LexError, Lexer};
use crate::scan::scan;
use crate::token::{Token, TokenType};

verus! {

/// A parser: the tokenizer it reads from, the current token and the one after it.
pub struct Parser {
    lexer: Lexer,
    curr_token: Token,
    next_token: Token,
}

impl Parser {
    /// The tokenizer the parser reads from.
    pub closed spec fn source(&self) -> Lexer {
        self.lexer
    }

    /// The current token.
    pub closed spec fn current(&self) -> (TokenType, Seq<char>) {
        self.curr_token@
    }

    /// The token after the current one.
    pub closed spec fn upcoming(&self) -> (TokenType, Seq<char>) {
        self.next_token@
    }

    /// Starts a parser on `lexer`, reading its next two tokens; fails on the
    /// first malformed number among them.
    pub fn new(lexer: Lexer) -> (r: Result<Parser, LexError>)
        requires
            lexer.wf(),
        ensures
            ({
                let s = lexer.text();
                let first = scan(s, lexer.position());
                let second = scan(s, first.1);
                match r {
                    Ok(parser) => {
                        &&& first.0 == Ok::<(TokenType, Seq<char>), Seq<char>>(parser.current())
                        &&& second.0 == Ok::<(TokenType, Seq<char>), Seq<char>>(parser.upcoming())
                        &&& parser.source().wf()
                        &&& parser.source().text() == s
                        &&& parser.source().position() == second.1
                    },
                    Err(e) => {
                        ||| first.0 == outcome(Err(e))
                        ||| (first.0 is Ok && second.0 == outcome(Err(e)))
                    },
                }
            }),
    {
        let mut lexer = lexer;
        let curr_token = match lexer.next_token() {
            Ok(token) => token,
            Err(e) => {
                return Err(e);
            },
        };
        let next_token = match lexer.next_token() {
            Ok(token) => token,
            Err(e) => {
                return Err(e);
            },
        };
        Ok(Parser { lexer, curr_token, next_token })
    }

    /// Moves the window one token on: the upcoming token becomes the current
    /// one, and the tokenizer's next token the upcoming one. On a malformed
    /// number the window stays as it was.
    pub fn next_token(&mut self) -> (r: Result<(), LexError>)
        requires
            old(self).source().wf(),
        ensures
            ({
                let step = scan(old(self).source().text(), old(self).source().position());
                &&& final(self).source().wf()
                &&& final(self).source().text() == old(self).source().text()
                &&& final(self).source().position() == step.1
                &&& match r {
                    Ok(()) => {
                        &&& final(self).current() == old(self).upcoming()
                        &&& step.0 == Ok::<(TokenType, Seq<char>), Seq<char>>(final(self).upcoming())
                    },
                    Err(e) => {
                        &&& step.0 == outcome(Err(e))
                        &&& final(self).current() == old(self).current()
                        &&& final(self).upcoming() == old(self).upcoming()
                    },
                }
            }),
    {
        match self.lexer.next_token() {
            Ok(token) => {
                let mut token = token;
                std::mem::swap(&mut self.next_token, &mut token);
                self.curr_token = token;
                Ok(())
            },
            Err(e) => Err(e),
        }
    }

    /// Produces no program: the statement grammar is left open, so no token
    /// is consumed and nothing is built.
    pub fn parse_program(&mut self) -> (r: Option<Program>)
        ensures
            r is None,
            *final(self) == *old(self),
    {
        None
    }
}

} // verus!
