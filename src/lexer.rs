//! The tokenizer: a cursor over the characters of a source text that yields
//! one token per call.
use vstd::prelude::*;
use crate::scan::{
    alphabetic, blank, malformed_number, number_char, number_end, numeric, scan, skip_blanks,
    tokens_from, word_char, word_end, lemma_number_end_bounds, lemma_scan_advances,
};
use crate::token::{lookup_identifier, Token, TokenType};

verus! {

/// Relies on `char::is_alphabetic`: whether `c` has the Unicode `Alphabetic`
/// property, a fact of the character alone.
#[verifier::external_body]
fn is_alphabetic(c: char) -> (r: bool)
    ensures
        r == alphabetic(c),
{
    c.is_alphabetic()
}

/// Relies on `char::is_numeric`: whether `c` has a Unicode numeric general
/// category, a fact of the character alone.
#[verifier::external_body]
fn is_numeric(c: char) -> (r: bool)
    ensures
        r == numeric(c),
{
    c.is_numeric()
}

/// Relies on `String::push`: appends one character at the end.
#[verifier::external_body]
fn push_char(s: &mut String, c: char)
    ensures
        final(s)@ == old(s)@.push(c),
{
    s.push(c)
}

/// The text of a one-character token.
fn char_literal(c: char) -> (r: String)
    ensures
        r@ == seq![c],
{
    let mut literal = String::new();
    push_char(&mut literal, c);
    assert(literal@ =~= seq![c]);
    literal
}

/// The text of a two-character operator: `c` followed by `=`.
fn pair_literal(c: char) -> (r: String)
    ensures
        r@ == seq![c, '='],
{
    let mut literal = char_literal(c);
    push_char(&mut literal, '=');
    assert(literal@ =~= seq![c, '=']);
    literal
}

/// The failure of a step of the tokenizer.
#[derive(Debug)]
pub enum LexError {
    /// A number literal that ends in `.` or `_`, with its text.
    MalformedNumber(String),
}

/// What a step returned, as the token's view or the text of the malformed
/// number.
pub open spec fn outcome(r: Result<Token, LexError>) -> Result<(TokenType, Seq<char>), Seq<char>> {
    match r {
        Ok(t) => Ok(t@),
        Err(LexError::MalformedNumber(w)) => Err(w@),
    }
}

/// A cursor over the characters of a source text.
pub struct Lexer {
    input: Vec<char>,
    curr_position: usize,
    next_position: usize,
    processed_char: char,
}

impl Lexer {
    /// The characters of the source text.
    pub closed spec fn text(&self) -> Seq<char> {
        self.input@
    }

    /// The position of the next unread character.
    pub closed spec fn position(&self) -> nat {
        self.curr_position as nat
    }

    /// The cursor stays within the text, the lookahead position is one past
    /// it, and the last character consumed is the one just behind it, or the
    /// sentinel `'\0'` before the first read or at the end.
    pub closed spec fn wf(&self) -> bool {
        &&& self.input.len() < usize::MAX
        &&& self.curr_position <= self.input.len()
        &&& self.next_position == self.curr_position + 1
        &&& ((self.processed_char == '\0' && (self.curr_position == 0
            || self.curr_position == self.input.len())) || (self.curr_position > 0
            && self.processed_char == self.input@[self.curr_position - 1]))
    }

    /// The character last consumed stood at `q`, or `q` is the end of the
    /// text and the sentinel `'\0'` was consumed.
    closed spec fn consumed_at(&self, q: nat) -> bool {
        ||| (q < self.input.len() && self.processed_char == self.input@[q as int]
            && self.curr_position == q + 1)
        ||| (q == self.input.len() && self.processed_char == '\0' && self.curr_position == q)
    }

    /// Starts a tokenizer at the beginning of `input`.
    pub fn new(input: &str) -> (r: Lexer)
        requires
            input@.len() < usize::MAX,
        ensures
            r.wf(),
            r.text() == input@,
            r.position() == 0,
    {
        let mut chars: Vec<char> = Vec::new();
        for c in it: input.chars()
            invariant
                chars@ == it.seq().take(it.index() as int),
        {
            chars.push(c);
        }
        Lexer { input: chars, curr_position: 0, next_position: 1, processed_char: '\0' }
    }

    /// Consumes the character at the cursor, or the sentinel `'\0'` at the end.
    fn read_char(&mut self)
        requires
            old(self).wf(),
        ensures
            final(self).wf(),
            final(self).input@ == old(self).input@,
            final(self).consumed_at(old(self).position()),
    {
        if self.curr_position == self.input.len() {
            self.processed_char = '\0';
        } else {
            self.processed_char = self.input[self.curr_position];
            self.curr_position = self.next_position;
            self.next_position = self.next_position + 1;
        }
    }

    /// The character at the cursor, without consuming it; `'\0'` at the end.
    fn peek_char(&self) -> (r: char)
        requires
            self.wf(),
        ensures
            self.curr_position < self.input.len() ==> r == self.input@[self.curr_position as int],
            self.curr_position == self.input.len() ==> r == '\0',
    {
        if self.curr_position == self.input.len() {
            '\0'
        } else {
            self.input[self.curr_position]
        }
    }

    /// Consumes whitespace: when the character last consumed is whitespace,
    /// reads on to the first character that is not, or to the sentinel at the
    /// end; otherwise changes nothing.
    fn skip_whitespace(&mut self)
        requires
            old(self).wf(),
        ensures
            final(self).wf(),
            final(self).input@ == old(self).input@,
            !blank(final(self).processed_char),
            !blank(old(self).processed_char) ==> *final(self) == *old(self),
            blank(old(self).processed_char) ==> final(self).consumed_at(
                skip_blanks(old(self).input@, old(self).position()),
            ),
    {
        let ghost s = self.input@;
        let ghost start = *self;
        let ghost p0 = self.curr_position as nat;
        let ghost mut q = p0;
        let ghost mut moved = false;
        while Lexer::is_blank(self.processed_char)
            invariant
                self.wf(),
                self.input@ == s,
                p0 <= q <= s.len(),
                start.input@ == s,
                p0 == start.curr_position,
                !moved ==> *self == start && q == p0,
                moved ==> blank(start.processed_char),
                moved ==> self.consumed_at(q),
                moved ==> skip_blanks(s, q) == skip_blanks(s, p0),
            decreases s.len() - q + (if moved { 0int } else { 1int }),
        {
            proof {
                if moved {
                    assert(q < s.len() && blank(s[q as int]));
                    assert(skip_blanks(s, q) == skip_blanks(s, q + 1));
                    q = q + 1;
                }
            }
            self.read_char();
            proof {
                moved = true;
            }
        }
    }

    fn is_blank(ch: char) -> (r: bool)
        ensures
            r == blank(ch),
    {
        ch == ' ' || ch == '\t' || ch == '\n' || ch == '\r'
    }

    fn is_letter(ch: char) -> (r: bool)
        ensures
            r == word_char(ch),
    {
        is_alphabetic(ch) || ch == '_'
    }

    fn is_digit(ch: char) -> (r: bool)
        ensures
            r == number_char(ch),
    {
        is_numeric(ch) || ch == '.' || ch == '_'
    }

    /// Consumes the rest of a word whose first character was consumed at `q`,
    /// and returns the whole word.
    fn read_identifier(&mut self, Ghost(q): Ghost<nat>) -> (r: String)
        requires
            old(self).wf(),
            old(self).consumed_at(q),
            q < old(self).input.len(),
        ensures
            final(self).wf(),
            final(self).input@ == old(self).input@,
            r@ == old(self).input@.subrange(q as int, word_end(old(self).input@, q + 1) as int),
            final(self).curr_position == word_end(old(self).input@, q + 1),
            final(self).consumed_at((word_end(old(self).input@, q + 1) - 1) as nat),
    {
        let ghost s = self.input@;
        let ghost mut j = q;
        let mut identifier = String::new();
        push_char(&mut identifier, self.processed_char);
        while self.curr_position < self.input.len() && Lexer::is_letter(self.peek_char())
            invariant
                self.wf(),
                self.input@ == s,
                q <= j < s.len(),
                self.consumed_at(j),
                identifier@ == s.subrange(q as int, j + 1int),
                word_end(s, q + 1) == word_end(s, j + 1),
            decreases s.len() - j,
        {
            self.read_char();
            proof {
                j = j + 1;
            }
            push_char(&mut identifier, self.processed_char);
            assert(identifier@ =~= s.subrange(q as int, j + 1int));
        }
        identifier
    }

    /// Consumes the rest of a number whose first character was consumed at
    /// `q`, and returns its text; fails on a text that ends in `.` or `_`.
    fn read_number(&mut self, Ghost(q): Ghost<nat>) -> (r: Result<String, LexError>)
        requires
            old(self).wf(),
            old(self).consumed_at(q),
            q < old(self).input.len(),
        ensures
            final(self).wf(),
            final(self).input@ == old(self).input@,
            final(self).curr_position == number_end(old(self).input@, q + 1),
            final(self).consumed_at((number_end(old(self).input@, q + 1) - 1) as nat),
            ({
                let w = old(self).input@.subrange(q as int, number_end(old(self).input@, q + 1) as int);
                match r {
                    Ok(n) => !malformed_number(w) && n@ == w,
                    Err(LexError::MalformedNumber(n)) => malformed_number(w) && n@ == w,
                }
            }),
    {
        let ghost s = self.input@;
        let ghost mut j = q;
        let mut number = String::new();
        push_char(&mut number, self.processed_char);
        while self.curr_position < self.input.len() && Lexer::is_digit(self.peek_char())
            invariant
                self.wf(),
                self.input@ == s,
                q <= j < s.len(),
                self.consumed_at(j),
                number@ == s.subrange(q as int, j + 1int),
                number_end(s, q + 1) == number_end(s, j + 1),
            decreases s.len() - j,
        {
            self.read_char();
            proof {
                j = j + 1;
            }
            push_char(&mut number, self.processed_char);
            assert(number@ =~= s.subrange(q as int, j + 1int));
        }
        if self.processed_char == '.' || self.processed_char == '_' {
            Err(LexError::MalformedNumber(number))
        } else {
            Ok(number)
        }
    }

    /// Whether a `.` stands in the text between `from` and `to`.
    fn has_point(&self, from: usize, to: usize) -> (r: bool)
        requires
            from <= to <= self.input.len(),
        ensures
            r == self.input@.subrange(from as int, to as int).contains('.'),
    {
        let mut i: usize = from;
        while i < to
            invariant
                from <= i <= to <= self.input.len(),
                !self.input@.subrange(from as int, i as int).contains('.'),
            decreases to - i,
        {
            if self.input[i] == '.' {
                assert(self.input@.subrange(from as int, to as int)[i - from] == '.');
                return true;
            }
            assert(self.input@.subrange(from as int, i + 1) =~= self.input@.subrange(from as int, i as int).push(self.input@[i as int]));
            i = i + 1;
        }
        false
    }

    /// Yields the next token: skips whitespace, then reads one token, taking
    /// `=` after `=`, `!`, `<` or `>` into a two-character operator, and a
    /// maximal run of characters into a word or a number. At the end of the
    /// text it yields `EndOfFile` and stays there. A number that ends in `.`
    /// or `_` fails with its text.
    pub fn next_token(&mut self) -> (r: Result<Token, LexError>)
        requires
            old(self).wf(),
        ensures
            final(self).wf(),
            final(self).text() == old(self).text(),
            outcome(r) == scan(old(self).text(), old(self).position()).0,
            final(self).position() == scan(old(self).text(), old(self).position()).1,
    {
        let ghost p = self.curr_position as nat;
        self.read_char();
        self.skip_whitespace();
        let ghost q = skip_blanks(self.input@, p);
        assert(self.consumed_at(q));
        let ch = self.processed_char;
        match ch {
            '=' | '!' | '<' | '>' => {
                if self.peek_char() == '=' {
                    self.read_char();
                    let t_type = match ch {
                        '=' => TokenType::Equal,
                        '!' => TokenType::NotEqual,
                        '<' => TokenType::LessOrEqual,
                        _ => TokenType::GreaterOrEqual,
                    };
                    Ok(Token { t_type, literal: pair_literal(ch) })
                } else {
                    let t_type = match ch {
                        '=' => TokenType::Assign,
                        '!' => TokenType::Bang,
                        '<' => TokenType::LessThan,
                        _ => TokenType::GreaterThan,
                    };
                    Ok(Token { t_type, literal: char_literal(ch) })
                }
            },
            '+' => Ok(Token { t_type: TokenType::Plus, literal: char_literal(ch) }),
            '-' => Ok(Token { t_type: TokenType::Minus, literal: char_literal(ch) }),
            '/' => Ok(Token { t_type: TokenType::Slash, literal: char_literal(ch) }),
            '*' => Ok(Token { t_type: TokenType::Asterisk, literal: char_literal(ch) }),
            '(' => Ok(Token { t_type: TokenType::OpenParenthesis, literal: char_literal(ch) }),
            ')' => Ok(Token { t_type: TokenType::CloseParenthesis, literal: char_literal(ch) }),
            '{' => Ok(Token { t_type: TokenType::OpenBrace, literal: char_literal(ch) }),
            '}' => Ok(Token { t_type: TokenType::CloseBrace, literal: char_literal(ch) }),
            ',' => Ok(Token { t_type: TokenType::Comma, literal: char_literal(ch) }),
            ';' => Ok(Token { t_type: TokenType::Semicolon, literal: char_literal(ch) }),
            '\0' => Ok(Token { t_type: TokenType::EndOfFile, literal: String::new() }),
            _ => {
                if Lexer::is_letter(ch) {
                    let literal = self.read_identifier(Ghost(q));
                    let t_type = lookup_identifier(&literal);
                    Ok(Token { t_type, literal })
                } else if is_numeric(ch) {
                    let start = self.curr_position - 1;
                    proof {
                        lemma_number_end_bounds(self.input@, q + 1);
                    }
                    match self.read_number(Ghost(q)) {
                        Ok(literal) => {
                            let t_type = if self.has_point(start, self.curr_position) {
                                TokenType::Double
                            } else {
                                TokenType::Integer
                            };
                            Ok(Token { t_type, literal })
                        },
                        Err(e) => Err(e),
                    }
                } else {
                    Ok(Token { t_type: TokenType::Illegal, literal: char_literal(ch) })
                }
            },
        }
    }
}

/// The views of a run of tokens.
pub open spec fn token_views(tokens: Seq<Token>) -> Seq<(TokenType, Seq<char>)> {
    tokens.map_values(|t: Token| t@)
}

/// What `tokenize` returned, as the views of its tokens or the text of the
/// malformed number.
pub open spec fn outcomes(r: Result<Vec<Token>, LexError>) -> Result<Seq<(TokenType, Seq<char>)>, Seq<char>> {
    match r {
        Ok(tokens) => Ok(token_views(tokens@)),
        Err(LexError::MalformedNumber(w)) => Err(w@),
    }
}

/// `prefix` in front of the tokens of `rest`, or the failure of `rest`.
pub open spec fn preceded_by(
    prefix: Seq<(TokenType, Seq<char>)>,
    rest: Result<Seq<(TokenType, Seq<char>)>, Seq<char>>,
) -> Result<Seq<(TokenType, Seq<char>)>, Seq<char>> {
    match rest {
        Ok(ts) => Ok(prefix + ts),
        Err(w) => Err(w),
    }
}

/// Tokenizes a whole text: the tokens up to the first `EndOfFile`, which is
/// left out, or the first malformed number.
pub fn tokenize(input: &str) -> (r: Result<Vec<Token>, LexError>)
    requires
        input@.len() < usize::MAX,
    ensures
        outcomes(r) == tokens_from(input@, 0),
{
    let mut lexer = Lexer::new(input);
    let mut tokens: Vec<Token> = Vec::new();
    loop
        invariant
            lexer.wf(),
            lexer.text() == input@,
            lexer.position() <= input@.len(),
            tokens_from(input@, 0) == preceded_by(token_views(tokens@), tokens_from(input@, lexer.position())),
        decreases input@.len() - lexer.position(),
    {
        let ghost p = lexer.position();
        proof {
            lemma_scan_advances(input@, p);
        }
        match lexer.next_token() {
            Ok(token) => {
                if token.t_type == TokenType::EndOfFile {
                    assert(token_views(tokens@) =~= token_views(tokens@) + Seq::empty());
                    return Ok(tokens);
                }
                proof {
                    assert(token_views(tokens@.push(token)) =~= token_views(tokens@) + seq![token@]);
                    assert(forall|a: Seq<(TokenType, Seq<char>)>, b: Seq<(TokenType, Seq<char>)>, c: Seq<(TokenType, Seq<char>)>| (a + b) + c =~= a + (b + c));
                }
                tokens.push(token);
            },
            Err(e) => {
                return Err(e);
            },
        }
    }
}

/// Tokenizing depends on the text alone: two runs over texts with the same
/// characters give the same tokens, or fail on the same number.
pub proof fn lemma_tokenize_deterministic(
    a: Seq<char>,
    b: Seq<char>,
    first: Result<Vec<Token>, LexError>,
    second: Result<Vec<Token>, LexError>,
)
    requires
        a == b,
        outcomes(first) == tokens_from(a, 0),
        outcomes(second) == tokens_from(b, 0),
    ensures
        outcomes(first) == outcomes(second),
{
}


} // verus!
