//! The tokenizer's model: which characters separate, start and continue
//! tokens, what one step of the tokenizer yields from a position of a text,
//! and the facts that follow about steps and runs of steps.
use vstd::prelude::*;
use crate::token::{keyword_kind, TokenType};

verus! {

/// What `char::is_alphabetic` answers for a character.
pub uninterp spec fn alphabetic(c: char) -> bool;

/// What `char::is_numeric` answers for a character.
pub uninterp spec fn numeric(c: char) -> bool;

/// Whitespace, which separates tokens and is never part of one.
pub open spec fn blank(c: char) -> bool {
    c == ' ' || c == '\t' || c == '\n' || c == '\r'
}

/// A character that starts or continues a word: a letter or `_`.
pub open spec fn word_char(c: char) -> bool {
    alphabetic(c) || c == '_'
}

/// A character that continues a number: a numeric character, `.` or `_`.
/// A number starts only at a numeric character.
pub open spec fn number_char(c: char) -> bool {
    numeric(c) || c == '.' || c == '_'
}

/// The first position at or after `p` that does not hold whitespace.
pub open spec fn skip_blanks(s: Seq<char>, p: nat) -> nat
    decreases s.len() - p,
{
    if p < s.len() && blank(s[p as int]) {
        skip_blanks(s, p + 1)
    } else {
        p
    }
}

/// The end of the run of word characters that starts at `p`.
pub open spec fn word_end(s: Seq<char>, p: nat) -> nat
    decreases s.len() - p,
{
    if p < s.len() && word_char(s[p as int]) {
        word_end(s, p + 1)
    } else {
        p
    }
}

/// The end of the run of number characters that starts at `p`.
pub open spec fn number_end(s: Seq<char>, p: nat) -> nat
    decreases s.len() - p,
{
    if p < s.len() && number_char(s[p as int]) {
        number_end(s, p + 1)
    } else {
        p
    }
}

/// A run of number characters ends at or after its start, and within the text.
pub proof fn lemma_number_end_bounds(s: Seq<char>, p: nat)
    ensures
        p <= number_end(s, p),
        p <= s.len() ==> number_end(s, p) <= s.len(),
    decreases s.len() - p,
{
    if p < s.len() && number_char(s[p as int]) {
        lemma_number_end_bounds(s, p + 1);
    }
}

/// A run of word characters ends at or after its start, and within the text.
pub proof fn lemma_word_end_bounds(s: Seq<char>, p: nat)
    ensures
        p <= word_end(s, p),
        p <= s.len() ==> word_end(s, p) <= s.len(),
    decreases s.len() - p,
{
    if p < s.len() && word_char(s[p as int]) {
        lemma_word_end_bounds(s, p + 1);
    }
}

/// The kind of a one-character token that never takes a second character.
pub open spec fn single_kind(c: char) -> Option<TokenType> {
    if c == '+' {
        Some(TokenType::Plus)
    } else if c == '-' {
        Some(TokenType::Minus)
    } else if c == '/' {
        Some(TokenType::Slash)
    } else if c == '*' {
        Some(TokenType::Asterisk)
    } else if c == '(' {
        Some(TokenType::OpenParenthesis)
    } else if c == ')' {
        Some(TokenType::CloseParenthesis)
    } else if c == '{' {
        Some(TokenType::OpenBrace)
    } else if c == '}' {
        Some(TokenType::CloseBrace)
    } else if c == ',' {
        Some(TokenType::Comma)
    } else if c == ';' {
        Some(TokenType::Semicolon)
    } else {
        None
    }
}

/// For a character that may be followed by `=` to form a two-character
/// operator: its kind alone, and the kind of the operator with `=`.
pub open spec fn pair_kinds(c: char) -> Option<(TokenType, TokenType)> {
    if c == '=' {
        Some((TokenType::Assign, TokenType::Equal))
    } else if c == '!' {
        Some((TokenType::Bang, TokenType::NotEqual))
    } else if c == '<' {
        Some((TokenType::LessThan, TokenType::LessOrEqual))
    } else if c == '>' {
        Some((TokenType::GreaterThan, TokenType::GreaterOrEqual))
    } else {
        None
    }
}

/// A number literal that ends in `.` or `_` is malformed.
pub open spec fn malformed_number(w: Seq<char>) -> bool {
    w.last() == '.' || w.last() == '_'
}

/// The kind of a well-formed number literal.
pub open spec fn number_kind(w: Seq<char>) -> TokenType {
    if w.contains('.') {
        TokenType::Double
    } else {
        TokenType::Integer
    }
}

/// One step of the tokenizer on text `s` from position `p`: the token found
/// after any whitespace (or the text of a malformed number), and the position
/// just past what was consumed.
pub open spec fn scan(s: Seq<char>, p: nat) -> (Result<(TokenType, Seq<char>), Seq<char>>, nat) {
    let q = skip_blanks(s, p);
    if q >= s.len() {
        (Ok((TokenType::EndOfFile, Seq::empty())), q)
    } else {
        let c = s[q as int];
        if pair_kinds(c) is Some {
            let (alone, with_equals) = pair_kinds(c)->0;
            if q + 1 < s.len() && s[q + 1int] == '=' {
                (Ok((with_equals, seq![c, '='])), q + 2)
            } else {
                (Ok((alone, seq![c])), q + 1)
            }
        } else if single_kind(c) is Some {
            (Ok((single_kind(c)->0, seq![c])), q + 1)
        } else if c == '\0' {
            (Ok((TokenType::EndOfFile, Seq::empty())), q + 1)
        } else if word_char(c) {
            let w = s.subrange(q as int, word_end(s, q + 1) as int);
            (Ok((keyword_kind(w), w)), word_end(s, q + 1))
        } else if numeric(c) {
            let w = s.subrange(q as int, number_end(s, q + 1) as int);
            if malformed_number(w) {
                (Err(w), number_end(s, q + 1))
            } else {
                (Ok((number_kind(w), w)), number_end(s, q + 1))
            }
        } else {
            (Ok((TokenType::Illegal, seq![c])), q + 1)
        }
    }
}

/// Whitespace skipping stops at or after its start, and within the text.
pub proof fn lemma_skip_blanks_bounds(s: Seq<char>, p: nat)
    ensures
        p <= skip_blanks(s, p),
        p <= s.len() ==> skip_blanks(s, p) <= s.len(),
    decreases s.len() - p,
{
    if p < s.len() && blank(s[p as int]) {
        lemma_skip_blanks_bounds(s, p + 1);
    }
}

/// A step stays within the text and never moves back; every step but the one
/// that yields `EndOfFile` at the end of the text moves forward.
pub proof fn lemma_scan_advances(s: Seq<char>, p: nat)
    ensures
        p <= scan(s, p).1,
        p <= s.len() ==> scan(s, p).1 <= s.len(),
        p < s.len() ==> p < scan(s, p).1,
        scan(s, p).0 != Ok::<(TokenType, Seq<char>), Seq<char>>((TokenType::EndOfFile, Seq::empty()))
            ==> p < scan(s, p).1,
{
    let q = skip_blanks(s, p);
    lemma_skip_blanks_bounds(s, p);
    if q < s.len() {
        lemma_word_end_bounds(s, q + 1);
        lemma_number_end_bounds(s, q + 1);
    }
}

/// The tokens of `s` from position `p` up to the first `EndOfFile`, which is
/// left out; or the text of the first malformed number.
pub open spec fn tokens_from(s: Seq<char>, p: nat) -> Result<Seq<(TokenType, Seq<char>)>, Seq<char>>
    decreases s.len() - p,
{
    match scan(s, p).0 {
        Err(w) => Err(w),
        Ok((kind, literal)) => {
            if kind == TokenType::EndOfFile {
                Ok(Seq::empty())
            } else {
                proof {
                    lemma_scan_advances(s, p);
                }
                match tokens_from(s, scan(s, p).1) {
                    Ok(rest) => Ok(seq![(kind, literal)] + rest),
                    Err(w) => Err(w),
                }
            }
        },
    }
}

/// Where the cursor stands after `n` steps from position `p`.
pub open spec fn position_after(s: Seq<char>, p: nat, n: nat) -> nat
    decreases n,
{
    if n == 0 {
        p
    } else {
        position_after(s, scan(s, p).1, (n - 1) as nat)
    }
}

/// From any position, at most as many steps as characters are left bring the
/// cursor to the end of the text, where every further step yields
/// `EndOfFile` with an empty text and leaves the cursor where it is.
pub proof fn lemma_reaches_end_of_file(s: Seq<char>, p: nat, n: nat)
    requires
        p <= s.len(),
        n >= s.len() - p,
    ensures
        position_after(s, p, n) == s.len(),
        scan(s, position_after(s, p, n))
            == (Ok::<(TokenType, Seq<char>), Seq<char>>((TokenType::EndOfFile, Seq::empty())), s.len()),
    decreases n,
{
    if n > 0 {
        lemma_scan_advances(s, p);
        if p < s.len() {
            lemma_reaches_end_of_file(s, scan(s, p).1, (n - 1) as nat);
        } else {
            lemma_reaches_end_of_file(s, p, (n - 1) as nat);
        }
    }
}

/// `=`, `!`, `<` and `>` followed by `=` make one two-character operator;
/// followed by anything else, or by nothing, they make a token of their own.
pub proof fn lemma_operator_lookahead(s: Seq<char>, p: nat)
    requires
        skip_blanks(s, p) < s.len(),
        pair_kinds(s[skip_blanks(s, p) as int]) is Some,
    ensures
        ({
            let q = skip_blanks(s, p);
            let c = s[q as int];
            let (alone, with_equals) = pair_kinds(c)->0;
            &&& (q + 1 < s.len() && s[q + 1int] == '=') ==> scan(s, p)
                == (Ok::<(TokenType, Seq<char>), Seq<char>>((with_equals, seq![c, '='])), q + 2)
            &&& !(q + 1 < s.len() && s[q + 1int] == '=') ==> scan(s, p)
                == (Ok::<(TokenType, Seq<char>), Seq<char>>((alone, seq![c])), q + 1)
        }),
{
}

/// A word or a number is read whole: its token holds every character from
/// its first one up to the first character that cannot continue it, or the
/// end of the text.
pub proof fn lemma_maximal_munch(s: Seq<char>, p: nat)
    requires
        skip_blanks(s, p) < s.len(),
        pair_kinds(s[skip_blanks(s, p) as int]) is None,
        single_kind(s[skip_blanks(s, p) as int]) is None,
        s[skip_blanks(s, p) as int] != '\0',
        word_char(s[skip_blanks(s, p) as int]) || numeric(s[skip_blanks(s, p) as int]),
    ensures
        ({
            let q = skip_blanks(s, p);
            let e = scan(s, p).1;
            let continues = |c: char|
                if word_char(s[q as int]) {
                    word_char(c)
                } else {
                    number_char(c)
                };
            &&& q < e <= s.len()
            &&& forall|i: int| q < i < e ==> #[trigger] continues(s[i])
            &&& e < s.len() ==> !continues(s[e as int])
            &&& match scan(s, p).0 {
                Ok((_, literal)) => literal == s.subrange(q as int, e as int),
                Err(literal) => literal == s.subrange(q as int, e as int),
            }
        }),
{
    let q = skip_blanks(s, p);
    if word_char(s[q as int]) {
        lemma_word_run(s, q + 1);
    } else {
        lemma_number_run(s, q + 1);
    }
}

proof fn lemma_word_run(s: Seq<char>, p: nat)
    requires
        p <= s.len(),
    ensures
        p <= word_end(s, p) <= s.len(),
        forall|i: int| p <= i < word_end(s, p) ==> word_char(#[trigger] s[i]),
        word_end(s, p) < s.len() ==> !word_char(s[word_end(s, p) as int]),
    decreases s.len() - p,
{
    if p < s.len() && word_char(s[p as int]) {
        lemma_word_run(s, p + 1);
    }
}

proof fn lemma_number_run(s: Seq<char>, p: nat)
    requires
        p <= s.len(),
    ensures
        p <= number_end(s, p) <= s.len(),
        forall|i: int| p <= i < number_end(s, p) ==> number_char(#[trigger] s[i]),
        number_end(s, p) < s.len() ==> !number_char(s[number_end(s, p) as int]),
    decreases s.len() - p,
{
    if p < s.len() && number_char(s[p as int]) {
        lemma_number_run(s, p + 1);
    }
}

/// A number, which starts at a numeric character, whose run of characters
/// ends in `.` or `_` is never a token: the step fails with the whole run as
/// its text.
pub proof fn lemma_malformed_number_fails(s: Seq<char>, p: nat)
    requires
        skip_blanks(s, p) < s.len(),
        pair_kinds(s[skip_blanks(s, p) as int]) is None,
        single_kind(s[skip_blanks(s, p) as int]) is None,
        s[skip_blanks(s, p) as int] != '\0',
        !word_char(s[skip_blanks(s, p) as int]),
        numeric(s[skip_blanks(s, p) as int]),
        malformed_number(
            s.subrange(
                skip_blanks(s, p) as int,
                number_end(s, skip_blanks(s, p) + 1) as int,
            ),
        ),
    ensures
        scan(s, p).0 == Err::<(TokenType, Seq<char>), Seq<char>>(
            s.subrange(skip_blanks(s, p) as int, number_end(s, skip_blanks(s, p) + 1) as int),
        ),
{
}

} // verus!
