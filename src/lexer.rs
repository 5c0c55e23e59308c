//! Splits source text into tokens.
use vstd::prelude::*;

use vstd::std_specs::iter::IteratorSpec;

use crate::err::InterpError;

verus! {

/// A token of the language.
#[derive(Debug, PartialEq)]
pub enum Token {
    Num(u64),
    Ident(String),
    True,
    False,
    Let,
    Fun,
    Return,
    If,
    Else,
    Println,
    LParen,
    RParen,
    LBrace,
    RBrace,
    Comma,
    Semi,
    Plus,
    Star,
    Lt,
    Gt,
    EqEq,
    NotEq,
    AndAnd,
    OrOr,
    Assign,
}

/// The model of a token, with names as character sequences.
pub ghost enum TokM {
    Num(u64),
    Ident(Seq<char>),
    True,
    False,
    Let,
    Fun,
    Return,
    If,
    Else,
    Println,
    LParen,
    RParen,
    LBrace,
    RBrace,
    Comma,
    Semi,
    Plus,
    Star,
    Lt,
    Gt,
    EqEq,
    NotEq,
    AndAnd,
    OrOr,
    Assign,
}

pub open spec fn tok_m(t: Token) -> TokM {
    match t {
        Token::Num(n) => TokM::Num(n),
        Token::Ident(s) => TokM::Ident(s@),
        Token::True => TokM::True,
        Token::False => TokM::False,
        Token::Let => TokM::Let,
        Token::Fun => TokM::Fun,
        Token::Return => TokM::Return,
        Token::If => TokM::If,
        Token::Else => TokM::Else,
        Token::Println => TokM::Println,
        Token::LParen => TokM::LParen,
        Token::RParen => TokM::RParen,
        Token::LBrace => TokM::LBrace,
        Token::RBrace => TokM::RBrace,
        Token::Comma => TokM::Comma,
        Token::Semi => TokM::Semi,
        Token::Plus => TokM::Plus,
        Token::Star => TokM::Star,
        Token::Lt => TokM::Lt,
        Token::Gt => TokM::Gt,
        Token::EqEq => TokM::EqEq,
        Token::NotEq => TokM::NotEq,
        Token::AndAnd => TokM::AndAnd,
        Token::OrOr => TokM::OrOr,
        Token::Assign => TokM::Assign,
    }
}

pub open spec fn toks_m(s: Seq<Token>) -> Seq<TokM> {
    s.map_values(|t: Token| tok_m(t))
}

pub open spec fn is_digit(c: char) -> bool {
    '0' <= c && c <= '9'
}

pub open spec fn is_ident_start(c: char) -> bool {
    ('a' <= c && c <= 'z') || ('A' <= c && c <= 'Z') || c == '_'
}

pub open spec fn is_ident_char(c: char) -> bool {
    is_ident_start(c) || is_digit(c)
}

pub open spec fn is_space(c: char) -> bool {
    c == ' ' || c == '\t' || c == '\n' || c == '\r'
}

/// The end of the run of identifier characters that starts at `i`.
pub open spec fn ident_end(cs: Seq<char>, i: nat) -> nat
    decreases cs.len() - i,
{
    if i < cs.len() && is_ident_char(cs[i as int]) {
        ident_end(cs, i + 1)
    } else {
        i
    }
}

/// The end of the run of digits that starts at `i`.
pub open spec fn digits_end(cs: Seq<char>, i: nat) -> nat
    decreases cs.len() - i,
{
    if i < cs.len() && is_digit(cs[i as int]) {
        digits_end(cs, i + 1)
    } else {
        i
    }
}

/// The position of the line break that ends the line holding `i`, or the
/// end of the text.
pub open spec fn line_end(cs: Seq<char>, i: nat) -> nat
    decreases cs.len() - i,
{
    if i < cs.len() && cs[i as int] != '\n' {
        line_end(cs, i + 1)
    } else {
        i
    }
}

/// The value of a decimal digit.
pub open spec fn digit_val(c: char) -> nat {
    (c as u32 as int - '0' as u32 as int) as nat
}

/// The number that the digits in `[i, j)` write in decimal.
pub open spec fn digits_val(cs: Seq<char>, i: nat, j: nat) -> nat
    decreases j,
{
    if j <= i {
        0
    } else {
        digits_val(cs, i, (j - 1) as nat) * 10 + digit_val(cs[j - 1])
    }
}

/// A word: a keyword, or else a name.
pub open spec fn word_m(w: Seq<char>) -> TokM {
    if w == "let"@ {
        TokM::Let
    } else if w == "fun"@ {
        TokM::Fun
    } else if w == "return"@ {
        TokM::Return
    } else if w == "if"@ {
        TokM::If
    } else if w == "else"@ {
        TokM::Else
    } else if w == "println"@ {
        TokM::Println
    } else if w == "true"@ {
        TokM::True
    } else if w == "false"@ {
        TokM::False
    } else {
        TokM::Ident(w)
    }
}

/// The operator or punctuation token at `i`, and its length; `None` where
/// the character starts no token.
pub open spec fn symbol_m(cs: Seq<char>, i: nat) -> Option<(TokM, nat)> {
    let c = cs[i as int];
    let next = if i + 1 < cs.len() {
        cs[i + 1 as int]
    } else {
        ' '
    };
    if c == '=' && next == '=' {
        Some((TokM::EqEq, 2))
    } else if c == '!' && next == '=' {
        Some((TokM::NotEq, 2))
    } else if c == '&' && next == '&' {
        Some((TokM::AndAnd, 2))
    } else if c == '|' && next == '|' {
        Some((TokM::OrOr, 2))
    } else if c == '=' {
        Some((TokM::Assign, 1))
    } else if c == '(' {
        Some((TokM::LParen, 1))
    } else if c == ')' {
        Some((TokM::RParen, 1))
    } else if c == '{' {
        Some((TokM::LBrace, 1))
    } else if c == '}' {
        Some((TokM::RBrace, 1))
    } else if c == ',' {
        Some((TokM::Comma, 1))
    } else if c == ';' {
        Some((TokM::Semi, 1))
    } else if c == '+' {
        Some((TokM::Plus, 1))
    } else if c == '*' {
        Some((TokM::Star, 1))
    } else if c == '<' {
        Some((TokM::Lt, 1))
    } else if c == '>' {
        Some((TokM::Gt, 1))
    } else {
        None
    }
}

/// The token that starts at `i` (after no white space), with the position
/// after it; `None` for a character that starts no token or a number too
/// large for 64 bits.
pub open spec fn token_at(cs: Seq<char>, i: nat) -> Option<(TokM, nat)> {
    let c = cs[i as int];
    if is_digit(c) {
        let e = digits_end(cs, i);
        let v = digits_val(cs, i, e);
        if v <= u64::MAX {
            Some((TokM::Num(v as u64), e))
        } else {
            None
        }
    } else if is_ident_start(c) {
        let e = ident_end(cs, i);
        Some((word_m(cs.subrange(i as int, e as int)), e))
    } else {
        match symbol_m(cs, i) {
            Some((t, n)) => Some((t, i + n)),
            None => None,
        }
    }
}

/// The tokens of the text from position `i` on. White space separates
/// tokens, and `//` starts a comment that runs to the end of the line.
pub open spec fn lex_m(cs: Seq<char>, i: nat) -> Option<Seq<TokM>>
    decreases cs.len() - i,
{
    if i >= cs.len() {
        Some(Seq::empty())
    } else if is_space(cs[i as int]) {
        lex_m(cs, i + 1)
    } else if cs[i as int] == '/' && i + 1 < cs.len() && cs[i + 1 as int] == '/' {
        let e = line_end(cs, i);
        if i < e <= cs.len() {
            lex_m(cs, e)
        } else {
            None
        }
    } else {
        match token_at(cs, i) {
            Some((t, e)) => if i < e <= cs.len() {
                match lex_m(cs, e) {
                    Some(rest) => Some(seq![t] + rest),
                    None => None,
                }
            } else {
                None
            },
            None => None,
        }
    }
}

/// A longer run of digits is worth at least as much.
proof fn lemma_digits_mono(cs: Seq<char>, i: nat, j: nat, e: nat)
    requires
        i <= j <= e,
    ensures
        digits_val(cs, i, j) <= digits_val(cs, i, e),
    decreases e - j,
{
    if j < e {
        lemma_digits_mono(cs, i, j, (e - 1) as nat);
        let v = digits_val(cs, i, (e - 1) as nat);
        assert(v * 10 >= v) by (nonlinear_arith);
    }
}

/// The characters of a text.
fn chars_of(src: &str) -> (r: Vec<char>)
    ensures
        r@ == src@,
{
    let mut it = src.chars();
    let mut r: Vec<char> = Vec::new();
    loop
        invariant
            it.obeys_prophetic_iter_laws(),
            r@ + it.remaining() == src@,
            it.decrease() is Some,
        ensures
            r@ == src@,
        decreases src@.len() - r@.len(),
    {
        match it.next() {
            Some(c) => {
                r.push(c);
                assert(r@ + it.remaining() =~= src@);
            },
            None => {
                assert(r@ =~= src@);
                break;
            },
        }
    }
    r
}

fn is_digit_char(c: char) -> (r: bool)
    ensures
        r == is_digit(c),
{
    '0' <= c && c <= '9'
}

fn is_ident_start_char(c: char) -> (r: bool)
    ensures
        r == is_ident_start(c),
{
    ('a' <= c && c <= 'z') || ('A' <= c && c <= 'Z') || c == '_'
}

/// The end of the run of identifier characters that starts at `i`.
fn scan_ident_end(cs: &Vec<char>, i: usize) -> (r: usize)
    requires
        i <= cs@.len(),
    ensures
        r == ident_end(cs@, i as nat),
        i <= r <= cs@.len(),
{
    let mut j = i;
    while j < cs.len() && (is_ident_start_char(cs[j]) || is_digit_char(cs[j]))
        invariant
            i <= j <= cs@.len(),
            ident_end(cs@, i as nat) == ident_end(cs@, j as nat),
        decreases cs@.len() - j,
    {
        j += 1;
    }
    j
}

/// The end of the line that holds `i`.
fn scan_line_end(cs: &Vec<char>, i: usize) -> (r: usize)
    requires
        i <= cs@.len(),
    ensures
        r == line_end(cs@, i as nat),
        i <= r <= cs@.len(),
{
    let mut j = i;
    while j < cs.len() && cs[j] != '\n'
        invariant
            i <= j <= cs@.len(),
            line_end(cs@, i as nat) == line_end(cs@, j as nat),
        decreases cs@.len() - j,
    {
        j += 1;
    }
    j
}

/// The number written by the digits from `i` on, with the position after
/// them; `None` where it does not fit in 64 bits.
fn scan_number(cs: &Vec<char>, i: usize) -> (r: Option<(u64, usize)>)
    requires
        i <= cs@.len(),
    ensures
        ({
            let e = digits_end(cs@, i as nat);
            let v = digits_val(cs@, i as nat, e);
            if v <= u64::MAX {
                r == Some((v as u64, e as usize)) && e <= cs@.len()
            } else {
                r is None
            }
        }),
{
    let mut j = i;
    let mut acc: u64 = 0;
    while j < cs.len() && is_digit_char(cs[j])
        invariant
            i <= j <= cs@.len(),
            digits_end(cs@, i as nat) == digits_end(cs@, j as nat),
            acc == digits_val(cs@, i as nat, j as nat),
        decreases cs@.len() - j,
    {
        let d = (cs[j] as u32 - '0' as u32) as u64;
        assert(d == digit_val(cs@[j as int]));
        match acc.checked_mul(10) {
            Some(m) => match m.checked_add(d) {
                Some(v) => {
                    acc = v;
                },
                None => {
                    proof {
                        lemma_digits_end_ge(cs@, (j + 1) as nat);
                        lemma_digits_mono(cs@, i as nat, (j + 1) as nat, digits_end(cs@, (j + 1) as nat));
                    }
                    return None;
                },
            },
            None => {
                proof {
                    lemma_digits_end_ge(cs@, (j + 1) as nat);
                    lemma_digits_mono(cs@, i as nat, (j + 1) as nat, digits_end(cs@, (j + 1) as nat));
                }
                return None;
            },
        }
        j += 1;
    }
    Some((acc, j))
}

proof fn lemma_digits_end_ge(cs: Seq<char>, i: nat)
    ensures
        digits_end(cs, i) >= i,
    decreases cs.len() - i,
{
    if i < cs.len() && is_digit(cs[i as int]) {
        lemma_digits_end_ge(cs, i + 1);
    }
}

proof fn lemma_ident_end_ge(cs: Seq<char>, i: nat)
    ensures
        ident_end(cs, i) >= i,
    decreases cs.len() - i,
{
    if i < cs.len() && is_ident_char(cs[i as int]) {
        lemma_ident_end_ge(cs, i + 1);
    }
}

/// A word as a token: a keyword, or else a name.
fn word_token(w: String) -> (r: Token)
    ensures
        tok_m(r) == word_m(w@),
{
    if w == "let".to_owned() {
        Token::Let
    } else if w == "fun".to_owned() {
        Token::Fun
    } else if w == "return".to_owned() {
        Token::Return
    } else if w == "if".to_owned() {
        Token::If
    } else if w == "else".to_owned() {
        Token::Else
    } else if w == "println".to_owned() {
        Token::Println
    } else if w == "true".to_owned() {
        Token::True
    } else if w == "false".to_owned() {
        Token::False
    } else {
        Token::Ident(w)
    }
}

/// The operator or punctuation token at `i`, with its length.
fn symbol_at(cs: &Vec<char>, i: usize) -> (r: Option<(Token, usize)>)
    requires
        i < cs@.len(),
    ensures
        match symbol_m(cs@, i as nat) {
            Some((t, n)) => r matches Some((x, m)) && tok_m(x) == t && m == n,
            None => r is None,
        },
{
    let c = cs[i];
    let next = if i < cs.len() - 1 {
        cs[i + 1]
    } else {
        ' '
    };
    if c == '=' && next == '=' {
        Some((Token::EqEq, 2))
    } else if c == '!' && next == '=' {
        Some((Token::NotEq, 2))
    } else if c == '&' && next == '&' {
        Some((Token::AndAnd, 2))
    } else if c == '|' && next == '|' {
        Some((Token::OrOr, 2))
    } else if c == '=' {
        Some((Token::Assign, 1))
    } else if c == '(' {
        Some((Token::LParen, 1))
    } else if c == ')' {
        Some((Token::RParen, 1))
    } else if c == '{' {
        Some((Token::LBrace, 1))
    } else if c == '}' {
        Some((Token::RBrace, 1))
    } else if c == ',' {
        Some((Token::Comma, 1))
    } else if c == ';' {
        Some((Token::Semi, 1))
    } else if c == '+' {
        Some((Token::Plus, 1))
    } else if c == '*' {
        Some((Token::Star, 1))
    } else if c == '<' {
        Some((Token::Lt, 1))
    } else if c == '>' {
        Some((Token::Gt, 1))
    } else {
        None
    }
}

fn lex_error(msg: &str) -> (r: InterpError)
    ensures
        r is ParseError,
{
    InterpError::ParseError(msg.to_owned())
}

/// Splits source text into tokens; fails on a character that starts no
/// token and on a number too large for 64 bits.
pub fn tokenize(src: &str) -> (r: Result<Vec<Token>, InterpError>)
    ensures
        match lex_m(src@, 0) {
            Some(ts) => r matches Ok(v) && toks_m(v@) == ts,
            None => r matches Err(e) && e is ParseError,
        },
{
    let cs = chars_of(src);
    let n = cs.len();
    let mut i: usize = 0;
    let mut toks: Vec<Token> = Vec::new();
    assert(toks_m(toks@) =~= Seq::<TokM>::empty());
    while i < n
        invariant
            i <= n,
            n == cs@.len(),
            cs@ == src@,
            lex_m(src@, 0) == match lex_m(src@, i as nat) {
                Some(rest) => Some(toks_m(toks@) + rest),
                None => None,
            },
        decreases n - i,
    {
        let c = cs[i];
        if c == ' ' || c == '\t' || c == '\n' || c == '\r' {
            i += 1;
        } else if c == '/' && i + 1 < n && cs[i + 1] == '/' {
            i = scan_line_end(&cs, i + 1);
        } else {
            let ghost before = toks@;
            let e: usize;
            if is_digit_char(c) {
                match scan_number(&cs, i) {
                    Some((v, end)) => {
                        toks.push(Token::Num(v));
                        e = end;
                    },
                    None => {
                        return Err(lex_error("number does not fit in 64 bits"));
                    },
                }
            } else if is_ident_start_char(c) {
                let end = scan_ident_end(&cs, i);
                let w = src.substring_char(i, end).to_owned();
                toks.push(word_token(w));
                e = end;
            } else {
                match symbol_at(&cs, i) {
                    Some((t, len)) => {
                        toks.push(t);
                        e = i + len;
                    },
                    None => {
                        return Err(lex_error("unexpected character"));
                    },
                }
            }
            proof {
                lemma_digits_end_ge(cs@, (i + 1) as nat);
                lemma_ident_end_ge(cs@, (i + 1) as nat);
                assert(e > i);
                assert(toks_m(toks@) =~= toks_m(before).push(tok_m(toks@.last())));
                match lex_m(src@, e as nat) {
                    Some(rest) => {
                        assert(toks_m(toks@) + rest =~= toks_m(before) + (seq![tok_m(toks@.last())] + rest));
                    },
                    None => {},
                }
            }
            i = e;
        }
    }
    assert(toks_m(toks@) + Seq::<TokM>::empty() =~= toks_m(toks@));
    Ok(toks)
}

/// Each token takes at least one character.
pub proof fn lemma_lex_len(cs: Seq<char>, i: nat)
    requires
        i <= cs.len(),
    ensures
        lex_m(cs, i) matches Some(ts) ==> i + ts.len() <= cs.len(),
    decreases cs.len() - i,
{
    if i < cs.len() {
        if is_space(cs[i as int]) {
            lemma_lex_len(cs, i + 1);
        } else if cs[i as int] == '/' && i + 1 < cs.len() && cs[i + 1 as int] == '/' {
            let e = line_end(cs, i);
            if i < e <= cs.len() {
                lemma_lex_len(cs, e);
            }
        } else {
            match token_at(cs, i) {
                Some((t, e)) => if i < e <= cs.len() {
                    lemma_lex_len(cs, e);
                },
                None => {},
            }
        }
    }
}

} // verus!
