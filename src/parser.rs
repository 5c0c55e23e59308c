//! Parses tokens into syntax trees.
//!
//! Grammar, loosest binding first:
//!
//! ```text
//! program := stmt*
//! stmt    := "let" NAME ("=" expr)? end
//!          | "fun" NAME "(" (NAME ("," NAME)*)? ")" "{" stmt* "}"
//!          | "return" expr end
//!          | "if" "(" expr ")" "{" stmt* "}" ("else" "{" stmt* "}")?
//!          | "println" "(" expr ")" end
//!          | NAME "=" expr end
//!          | ";"
//!          | expr end
//! end     := ";" | before "}" or the end of the text
//! expr    := or;   or := and ("||" and)*;   and := eq ("&&" eq)*
//! eq      := cmp (("==" | "!=") cmp)*;      cmp := add (("<" | ">") add)*
//! add     := mul ("+" mul)*;                mul := primary ("*" primary)*
//! primary := NUMBER | "true" | "false" | NAME | NAME "(" (expr ("," expr)*)? ")"
//!          | "(" expr ")"
//! ```
use vstd::prelude::*;

use crate::ast::{ast_m, asts_m, lemma_asts_m_push, AstM, AstNode};
use crate::err::InterpError;
use crate::lexer::{lex_m, tok_m, tokenize, toks_m, TokM, Token};

verus! {

/// The binary operators, one kind per tree node.
pub enum BinKind {
    Or,
    And,
    Eq,
    Ne,
    Lt,
    Gt,
    Add,
    Mul,
}

/// The token at `p`, if any.
pub open spec fn at(t: Seq<TokM>, p: nat) -> Option<TokM> {
    if p < t.len() {
        Some(t[p as int])
    } else {
        None
    }
}

/// The operator that token `tok` stands for at precedence level `l`
/// (0 for `||` up to 5 for `*`).
pub open spec fn op_at(l: nat, tok: Option<TokM>) -> Option<BinKind> {
    match tok {
        Some(TokM::OrOr) => if l == 0 { Some(BinKind::Or) } else { None },
        Some(TokM::AndAnd) => if l == 1 { Some(BinKind::And) } else { None },
        Some(TokM::EqEq) => if l == 2 { Some(BinKind::Eq) } else { None },
        Some(TokM::NotEq) => if l == 2 { Some(BinKind::Ne) } else { None },
        Some(TokM::Lt) => if l == 3 { Some(BinKind::Lt) } else { None },
        Some(TokM::Gt) => if l == 3 { Some(BinKind::Gt) } else { None },
        Some(TokM::Plus) => if l == 4 { Some(BinKind::Add) } else { None },
        Some(TokM::Star) => if l == 5 { Some(BinKind::Mul) } else { None },
        _ => None,
    }
}

/// The tree of a binary operator.
pub open spec fn mk_m(k: BinKind, l: AstM, r: AstM) -> AstM {
    let (l, r) = (Box::new(l), Box::new(r));
    match k {
        BinKind::Or => AstM::LogicalOr(l, r),
        BinKind::And => AstM::LogicalAnd(l, r),
        BinKind::Eq => AstM::Equal(l, r),
        BinKind::Ne => AstM::NotEqual(l, r),
        BinKind::Lt => AstM::LessThan(l, r),
        BinKind::Gt => AstM::GreaterThan(l, r),
        BinKind::Add => AstM::Add(l, r),
        BinKind::Mul => AstM::Mul(l, r),
    }
}

/// A primary expression at `p`, with the position after it.
pub open spec fn primary_m(t: Seq<TokM>, p: nat) -> Option<(AstM, nat)>
    decreases t.len() - p, 2nat,
{
    match at(t, p) {
        Some(TokM::Num(n)) => Some((AstM::Number(n), p + 1)),
        Some(TokM::True) => Some((AstM::Boolean(true), p + 1)),
        Some(TokM::False) => Some((AstM::Boolean(false), p + 1)),
        Some(TokM::Ident(name)) => if at(t, p + 1) == Some(TokM::LParen) {
            if at(t, p + 2) == Some(TokM::RParen) {
                Some((AstM::FunctionCall(name, Seq::empty()), p + 3))
            } else if p + 2 <= t.len() {
                match args_list_m(t, p + 2, Seq::empty()) {
                    Some((args, q)) => Some((AstM::FunctionCall(name, args), q)),
                    None => None,
                }
            } else {
                None
            }
        } else {
            Some((AstM::ID(name), p + 1))
        },
        Some(TokM::LParen) => match expr_m(t, p + 1) {
            Some((e, q)) => if at(t, q) == Some(TokM::RParen) {
                Some((e, q + 1))
            } else {
                None
            },
            None => None,
        },
        _ => None,
    }
}

/// The arguments of a call from `p` on, after those in `acc`, up to and
/// including the closing parenthesis.
pub open spec fn args_list_m(t: Seq<TokM>, p: nat, acc: Seq<AstM>) -> Option<(Seq<AstM>, nat)>
    decreases t.len() - p, 11nat,
{
    if p >= t.len() {
        None
    } else {
        match expr_m(t, p) {
            Some((e, q)) => if at(t, q) == Some(TokM::RParen) {
                Some((acc.push(e), q + 1))
            } else if at(t, q) == Some(TokM::Comma) && p < q + 1 <= t.len() {
                args_list_m(t, q + 1, acc.push(e))
            } else {
                None
            },
            None => None,
        }
    }
}

/// An expression at precedence level `l` or tighter.
pub open spec fn bin_m(t: Seq<TokM>, p: nat, l: nat) -> Option<(AstM, nat)>
    decreases t.len() - p, 8 - l,
{
    if l > 5 {
        None
    } else {
        let first = if l == 5 {
            primary_m(t, p)
        } else {
            bin_m(t, p, l + 1)
        };
        match first {
            Some((lhs, q)) => if p < q <= t.len() {
                rest_m(t, q, l, lhs)
            } else {
                None
            },
            None => None,
        }
    }
}

/// The operators of level `l` and their right operands from `p` on, folded
/// to the left onto `lhs`.
pub open spec fn rest_m(t: Seq<TokM>, p: nat, l: nat, lhs: AstM) -> Option<(AstM, nat)>
    decreases t.len() - p, 0nat,
{
    match op_at(l, at(t, p)) {
        Some(k) => {
            let next = if l >= 5 {
                primary_m(t, p + 1)
            } else {
                bin_m(t, p + 1, l + 1)
            };
            match next {
                Some((rhs, q)) => if p < q <= t.len() {
                    rest_m(t, q, l, mk_m(k, lhs, rhs))
                } else {
                    None
                },
                None => None,
            }
        },
        None => Some((lhs, p)),
    }
}

/// An expression at `p`.
pub open spec fn expr_m(t: Seq<TokM>, p: nat) -> Option<(AstM, nat)>
    decreases t.len() - p, 9nat,
{
    bin_m(t, p, 0)
}

/// Where a statement that ends at `q` is over: after a `;`, or at `q`
/// itself before a `}` or the end of the text.
pub open spec fn end_m(t: Seq<TokM>, q: nat) -> Option<nat> {
    match at(t, q) {
        Some(TokM::Semi) => Some(q + 1),
        Some(TokM::RBrace) => Some(q),
        None => if q == t.len() {
            Some(q)
        } else {
            None
        },
        _ => None,
    }
}

/// The parameter names of a declaration from `p` on, after those in
/// `acc`, up to and including the closing parenthesis.
pub open spec fn params_list_m(t: Seq<TokM>, p: nat, acc: Seq<AstM>) -> Option<(Seq<AstM>, nat)>
    decreases t.len() - p,
{
    match at(t, p) {
        Some(TokM::Ident(name)) => if at(t, p + 1) == Some(TokM::RParen) {
            Some((acc.push(AstM::ID(name)), p + 2))
        } else if at(t, p + 1) == Some(TokM::Comma) {
            params_list_m(t, p + 2, acc.push(AstM::ID(name)))
        } else {
            None
        },
        _ => None,
    }
}

/// The parameters of a declaration whose `(` is just before `p`.
pub open spec fn params_m(t: Seq<TokM>, p: nat) -> Option<(Seq<AstM>, nat)> {
    if at(t, p) == Some(TokM::RParen) {
        Some((Seq::empty(), p + 1))
    } else {
        params_list_m(t, p, Seq::empty())
    }
}

/// A braced block whose `{` is at `p`, with the position after its `}`.
pub open spec fn braced_m(t: Seq<TokM>, p: nat) -> Option<(Seq<AstM>, nat)>
    decreases t.len() - p, 12nat,
{
    if at(t, p) == Some(TokM::LBrace) && p + 1 <= t.len() {
        match stmts_m(t, p + 1, Seq::empty()) {
            Some((b, q)) => if at(t, q) == Some(TokM::RBrace) {
                Some((b, q + 1))
            } else {
                None
            },
            None => None,
        }
    } else {
        None
    }
}

/// A statement at `p` that starts with an expression or a name.
pub open spec fn simple_m(t: Seq<TokM>, p: nat) -> Option<(AstM, nat)>
    decreases t.len() - p, 10nat,
{
    match at(t, p) {
        Some(TokM::Ident(name)) if at(t, p + 1) == Some(TokM::Assign) => match expr_m(t, p + 2) {
            Some((e, q)) => match end_m(t, q) {
                Some(r) => Some((AstM::Assign(name, Box::new(e)), r)),
                None => None,
            },
            None => None,
        },
        _ => match expr_m(t, p) {
            Some((e, q)) => match end_m(t, q) {
                Some(r) => Some((e, r)),
                None => None,
            },
            None => None,
        },
    }
}

/// A statement at `p`, with the position after it.
pub open spec fn stmt_m(t: Seq<TokM>, p: nat) -> Option<(AstM, nat)>
    decreases t.len() - p, 13nat,
{
    match at(t, p) {
        Some(TokM::Semi) => Some((AstM::Empty, p + 1)),
        Some(TokM::Let) => match at(t, p + 1) {
            Some(TokM::Ident(name)) => if at(t, p + 2) == Some(TokM::Assign) {
                match expr_m(t, p + 3) {
                    Some((e, q)) => match end_m(t, q) {
                        Some(r) => Some((AstM::Declare(name, Some(Box::new(e))), r)),
                        None => None,
                    },
                    None => None,
                }
            } else {
                match end_m(t, p + 2) {
                    Some(r) => Some((AstM::Declare(name, None), r)),
                    None => None,
                }
            },
            _ => None,
        },
        Some(TokM::Return) => match expr_m(t, p + 1) {
            Some((e, q)) => match end_m(t, q) {
                Some(r) => Some((AstM::Return(Box::new(e)), r)),
                None => None,
            },
            None => None,
        },
        Some(TokM::Println) => if at(t, p + 1) == Some(TokM::LParen) {
            match expr_m(t, p + 2) {
                Some((e, q)) => if at(t, q) == Some(TokM::RParen) {
                    match end_m(t, q + 1) {
                        Some(r) => Some((AstM::PrintLn(Box::new(e)), r)),
                        None => None,
                    }
                } else {
                    None
                },
                None => None,
            }
        } else {
            None
        },
        Some(TokM::Fun) => match (at(t, p + 1), at(t, p + 2)) {
            (Some(TokM::Ident(name)), Some(TokM::LParen)) => match params_m(t, p + 3) {
                Some((ps, q)) => if p < q <= t.len() {
                    match braced_m(t, q) {
                        Some((body, r)) => Some((AstM::Function(name, ps, body), r)),
                        None => None,
                    }
                } else {
                    None
                },
                None => None,
            },
            _ => None,
        },
        Some(TokM::If) => if at(t, p + 1) == Some(TokM::LParen) {
            match expr_m(t, p + 2) {
                Some((c, q)) => if at(t, q) == Some(TokM::RParen) && p < q + 1 <= t.len() {
                    match braced_m(t, q + 1) {
                        Some((b, r)) => if at(t, r) == Some(TokM::Else) && p < r + 1 <= t.len() {
                            match braced_m(t, r + 1) {
                                Some((alt, r2)) => Some(
                                    (AstM::Conditional(Box::new(c), b, Some(alt)), r2),
                                ),
                                None => None,
                            }
                        } else {
                            Some((AstM::Conditional(Box::new(c), b, None), r))
                        },
                        None => None,
                    }
                } else {
                    None
                },
                None => None,
            }
        } else {
            None
        },
        _ => simple_m(t, p),
    }
}

/// The statements from `p` on, after those in `acc`, up to a `}` or the end
/// of the text.
pub open spec fn stmts_m(t: Seq<TokM>, p: nat, acc: Seq<AstM>) -> Option<(Seq<AstM>, nat)>
    decreases t.len() - p, 14nat,
{
    match at(t, p) {
        None => Some((acc, p)),
        Some(TokM::RBrace) => Some((acc, p)),
        _ => match stmt_m(t, p) {
            Some((s, q)) => if p < q <= t.len() {
                stmts_m(t, q, acc.push(s))
            } else {
                None
            },
            None => None,
        },
    }
}

/// The syntax trees of a whole token sequence.
pub open spec fn program_m(t: Seq<TokM>) -> Option<Seq<AstM>> {
    match stmts_m(t, 0, Seq::empty()) {
        Some((nodes, q)) => if q == t.len() {
            Some(nodes)
        } else {
            None
        },
        None => None,
    }
}

/// The syntax trees of a source text.
pub open spec fn parse_m(src: Seq<char>) -> Option<Seq<AstM>> {
    match lex_m(src, 0) {
        Some(t) => program_m(t),
        None => None,
    }
}

pub open spec fn node_res(r: Option<(AstNode, usize)>) -> Option<(AstM, nat)> {
    match r {
        Some((n, q)) => Some((ast_m(n), q as nat)),
        None => None,
    }
}

pub open spec fn nodes_res(r: Option<(Vec<AstNode>, usize)>) -> Option<(Seq<AstM>, nat)> {
    match r {
        Some((v, q)) => Some((asts_m(v@), q as nat)),
        None => None,
    }
}

/// Token sequences short enough that positions past them stay in range.
pub open spec fn small(t: Seq<Token>) -> bool {
    t.len() + 8 < usize::MAX
}

fn is_rparen(t: &Vec<Token>, p: usize) -> (r: bool)
    ensures
        r == (at(toks_m(t@), p as nat) == Some(TokM::RParen)),
{
    p < t.len() && matches!(t[p], Token::RParen)
}

fn is_lparen(t: &Vec<Token>, p: usize) -> (r: bool)
    ensures
        r == (at(toks_m(t@), p as nat) == Some(TokM::LParen)),
{
    p < t.len() && matches!(t[p], Token::LParen)
}

fn is_comma(t: &Vec<Token>, p: usize) -> (r: bool)
    ensures
        r == (at(toks_m(t@), p as nat) == Some(TokM::Comma)),
{
    p < t.len() && matches!(t[p], Token::Comma)
}

fn is_assign(t: &Vec<Token>, p: usize) -> (r: bool)
    ensures
        r == (at(toks_m(t@), p as nat) == Some(TokM::Assign)),
{
    p < t.len() && matches!(t[p], Token::Assign)
}

fn is_lbrace(t: &Vec<Token>, p: usize) -> (r: bool)
    ensures
        r == (at(toks_m(t@), p as nat) == Some(TokM::LBrace)),
{
    p < t.len() && matches!(t[p], Token::LBrace)
}

fn is_rbrace(t: &Vec<Token>, p: usize) -> (r: bool)
    ensures
        r == (at(toks_m(t@), p as nat) == Some(TokM::RBrace)),
{
    p < t.len() && matches!(t[p], Token::RBrace)
}

fn is_else(t: &Vec<Token>, p: usize) -> (r: bool)
    ensures
        r == (at(toks_m(t@), p as nat) == Some(TokM::Else)),
{
    p < t.len() && matches!(t[p], Token::Else)
}

/// The name at `p`, if the token there is one.
fn name_at(t: &Vec<Token>, p: usize) -> (r: Option<String>)
    ensures
        match at(toks_m(t@), p as nat) {
            Some(TokM::Ident(n)) => r matches Some(s) && s@ == n,
            _ => r is None,
        },
{
    if p < t.len() {
        match &t[p] {
            Token::Ident(name) => Some(name.clone()),
            _ => None,
        }
    } else {
        None
    }
}

/// The operator that the token at `p` stands for at level `l`.
fn op_at_exec(l: usize, t: &Vec<Token>, p: usize) -> (r: Option<BinKind>)
    ensures
        r == op_at(l as nat, at(toks_m(t@), p as nat)),
{
    if p >= t.len() {
        return None;
    }
    match &t[p] {
        Token::OrOr => if l == 0 { Some(BinKind::Or) } else { None },
        Token::AndAnd => if l == 1 { Some(BinKind::And) } else { None },
        Token::EqEq => if l == 2 { Some(BinKind::Eq) } else { None },
        Token::NotEq => if l == 2 { Some(BinKind::Ne) } else { None },
        Token::Lt => if l == 3 { Some(BinKind::Lt) } else { None },
        Token::Gt => if l == 3 { Some(BinKind::Gt) } else { None },
        Token::Plus => if l == 4 { Some(BinKind::Add) } else { None },
        Token::Star => if l == 5 { Some(BinKind::Mul) } else { None },
        _ => None,
    }
}

/// The tree of a binary operator.
fn mk(k: BinKind, l: AstNode, r: AstNode) -> (n: AstNode)
    ensures
        ast_m(n) == mk_m(k, ast_m(l), ast_m(r)),
{
    let (l, r) = (Box::new(l), Box::new(r));
    match k {
        BinKind::Or => AstNode::LogicalOr { lhs: l, rhs: r },
        BinKind::And => AstNode::LogicalAnd { lhs: l, rhs: r },
        BinKind::Eq => AstNode::Equal { lhs: l, rhs: r },
        BinKind::Ne => AstNode::NotEqual { lhs: l, rhs: r },
        BinKind::Lt => AstNode::LessThan { lhs: l, rhs: r },
        BinKind::Gt => AstNode::GreaterThan { lhs: l, rhs: r },
        BinKind::Add => AstNode::Add { lhs: l, rhs: r },
        BinKind::Mul => AstNode::Mul { lhs: l, rhs: r },
    }
}

/// A primary expression at `p`.
fn primary(t: &Vec<Token>, p: usize) -> (r: Option<(AstNode, usize)>)
    requires
        small(t@),
        p <= t@.len(),
    ensures
        node_res(r) == primary_m(toks_m(t@), p as nat),
    decreases t@.len() - p, 2nat,
{
    if p >= t.len() {
        return None;
    }
    match &t[p] {
        Token::Num(n) => Some((AstNode::Number { value: *n }, p + 1)),
        Token::True => Some((AstNode::Boolean { value: true }, p + 1)),
        Token::False => Some((AstNode::Boolean { value: false }, p + 1)),
        Token::Ident(name) => {
            if is_lparen(t, p + 1) {
                if is_rparen(t, p + 2) {
                    let args: Vec<AstNode> = Vec::new();
                    assert(asts_m(args@) =~= Seq::<AstM>::empty());
                    Some((AstNode::FunctionCall { id: name.clone(), args }, p + 3))
                } else if p + 2 <= t.len() {
                    match args_list(t, p + 2) {
                        Some((args, q)) => Some((AstNode::FunctionCall { id: name.clone(), args }, q)),
                        None => None,
                    }
                } else {
                    None
                }
            } else {
                Some((AstNode::ID { value: name.clone() }, p + 1))
            }
        },
        Token::LParen => match expr(t, p + 1) {
            Some((e, q)) => if is_rparen(t, q) {
                Some((e, q + 1))
            } else {
                None
            },
            None => None,
        },
        _ => None,
    }
}

/// The arguments of a call from `p` on, through the closing parenthesis.
fn args_list(t: &Vec<Token>, p: usize) -> (r: Option<(Vec<AstNode>, usize)>)
    requires
        small(t@),
        p <= t@.len(),
    ensures
        nodes_res(r) == args_list_m(toks_m(t@), p as nat, Seq::empty()),
    decreases t@.len() - p, 11nat,
{
    let ghost tm = toks_m(t@);
    let mut acc: Vec<AstNode> = Vec::new();
    let mut i = p;
    assert(asts_m(acc@) =~= Seq::<AstM>::empty());
    loop
        invariant
            p <= i <= t@.len(),
            small(t@),
            tm == toks_m(t@),
            args_list_m(tm, p as nat, Seq::empty()) == args_list_m(tm, i as nat, asts_m(acc@)),
        decreases t@.len() - i,
    {
        if i >= t.len() {
            return None;
        }
        match expr(t, i) {
            Some((e, q)) => {
                let ghost before = acc@;
                acc.push(e);
                proof {
                    lemma_asts_m_push(before, acc@.last());
                }
                if is_rparen(t, q) {
                    return Some((acc, q + 1));
                } else if is_comma(t, q) && i < q + 1 && q + 1 <= t.len() {
                    i = q + 1;
                } else {
                    return None;
                }
            },
            None => {
                return None;
            },
        }
    }
}

/// An expression at precedence level `l` or tighter.
fn bin(t: &Vec<Token>, p: usize, l: usize) -> (r: Option<(AstNode, usize)>)
    requires
        small(t@),
        p <= t@.len(),
    ensures
        node_res(r) == bin_m(toks_m(t@), p as nat, l as nat),
    decreases t@.len() - p, 8 - l,
{
    if l > 5 {
        return None;
    }
    let first = if l == 5 {
        primary(t, p)
    } else {
        bin(t, p, l + 1)
    };
    match first {
        Some((lhs, q)) => if p < q && q <= t.len() {
            rest(t, q, l, lhs)
        } else {
            None
        },
        None => None,
    }
}

/// The operators of level `l` and their right operands from `p` on,
/// folded to the left onto `lhs`.
fn rest(t: &Vec<Token>, p: usize, l: usize, lhs: AstNode) -> (r: Option<(AstNode, usize)>)
    requires
        small(t@),
        p <= t@.len(),
        l <= 5,
    ensures
        node_res(r) == rest_m(toks_m(t@), p as nat, l as nat, ast_m(lhs)),
    decreases t@.len() - p, 0nat,
{
    match op_at_exec(l, t, p) {
        Some(k) => {
            let next = if l >= 5 {
                primary(t, p + 1)
            } else {
                bin(t, p + 1, l + 1)
            };
            match next {
                Some((rhs, q)) => if p < q && q <= t.len() {
                    rest(t, q, l, mk(k, lhs, rhs))
                } else {
                    None
                },
                None => None,
            }
        },
        None => Some((lhs, p)),
    }
}

/// An expression at `p`.
fn expr(t: &Vec<Token>, p: usize) -> (r: Option<(AstNode, usize)>)
    requires
        small(t@),
        p <= t@.len(),
    ensures
        node_res(r) == expr_m(toks_m(t@), p as nat),
    decreases t@.len() - p, 9nat,
{
    bin(t, p, 0)
}

/// Where a statement that ends at `q` is over.
fn end_at(t: &Vec<Token>, q: usize) -> (r: Option<usize>)
    requires
        small(t@),
    ensures
        match end_m(toks_m(t@), q as nat) {
            Some(e) => r == Some(e as usize),
            None => r is None,
        },
{
    if q < t.len() {
        match &t[q] {
            Token::Semi => Some(q + 1),
            Token::RBrace => Some(q),
            _ => None,
        }
    } else if q == t.len() {
        Some(q)
    } else {
        None
    }
}

/// The parameters of a declaration whose `(` is just before `p`.
fn params(t: &Vec<Token>, p: usize) -> (r: Option<(Vec<AstNode>, usize)>)
    requires
        small(t@),
        p <= t@.len(),
    ensures
        nodes_res(r) == params_m(toks_m(t@), p as nat),
{
    let ghost tm = toks_m(t@);
    let mut acc: Vec<AstNode> = Vec::new();
    assert(asts_m(acc@) =~= Seq::<AstM>::empty());
    if is_rparen(t, p) {
        return Some((acc, p + 1));
    }
    let mut i = p;
    loop
        invariant
            p <= i <= t@.len() + 2,
            small(t@),
            tm == toks_m(t@),
            params_m(tm, p as nat) == params_list_m(tm, i as nat, asts_m(acc@)),
        decreases t@.len() + 2 - i,
    {
        match name_at(t, i) {
            Some(name) => {
                let ghost before = acc@;
                let node = AstNode::ID { value: name };
                acc.push(node);
                proof {
                    lemma_asts_m_push(before, node);
                }
                if is_rparen(t, i + 1) {
                    return Some((acc, i + 2));
                } else if is_comma(t, i + 1) {
                    i = i + 2;
                } else {
                    return None;
                }
            },
            None => {
                return None;
            },
        }
    }
}

/// A braced block whose `{` is at `p`.
fn braced(t: &Vec<Token>, p: usize) -> (r: Option<(Vec<AstNode>, usize)>)
    requires
        small(t@),
        p <= t@.len(),
    ensures
        nodes_res(r) == braced_m(toks_m(t@), p as nat),
    decreases t@.len() - p, 12nat,
{
    if is_lbrace(t, p) && p + 1 <= t.len() {
        match stmts(t, p + 1) {
            Some((b, q)) => if is_rbrace(t, q) {
                Some((b, q + 1))
            } else {
                None
            },
            None => None,
        }
    } else {
        None
    }
}

/// A statement at `p` that starts with an expression or a name.
fn simple(t: &Vec<Token>, p: usize) -> (r: Option<(AstNode, usize)>)
    requires
        small(t@),
        p <= t@.len(),
    ensures
        node_res(r) == simple_m(toks_m(t@), p as nat),
    decreases t@.len() - p, 10nat,
{
    if let Some(name) = name_at(t, p) {
        if is_assign(t, p + 1) {
            return match expr(t, p + 2) {
                Some((e, q)) => match end_at(t, q) {
                    Some(r) => Some((AstNode::Assign { id: name, rhs: Box::new(e) }, r)),
                    None => None,
                },
                None => None,
            };
        }
    }
    match expr(t, p) {
        Some((e, q)) => match end_at(t, q) {
            Some(r) => Some((e, r)),
            None => None,
        },
        None => None,
    }
}

/// A statement at `p`.
#[verifier::rlimit(60)]
fn stmt(t: &Vec<Token>, p: usize) -> (r: Option<(AstNode, usize)>)
    requires
        small(t@),
        p <= t@.len(),
    ensures
        node_res(r) == stmt_m(toks_m(t@), p as nat),
    decreases t@.len() - p, 13nat,
{
    if p >= t.len() {
        return simple(t, p);
    }
    match &t[p] {
        Token::Semi => Some((AstNode::Empty, p + 1)),
        Token::Let => match name_at(t, p + 1) {
            Some(name) => if is_assign(t, p + 2) {
                match expr(t, p + 3) {
                    Some((e, q)) => match end_at(t, q) {
                        Some(r) => Some((AstNode::Declare { id: name, rhs: Some(Box::new(e)) }, r)),
                        None => None,
                    },
                    None => None,
                }
            } else {
                match end_at(t, p + 2) {
                    Some(r) => Some((AstNode::Declare { id: name, rhs: None }, r)),
                    None => None,
                }
            },
            None => None,
        },
        Token::Return => match expr(t, p + 1) {
            Some((e, q)) => match end_at(t, q) {
                Some(r) => Some((AstNode::Return { block: Box::new(e) }, r)),
                None => None,
            },
            None => None,
        },
        Token::Println => if is_lparen(t, p + 1) {
            match expr(t, p + 2) {
                Some((e, q)) => if is_rparen(t, q) {
                    match end_at(t, q + 1) {
                        Some(r) => Some((AstNode::PrintLn { rhs: Box::new(e) }, r)),
                        None => None,
                    }
                } else {
                    None
                },
                None => None,
            }
        } else {
            None
        },
        Token::Fun => match name_at(t, p + 1) {
            Some(name) => if is_lparen(t, p + 2) {
                match params(t, p + 3) {
                    Some((ps, q)) => if p < q && q <= t.len() {
                        match braced(t, q) {
                            Some((body, r)) => Some(
                                (AstNode::Function { id: name, params: ps, block: body }, r),
                            ),
                            None => None,
                        }
                    } else {
                        None
                    },
                    None => None,
                }
            } else {
                None
            },
            None => None,
        },
        Token::If => if is_lparen(t, p + 1) {
            match expr(t, p + 2) {
                Some((c, q)) => if is_rparen(t, q) && p < q + 1 && q + 1 <= t.len() {
                    match braced(t, q + 1) {
                        Some((b, r)) => if is_else(t, r) && p < r + 1 && r + 1 <= t.len() {
                            match braced(t, r + 1) {
                                Some((alt, r2)) => Some(
                                    (
                                        AstNode::Conditional {
                                            condition: Box::new(c),
                                            block: b,
                                            alternative: Some(alt),
                                        },
                                        r2,
                                    ),
                                ),
                                None => None,
                            }
                        } else {
                            Some(
                                (
                                    AstNode::Conditional {
                                        condition: Box::new(c),
                                        block: b,
                                        alternative: None,
                                    },
                                    r,
                                ),
                            )
                        },
                        None => None,
                    }
                } else {
                    None
                },
                None => None,
            }
        } else {
            None
        },
        _ => simple(t, p),
    }
}

/// The statements from `p` on, up to a `}` or the end of the tokens.
fn stmts(t: &Vec<Token>, p: usize) -> (r: Option<(Vec<AstNode>, usize)>)
    requires
        small(t@),
        p <= t@.len(),
    ensures
        nodes_res(r) == stmts_m(toks_m(t@), p as nat, Seq::empty()),
    decreases t@.len() - p, 14nat,
{
    let ghost tm = toks_m(t@);
    let mut acc: Vec<AstNode> = Vec::new();
    let mut i = p;
    assert(asts_m(acc@) =~= Seq::<AstM>::empty());
    loop
        invariant
            p <= i <= t@.len(),
            small(t@),
            tm == toks_m(t@),
            stmts_m(tm, p as nat, Seq::empty()) == stmts_m(tm, i as nat, asts_m(acc@)),
        decreases t@.len() - i,
    {
        if i >= t.len() || is_rbrace(t, i) {
            return Some((acc, i));
        }
        match stmt(t, i) {
            Some((s, q)) => if i < q && q <= t.len() {
                let ghost before = acc@;
                acc.push(s);
                proof {
                    lemma_asts_m_push(before, acc@.last());
                }
                i = q;
            } else {
                return None;
            },
            None => {
                return None;
            },
        }
    }
}

/// Parses source text into the syntax trees of its statements.
pub fn parse(src: &str) -> (r: Result<Vec<AstNode>, InterpError>)
    requires
        src@.len() + 8 < usize::MAX,
    ensures
        match parse_m(src@) {
            Some(nodes) => r matches Ok(v) && asts_m(v@) == nodes,
            None => r matches Err(e) && e is ParseError,
        },
{
    let toks = match tokenize(src) {
        Ok(toks) => toks,
        Err(e) => {
            return Err(e);
        },
    };
    proof {
        crate::lexer::lemma_lex_len(src@, 0);
    }
    match stmts(&toks, 0) {
        Some((nodes, q)) => if q == toks.len() {
            Ok(nodes)
        } else {
            Err(InterpError::ParseError("unexpected '}'".to_owned()))
        },
        None => Err(InterpError::ParseError("unexpected token".to_owned())),
    }
}

} // verus!
