use vstd::prelude::*;

verus! {

/// The syntax tree of a program; a program is a sequence of these nodes.
#[derive(Debug, PartialEq)]
pub enum AstNode {
    Add { lhs: Box<AstNode>, rhs: Box<AstNode> },
    Mul { lhs: Box<AstNode>, rhs: Box<AstNode> },
    Number { value: u64 },
    Boolean { value: bool },
    ID { value: String },
    PrintLn { rhs: Box<AstNode> },
    Assign { id: String, rhs: Box<AstNode> },
    Declare { id: String, rhs: Option<Box<AstNode>> },
    Function { id: String, params: Vec<AstNode>, block: Vec<AstNode> },
    FunctionCall { id: String, args: Vec<AstNode> },
    Return { block: Box<AstNode> },
    GreaterThan { lhs: Box<AstNode>, rhs: Box<AstNode> },
    Equal { lhs: Box<AstNode>, rhs: Box<AstNode> },
    NotEqual { lhs: Box<AstNode>, rhs: Box<AstNode> },
    LessThan { lhs: Box<AstNode>, rhs: Box<AstNode> },
    Conditional { condition: Box<AstNode>, block: Vec<AstNode>, alternative: Option<Vec<AstNode>> },
    LogicalAnd { lhs: Box<AstNode>, rhs: Box<AstNode> },
    LogicalOr { lhs: Box<AstNode>, rhs: Box<AstNode> },
    Empty,
}

/// The model of a syntax tree, with names as character sequences.
pub ghost enum AstM {
    Add(Box<AstM>, Box<AstM>),
    Mul(Box<AstM>, Box<AstM>),
    Number(u64),
    Boolean(bool),
    ID(Seq<char>),
    PrintLn(Box<AstM>),
    Assign(Seq<char>, Box<AstM>),
    Declare(Seq<char>, Option<Box<AstM>>),
    Function(Seq<char>, Seq<AstM>, Seq<AstM>),
    FunctionCall(Seq<char>, Seq<AstM>),
    Return(Box<AstM>),
    GreaterThan(Box<AstM>, Box<AstM>),
    Equal(Box<AstM>, Box<AstM>),
    NotEqual(Box<AstM>, Box<AstM>),
    LessThan(Box<AstM>, Box<AstM>),
    Conditional(Box<AstM>, Seq<AstM>, Option<Seq<AstM>>),
    LogicalAnd(Box<AstM>, Box<AstM>),
    LogicalOr(Box<AstM>, Box<AstM>),
    Empty,
}

pub open spec fn ast_m(n: AstNode) -> AstM
    decreases n,
{
    match n {
        AstNode::Add { lhs, rhs } => AstM::Add(Box::new(ast_m(*lhs)), Box::new(ast_m(*rhs))),
        AstNode::Mul { lhs, rhs } => AstM::Mul(Box::new(ast_m(*lhs)), Box::new(ast_m(*rhs))),
        AstNode::Number { value } => AstM::Number(value),
        AstNode::Boolean { value } => AstM::Boolean(value),
        AstNode::ID { value } => AstM::ID(value@),
        AstNode::PrintLn { rhs } => AstM::PrintLn(Box::new(ast_m(*rhs))),
        AstNode::Assign { id, rhs } => AstM::Assign(id@, Box::new(ast_m(*rhs))),
        AstNode::Declare { id, rhs } => AstM::Declare(
            id@,
            match rhs {
                Some(e) => Some(Box::new(ast_m(*e))),
                None => None,
            },
        ),
        AstNode::Function { id, params, block } => AstM::Function(
            id@,
            asts_m(params@),
            asts_m(block@),
        ),
        AstNode::FunctionCall { id, args } => AstM::FunctionCall(id@, asts_m(args@)),
        AstNode::Return { block } => AstM::Return(Box::new(ast_m(*block))),
        AstNode::GreaterThan { lhs, rhs } => AstM::GreaterThan(
            Box::new(ast_m(*lhs)),
            Box::new(ast_m(*rhs)),
        ),
        AstNode::Equal { lhs, rhs } => AstM::Equal(Box::new(ast_m(*lhs)), Box::new(ast_m(*rhs))),
        AstNode::NotEqual { lhs, rhs } => AstM::NotEqual(Box::new(ast_m(*lhs)), Box::new(ast_m(*rhs))),
        AstNode::LessThan { lhs, rhs } => AstM::LessThan(Box::new(ast_m(*lhs)), Box::new(ast_m(*rhs))),
        AstNode::Conditional { condition, block, alternative } => AstM::Conditional(
            Box::new(ast_m(*condition)),
            asts_m(block@),
            match alternative {
                Some(alt) => Some(asts_m(alt@)),
                None => None,
            },
        ),
        AstNode::LogicalAnd { lhs, rhs } => AstM::LogicalAnd(
            Box::new(ast_m(*lhs)),
            Box::new(ast_m(*rhs)),
        ),
        AstNode::LogicalOr { lhs, rhs } => AstM::LogicalOr(Box::new(ast_m(*lhs)), Box::new(ast_m(*rhs))),
        AstNode::Empty => AstM::Empty,
    }
}

pub open spec fn asts_m(s: Seq<AstNode>) -> Seq<AstM>
    decreases s,
{
    if s.len() == 0 {
        Seq::empty()
    } else {
        asts_m(s.subrange(0, s.len() - 1)).push(ast_m(s[s.len() - 1]))
    }
}

pub proof fn lemma_asts_m_push(s: Seq<AstNode>, n: AstNode)
    ensures
        asts_m(s.push(n)) == asts_m(s).push(ast_m(n)),
{
    assert(s.push(n).subrange(0, s.len() as int) =~= s);
}

} // verus!
