//! Mathematical models of the runtime values and of the bytecode, in which
//! names are character sequences and blocks are sequences.
use vstd::prelude::*;

use crate::instruction::{BinaryOp, Instruction, StackValue};
use crate::scope::{Function, Object};

verus! {

pub ghost enum ValueM {
    Integer(u64),
    Function(Seq<char>, Box<ObjectM>),
    Boolean(bool),
}

pub ghost enum ObjectM {
    Function { scope: nat, func: FunctionM },
    Value { value: ValueM },
    Uninitialized,
}

pub ghost struct FunctionM {
    pub name: Seq<char>,
    pub params: Seq<Seq<char>>,
    pub block: Seq<InstrM>,
}

pub ghost enum OpM {
    LessThan,
    GreaterThan,
    Add,
    Mul,
    Equal,
    NotEqual,
    LogicalAnd,
    LogicalOr,
    Assign(Seq<char>),
    Declare(Seq<char>),
}

pub ghost enum InstrM {
    BinaryOp(OpM),
    Push(ValueM),
    PrintLn,
    Load(Seq<char>),
    Return(Seq<InstrM>),
    FunctionDeclaration(Seq<char>, Seq<Seq<char>>, Seq<InstrM>),
    FunctionCall(Seq<char>, Seq<Seq<InstrM>>),
    Conditional(Seq<InstrM>, Seq<InstrM>, Option<Seq<InstrM>>),
}

pub open spec fn names_m(s: Seq<String>) -> Seq<Seq<char>> {
    s.map_values(|n: String| n@)
}

pub open spec fn op_m(op: BinaryOp) -> OpM {
    match op {
        BinaryOp::LessThan => OpM::LessThan,
        BinaryOp::GreaterThan => OpM::GreaterThan,
        BinaryOp::Add => OpM::Add,
        BinaryOp::Mul => OpM::Mul,
        BinaryOp::Equal => OpM::Equal,
        BinaryOp::NotEqual => OpM::NotEqual,
        BinaryOp::LogicalAnd => OpM::LogicalAnd,
        BinaryOp::LogicalOr => OpM::LogicalOr,
        BinaryOp::Assign { name } => OpM::Assign(name@),
        BinaryOp::Declare { name } => OpM::Declare(name@),
    }
}

pub open spec fn value_m(v: StackValue) -> ValueM
    decreases v,
{
    match v {
        StackValue::Integer(n) => ValueM::Integer(n),
        StackValue::Boolean(b) => ValueM::Boolean(b),
        StackValue::Function(name, obj) => ValueM::Function(name@, Box::new(object_m(*obj))),
    }
}

pub open spec fn object_m(o: Object) -> ObjectM
    decreases o,
{
    match o {
        Object::Function { scope, func } => ObjectM::Function {
            scope: scope as nat,
            func: function_m(func),
        },
        Object::Value { value } => ObjectM::Value { value: value_m(value) },
        Object::Uninitialized => ObjectM::Uninitialized,
    }
}

pub open spec fn function_m(f: Function) -> FunctionM
    decreases f,
{
    FunctionM { name: f.name@, params: names_m(f.params@), block: instrs_m(f.block@) }
}

pub open spec fn instr_m(i: Instruction) -> InstrM
    decreases i,
{
    match i {
        Instruction::BinaryOp { op } => InstrM::BinaryOp(op_m(op)),
        Instruction::Push { value } => InstrM::Push(value_m(value)),
        Instruction::PrintLn => InstrM::PrintLn,
        Instruction::Load { id } => InstrM::Load(id@),
        Instruction::Return { block } => InstrM::Return(instrs_m(block@)),
        Instruction::FunctionDeclaration { name, params, block } => InstrM::FunctionDeclaration(
            name@,
            names_m(params@),
            instrs_m(block@),
        ),
        Instruction::FunctionCall { id, args } => InstrM::FunctionCall(id@, args_m(args@)),
        Instruction::Conditional { condition, block, alternative } => InstrM::Conditional(
            instrs_m(condition@),
            instrs_m(block@),
            match alternative {
                Some(alt) => Some(instrs_m(alt@)),
                None => None,
            },
        ),
    }
}

pub open spec fn instrs_m(s: Seq<Instruction>) -> Seq<InstrM>
    decreases s,
{
    if s.len() == 0 {
        Seq::empty()
    } else {
        instrs_m(s.subrange(0, s.len() - 1)).push(instr_m(s[s.len() - 1]))
    }
}

pub open spec fn args_m(s: Seq<Vec<Instruction>>) -> Seq<Seq<InstrM>>
    decreases s,
{
    if s.len() == 0 {
        Seq::empty()
    } else {
        args_m(s.subrange(0, s.len() - 1)).push(instrs_m(s[s.len() - 1]@))
    }
}

} // verus!

verus! {

pub proof fn lemma_instrs_m(s: Seq<Instruction>)
    ensures
        instrs_m(s).len() == s.len(),
        forall|k: int| 0 <= k < s.len() ==> #[trigger] instrs_m(s)[k] == instr_m(s[k]),
    decreases s.len(),
{
    if s.len() > 0 {
        lemma_instrs_m(s.subrange(0, s.len() - 1));
    }
}

pub proof fn lemma_args_m(s: Seq<Vec<Instruction>>)
    ensures
        args_m(s).len() == s.len(),
        forall|k: int| 0 <= k < s.len() ==> #[trigger] args_m(s)[k] == instrs_m(s[k]@),
    decreases s.len(),
{
    if s.len() > 0 {
        lemma_args_m(s.subrange(0, s.len() - 1));
    }
}

/// Two instruction sequences that agree element by element have one model.
pub proof fn lemma_instrs_m_pointwise(a: Seq<Instruction>, b: Seq<Instruction>)
    requires
        a.len() == b.len(),
        forall|k: int| 0 <= k < a.len() ==> instr_m(#[trigger] a[k]) == instr_m(b[k]),
    ensures
        instrs_m(a) == instrs_m(b),
{
    lemma_instrs_m(a);
    lemma_instrs_m(b);
    assert(instrs_m(a) =~= instrs_m(b));
}

pub proof fn lemma_instrs_m_push(s: Seq<Instruction>, i: Instruction)
    ensures
        instrs_m(s.push(i)) == instrs_m(s).push(instr_m(i)),
{
    assert(s.push(i).subrange(0, s.len() as int) =~= s);
}

} // verus!

verus! {

/// The models of a sequence of values.
pub open spec fn values_m(s: Seq<StackValue>) -> Seq<ValueM> {
    s.map_values(|v: StackValue| value_m(v))
}

} // verus!

verus! {

/// Whether a value holds, at any depth, a function declared in frame `base`
/// or a later one.
pub open spec fn value_refs(v: ValueM, base: nat) -> bool
    decreases v,
{
    match v {
        ValueM::Function(_, o) => object_refs(*o, base),
        _ => false,
    }
}

pub open spec fn object_refs(o: ObjectM, base: nat) -> bool
    decreases o,
{
    match o {
        ObjectM::Function { scope, func } => scope >= base || block_refs(func.block, base),
        ObjectM::Value { value } => value_refs(value, base),
        ObjectM::Uninitialized => false,
    }
}

pub open spec fn block_refs(b: Seq<InstrM>, base: nat) -> bool
    decreases b,
{
    if b.len() == 0 {
        false
    } else {
        block_refs(b.subrange(0, b.len() - 1), base) || instr_refs(b[b.len() - 1], base)
    }
}

pub open spec fn args_refs(a: Seq<Seq<InstrM>>, base: nat) -> bool
    decreases a,
{
    if a.len() == 0 {
        false
    } else {
        args_refs(a.subrange(0, a.len() - 1), base) || block_refs(a[a.len() - 1], base)
    }
}

pub open spec fn instr_refs(i: InstrM, base: nat) -> bool
    decreases i,
{
    match i {
        InstrM::Push(v) => value_refs(v, base),
        InstrM::Return(b) => block_refs(b, base),
        InstrM::FunctionDeclaration(_, _, b) => block_refs(b, base),
        InstrM::FunctionCall(_, args) => args_refs(args, base),
        InstrM::Conditional(c, t, e) => block_refs(c, base) || block_refs(t, base) || match e {
            Some(x) => block_refs(x, base),
            None => false,
        },
        _ => false,
    }
}

} // verus!
