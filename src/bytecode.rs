//! The compiler from syntax trees to bytecode.
use vstd::prelude::*;

use crate::ast::{ast_m, asts_m, AstM, AstNode};
use crate::instruction::{BinaryOp, Instruction, StackValue};
use crate::model::{
    args_m, instr_m, instrs_m, lemma_instrs_m_push, names_m, InstrM, OpM, ValueM,
};

verus! {

/// The code that one node compiles to.
pub open spec fn compile_m(n: AstM) -> Seq<InstrM>
    decreases n,
{
    match n {
        AstM::Add(lhs, rhs) => compile_m(*lhs) + compile_m(*rhs) + seq![InstrM::BinaryOp(OpM::Add)],
        AstM::Mul(lhs, rhs) => compile_m(*lhs) + compile_m(*rhs) + seq![InstrM::BinaryOp(OpM::Mul)],
        AstM::LessThan(lhs, rhs) => compile_m(*lhs) + compile_m(*rhs) + seq![
            InstrM::BinaryOp(OpM::LessThan),
        ],
        AstM::GreaterThan(lhs, rhs) => compile_m(*lhs) + compile_m(*rhs) + seq![
            InstrM::BinaryOp(OpM::GreaterThan),
        ],
        AstM::Equal(lhs, rhs) => compile_m(*lhs) + compile_m(*rhs) + seq![
            InstrM::BinaryOp(OpM::Equal),
        ],
        AstM::NotEqual(lhs, rhs) => compile_m(*lhs) + compile_m(*rhs) + seq![
            InstrM::BinaryOp(OpM::NotEqual),
        ],
        AstM::LogicalAnd(lhs, rhs) => compile_m(*lhs) + compile_m(*rhs) + seq![
            InstrM::BinaryOp(OpM::LogicalAnd),
        ],
        AstM::LogicalOr(lhs, rhs) => compile_m(*lhs) + compile_m(*rhs) + seq![
            InstrM::BinaryOp(OpM::LogicalOr),
        ],
        AstM::Number(value) => seq![InstrM::Push(ValueM::Integer(value))],
        AstM::Boolean(value) => seq![InstrM::Push(ValueM::Boolean(value))],
        AstM::ID(value) => seq![InstrM::Load(value)],
        AstM::PrintLn(rhs) => compile_m(*rhs).push(InstrM::PrintLn),
        AstM::Assign(id, rhs) => compile_m(*rhs).push(InstrM::BinaryOp(OpM::Assign(id))),
        AstM::Declare(id, rhs) => match rhs {
            Some(e) => compile_m(*e).push(InstrM::BinaryOp(OpM::Declare(id))),
            None => seq![InstrM::BinaryOp(OpM::Declare(id))],
        },
        AstM::Function(id, params, block) => seq![
            InstrM::FunctionDeclaration(id, params_m(params), compile_block_m(block)),
        ],
        AstM::FunctionCall(id, args) => seq![InstrM::FunctionCall(id, compile_args_m(args))],
        AstM::Return(block) => seq![InstrM::Return(compile_m(*block))],
        AstM::Conditional(condition, block, alternative) => seq![
            InstrM::Conditional(
                compile_m(*condition),
                compile_block_m(block),
                match alternative {
                    Some(alt) => Some(compile_block_m(alt)),
                    None => None,
                },
            ),
        ],
        AstM::Empty => Seq::empty(),
    }
}

/// The code of a block: the code of its nodes, one after the other.
pub open spec fn compile_block_m(s: Seq<AstM>) -> Seq<InstrM>
    decreases s,
{
    if s.len() == 0 {
        Seq::empty()
    } else {
        compile_block_m(s.subrange(0, s.len() - 1)) + compile_m(s[s.len() - 1])
    }
}

/// The argument code of a call: one separately compiled sequence per argument.
pub open spec fn compile_args_m(s: Seq<AstM>) -> Seq<Seq<InstrM>>
    decreases s,
{
    if s.len() == 0 {
        Seq::empty()
    } else {
        compile_args_m(s.subrange(0, s.len() - 1)).push(compile_m(s[s.len() - 1]))
    }
}

/// The parameter names of a declaration: the identifiers among the nodes.
pub open spec fn params_m(s: Seq<AstM>) -> Seq<Seq<char>>
    decreases s.len(),
{
    if s.len() == 0 {
        Seq::empty()
    } else {
        let rest = params_m(s.subrange(0, s.len() - 1));
        match s[s.len() - 1] {
            AstM::ID(value) => rest.push(value),
            _ => rest,
        }
    }
}

proof fn lemma_prefix_step(orig: Seq<AstNode>, k: int)
    requires
        0 <= k < orig.len(),
    ensures
        asts_m(orig.subrange(0, k + 1)) == asts_m(orig.subrange(0, k)).push(ast_m(orig[k])),
        compile_block_m(asts_m(orig.subrange(0, k + 1))) == compile_block_m(
            asts_m(orig.subrange(0, k)),
        ) + compile_m(ast_m(orig[k])),
        compile_args_m(asts_m(orig.subrange(0, k + 1))) == compile_args_m(
            asts_m(orig.subrange(0, k)),
        ).push(compile_m(ast_m(orig[k]))),
        params_m(asts_m(orig.subrange(0, k + 1))) == match ast_m(orig[k]) {
            AstM::ID(value) => params_m(asts_m(orig.subrange(0, k))).push(value),
            _ => params_m(asts_m(orig.subrange(0, k))),
        },
{
    assert(orig.subrange(0, k + 1).subrange(0, k) =~= orig.subrange(0, k));
    let s = asts_m(orig.subrange(0, k));
    let n = ast_m(orig[k]);
    assert(s.push(n).subrange(0, s.len() as int) =~= s);
}

proof fn lemma_prefix_all(orig: Seq<AstNode>)
    ensures
        orig.subrange(0, orig.len() as int) == orig,
        asts_m(orig.subrange(0, 0)) == Seq::<AstM>::empty(),
{
    assert(orig.subrange(0, orig.len() as int) =~= orig);
    assert(orig.subrange(0, 0) =~= Seq::<AstNode>::empty());
}

/// Appends one instruction to the code built so far.
fn emit(prog: &mut Vec<Instruction>, i: Instruction)
    ensures
        instrs_m(final(prog)@) == instrs_m(old(prog)@).push(instr_m(i)),
{
    let ghost before = prog@;
    prog.push(i);
    proof {
        lemma_instrs_m_push(before, i);
    }
}

/// The nodes of `v` in the opposite order, so that popping yields them first to last.
fn reversed(v: Vec<AstNode>) -> (r: Vec<AstNode>)
    ensures
        r@.len() == v@.len(),
        forall|j: int| 0 <= j < v@.len() ==> #[trigger] r@[j] == v@[v@.len() - 1 - j],
{
    let ghost orig = v@;
    let mut rest = v;
    let mut r: Vec<AstNode> = Vec::new();
    while rest.len() > 0
        invariant
            rest@ == orig.subrange(0, rest@.len() as int),
            r@.len() + rest@.len() == orig.len(),
            forall|j: int| 0 <= j < r@.len() ==> #[trigger] r@[j] == orig[orig.len() - 1 - j],
        decreases rest@.len(),
    {
        let n = rest.pop().unwrap();
        r.push(n);
    }
    r
}

/// Compiles a call: each argument becomes its own instruction sequence.
fn function_call(id: String, args: Vec<AstNode>, prog: &mut Vec<Instruction>)
    ensures
        instrs_m(final(prog)@) == instrs_m(old(prog)@).push(
            InstrM::FunctionCall(id@, compile_args_m(asts_m(args@))),
        ),
    decreases args,
{
    let ghost orig = args@;
    let mut todo = reversed(args);
    let mut args_bytecode: Vec<Vec<Instruction>> = Vec::new();
    while todo.len() > 0
        invariant
            todo@.len() <= orig.len(),
            forall|j: int| 0 <= j < todo@.len() ==> #[trigger] todo@[j] == orig[orig.len() - 1 - j],
            orig == args@,
            args_m(args_bytecode@) == compile_args_m(asts_m(orig.subrange(0, orig.len() - todo@.len()))),
        decreases todo@.len(),
    {
        let ghost k = orig.len() - todo@.len();
        let n = todo.pop().unwrap();
        assert(decreases_to!(args => args@[k]));
        let mut bytecode: Vec<Instruction> = Vec::new();
        to_bytecode(n, &mut bytecode);
        let ghost before = args_bytecode@;
        args_bytecode.push(bytecode);
        proof {
            assert(before.push(bytecode).subrange(0, before.len() as int) =~= before);
            lemma_prefix_step(orig, k);
            assert(instrs_m(bytecode@) =~= compile_m(ast_m(orig[k])));
        }
    }
    proof {
        lemma_prefix_all(orig);
    }
    emit(prog, Instruction::FunctionCall { id, args: args_bytecode });
}

/// The parameter names of a declaration: the identifiers among the nodes.
fn function_ast_params_to_vec(params: Vec<AstNode>) -> (r: Vec<String>)
    ensures
        names_m(r@) == params_m(asts_m(params@)),
{
    let ghost orig = params@;
    let mut todo = reversed(params);
    let mut names: Vec<String> = Vec::new();
    while todo.len() > 0
        invariant
            todo@.len() <= orig.len(),
            forall|j: int| 0 <= j < todo@.len() ==> #[trigger] todo@[j] == orig[orig.len() - 1 - j],
            names_m(names@) == params_m(asts_m(orig.subrange(0, orig.len() - todo@.len()))),
        decreases todo@.len(),
    {
        let ghost k = orig.len() - todo@.len();
        let ghost before = names@;
        let p = todo.pop().unwrap();
        proof {
            lemma_prefix_step(orig, k);
        }
        if let AstNode::ID { value } = p {
            names.push(value);
            assert(names_m(names@) =~= names_m(before).push(value@));
        }
    }
    proof {
        lemma_prefix_all(orig);
    }
    names
}

/// Compiles a block: the code of its nodes, in order.
pub fn block_to_bytecode(block: Vec<AstNode>) -> (r: Vec<Instruction>)
    ensures
        instrs_m(r@) == compile_block_m(asts_m(block@)),
    decreases block,
{
    let ghost orig = block@;
    let mut todo = reversed(block);
    let mut bytecodes: Vec<Instruction> = Vec::new();
    while todo.len() > 0
        invariant
            todo@.len() <= orig.len(),
            forall|j: int| 0 <= j < todo@.len() ==> #[trigger] todo@[j] == orig[orig.len() - 1 - j],
            orig == block@,
            instrs_m(bytecodes@) == compile_block_m(asts_m(orig.subrange(0, orig.len() - todo@.len()))),
        decreases todo@.len(),
    {
        let ghost k = orig.len() - todo@.len();
        let n = todo.pop().unwrap();
        assert(decreases_to!(block => block@[k]));
        to_bytecode(n, &mut bytecodes);
        proof {
            lemma_prefix_step(orig, k);
        }
    }
    proof {
        lemma_prefix_all(orig);
    }
    bytecodes
}

/// Compiles one node, appending its code to `prog`.
pub fn to_bytecode(ast_node: AstNode, prog: &mut Vec<Instruction>)
    ensures
        instrs_m(final(prog)@) == instrs_m(old(prog)@) + compile_m(ast_m(ast_node)),
    decreases ast_node,
{
    let ghost node = ast_node;
    let ghost old_prog = prog@;
    match ast_node {
        AstNode::Return { block: body } => {
            let mut bytecode: Vec<Instruction> = Vec::new();
            to_bytecode(*body, &mut bytecode);
            assert(instrs_m(bytecode@) =~= compile_m(ast_m(*body)));
            emit(prog, Instruction::Return { block: bytecode });
        },
        AstNode::FunctionCall { id, args } => function_call(id, args, prog),
        AstNode::Function { id, params, block } => {
            let code = block_to_bytecode(block);
            let names = function_ast_params_to_vec(params);
            emit(prog, Instruction::FunctionDeclaration { name: id, params: names, block: code });
        },
        AstNode::Add { lhs, rhs } => {
            to_bytecode(*lhs, prog);
            to_bytecode(*rhs, prog);
            emit(prog, Instruction::BinaryOp { op: BinaryOp::Add });
            assert(instrs_m(prog@) =~= instrs_m(old_prog) + compile_m(ast_m(node)));
        },
        AstNode::Mul { lhs, rhs } => {
            to_bytecode(*lhs, prog);
            to_bytecode(*rhs, prog);
            emit(prog, Instruction::BinaryOp { op: BinaryOp::Mul });
            assert(instrs_m(prog@) =~= instrs_m(old_prog) + compile_m(ast_m(node)));
        },
        AstNode::Number { value } => {
            emit(prog, Instruction::Push { value: StackValue::Integer(value) });
        },
        AstNode::PrintLn { rhs } => {
            to_bytecode(*rhs, prog);
            emit(prog, Instruction::PrintLn);
            assert(instrs_m(prog@) =~= instrs_m(old_prog) + compile_m(ast_m(node)));
        },
        AstNode::Declare { id, rhs } => {
            if let Some(val) = rhs {
                to_bytecode(*val, prog);
            }
            emit(prog, Instruction::BinaryOp { op: BinaryOp::Declare { name: id } });
            assert(instrs_m(prog@) =~= instrs_m(old_prog) + compile_m(ast_m(node)));
        },
        AstNode::Assign { id, rhs } => {
            to_bytecode(*rhs, prog);
            emit(prog, Instruction::BinaryOp { op: BinaryOp::Assign { name: id } });
            assert(instrs_m(prog@) =~= instrs_m(old_prog) + compile_m(ast_m(node)));
        },
        AstNode::ID { value } => {
            emit(prog, Instruction::Load { id: value });
        },
        AstNode::Boolean { value } => {
            emit(prog, Instruction::Push { value: StackValue::Boolean(value) });
        },
        AstNode::GreaterThan { lhs, rhs } => {
            to_bytecode(*lhs, prog);
            to_bytecode(*rhs, prog);
            emit(prog, Instruction::BinaryOp { op: BinaryOp::GreaterThan });
            assert(instrs_m(prog@) =~= instrs_m(old_prog) + compile_m(ast_m(node)));
        },
        AstNode::LessThan { lhs, rhs } => {
            to_bytecode(*lhs, prog);
            to_bytecode(*rhs, prog);
            emit(prog, Instruction::BinaryOp { op: BinaryOp::LessThan });
            assert(instrs_m(prog@) =~= instrs_m(old_prog) + compile_m(ast_m(node)));
        },
        AstNode::Empty => {
            assert(instrs_m(prog@) =~= instrs_m(old_prog) + compile_m(ast_m(node)));
        },
        AstNode::Conditional { condition: ast_condition, block: ast_block, alternative: ast_alternative } => {
            let mut condition: Vec<Instruction> = Vec::new();
            to_bytecode(*ast_condition, &mut condition);
            assert(instrs_m(condition@) =~= compile_m(ast_m(*ast_condition)));
            let block = block_to_bytecode(ast_block);
            let mut alternative: Option<Vec<Instruction>> = None;
            if let Some(alt) = ast_alternative {
                alternative = Some(block_to_bytecode(alt));
            }
            emit(prog, Instruction::Conditional { condition, block, alternative });
        },
        AstNode::Equal { lhs, rhs } => {
            to_bytecode(*lhs, prog);
            to_bytecode(*rhs, prog);
            emit(prog, Instruction::BinaryOp { op: BinaryOp::Equal });
            assert(instrs_m(prog@) =~= instrs_m(old_prog) + compile_m(ast_m(node)));
        },
        AstNode::NotEqual { lhs, rhs } => {
            to_bytecode(*lhs, prog);
            to_bytecode(*rhs, prog);
            emit(prog, Instruction::BinaryOp { op: BinaryOp::NotEqual });
            assert(instrs_m(prog@) =~= instrs_m(old_prog) + compile_m(ast_m(node)));
        },
        AstNode::LogicalAnd { lhs, rhs } => {
            to_bytecode(*lhs, prog);
            to_bytecode(*rhs, prog);
            emit(prog, Instruction::BinaryOp { op: BinaryOp::LogicalAnd });
            assert(instrs_m(prog@) =~= instrs_m(old_prog) + compile_m(ast_m(node)));
        },
        AstNode::LogicalOr { lhs, rhs } => {
            to_bytecode(*lhs, prog);
            to_bytecode(*rhs, prog);
            emit(prog, Instruction::BinaryOp { op: BinaryOp::LogicalOr });
            assert(instrs_m(prog@) =~= instrs_m(old_prog) + compile_m(ast_m(node)));
        },
    }
}

} // verus!
