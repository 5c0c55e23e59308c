//! A small scripting language: a parser from source text to a syntax tree,
//! a compiler from the tree to nested bytecode, and a stack machine that runs
//! the bytecode against a chain of lexical scopes with closures.

pub mod ast;
pub mod bytecode;
pub mod err;
pub mod hash;
pub mod instruction;
pub mod laws;
pub mod lexer;
pub mod model;
pub mod parser;
pub mod scope;
pub mod semantics;

use vstd::prelude::*;

use crate::ast::{asts_m, AstNode};
use crate::bytecode::{block_to_bytecode, compile_block_m};
use crate::err::{ErrM, InterpError};
use crate::instruction::{
    copy_block, copy_value, eq_value, refers_value, BinaryOp, EvalResult, Instruction, JumpInstruction, StackValue,
};
use crate::model::{
    args_m, function_m, instr_m, instrs_m, lemma_args_m, lemma_instrs_m, names_m, op_m, value_m,
    values_m, ValueM,
};
use crate::parser::{parse, parse_m};
use crate::scope::{Function, Object, Scope, ScopeM};
use crate::semantics::{
    apply_m, binary_step, bind_params, block_m, call_m, eval_args_m, eval_m, resolve_m, run_m, step_m,
    value_of, EvalResultM, FlowM, MState, OutcomeM,
};

verus! {

/// The nesting budget of one evaluation: calls, their arguments, `return`
/// expressions, conditions and branches each take one level. It is as large
/// as the counter allows, so runaway recursion ends by exhausting the
/// machine rather than with an error of the language.
pub const MAX_DEPTH: u64 = u64::MAX;

/// The stack machine: its operand stack and the values `println` printed.
pub struct YIWR {
    stack: Vec<StackValue>,
    output: Vec<StackValue>,
}

/// The model of the machine.
pub ghost struct MachineM {
    pub stack: Seq<ValueM>,
    pub out: Seq<ValueM>,
}

impl View for YIWR {
    type V = MachineM;

    closed spec fn view(&self) -> MachineM {
        MachineM { stack: values_m(self.stack@), out: values_m(self.output@) }
    }
}

/// The state a program runs in, made of the machine and the scope.
pub open spec fn mstate(m: MachineM, s: ScopeM) -> MState {
    MState { stack: m.stack, scope: s, out: m.out }
}

/// How a run of instructions ended.
pub enum Flow {
    Next,
    Returned(Option<StackValue>),
}

/// What a block evaluated to.
pub enum Outcome {
    NoValue,
    Value(StackValue),
    Returned(Option<StackValue>),
}

pub open spec fn opt_value_m(v: Option<StackValue>) -> Option<ValueM> {
    match v {
        Some(x) => Some(value_m(x)),
        None => None,
    }
}

pub open spec fn flow_res_m(r: Result<Flow, InterpError>) -> Result<FlowM, crate::err::ErrM> {
    match r {
        Ok(Flow::Next) => Ok(FlowM::Next),
        Ok(Flow::Returned(v)) => Ok(FlowM::Returned(opt_value_m(v))),
        Err(e) => Err(e@),
    }
}

pub open spec fn outcome_res_m(r: Result<Outcome, InterpError>) -> Result<OutcomeM, crate::err::ErrM> {
    match r {
        Ok(Outcome::NoValue) => Ok(OutcomeM::NoValue),
        Ok(Outcome::Value(v)) => Ok(OutcomeM::Value(value_m(v))),
        Ok(Outcome::Returned(v)) => Ok(OutcomeM::Returned(opt_value_m(v))),
        Err(e) => Err(e@),
    }
}

pub open spec fn unit_res_m(r: Result<(), InterpError>) -> Result<FlowM, crate::err::ErrM> {
    match r {
        Ok(()) => Ok(FlowM::Next),
        Err(e) => Err(e@),
    }
}

pub open spec fn values_res_m(r: Result<Vec<StackValue>, InterpError>) -> Result<Seq<ValueM>, crate::err::ErrM> {
    match r {
        Ok(v) => Ok(values_m(v@)),
        Err(e) => Err(e@),
    }
}

pub open spec fn eval_res_m(r: Result<Option<EvalResult>, InterpError>) -> Result<Option<EvalResultM>, crate::err::ErrM> {
    match r {
        Ok(None) => Ok(None),
        Ok(Some(EvalResult::Value(v))) => Ok(Some(EvalResultM::Value(value_m(v)))),
        Ok(Some(EvalResult::Jump(_))) => Ok(Some(EvalResultM::Jump)),
        Err(e) => Err(e@),
    }
}

/// The value an outcome carries, if any.
fn into_value(o: Outcome) -> (r: Option<StackValue>)
    ensures
        opt_value_m(r) == value_of(outcome_res_m(Ok(o))->Ok_0),
{
    match o {
        Outcome::NoValue => None,
        Outcome::Value(v) => Some(v),
        Outcome::Returned(v) => v,
    }
}

fn eval_error(msg: &str) -> (r: InterpError)
    ensures
        r@ == crate::err::ErrM::EvalError(msg@),
{
    InterpError::EvalError(msg.to_owned())
}

/// A binary operator on its two operands: `op1` was pushed last.
fn apply_op(op: &BinaryOp, op1: StackValue, op2: StackValue) -> (r: Result<StackValue, InterpError>)
    ensures
        match r {
            Ok(v) => apply_m(op_m(*op), value_m(op1), value_m(op2)) == Ok::<ValueM, crate::err::ErrM>(value_m(v)),
            Err(e) => apply_m(op_m(*op), value_m(op1), value_m(op2)) == Err::<ValueM, crate::err::ErrM>(e@),
        },
{
    if matches!(op1, StackValue::Function(..)) && matches!(op2, StackValue::Function(..)) {
        let same = eq_value(&op1, &op2);
        return match op {
            BinaryOp::Equal => Ok(StackValue::Boolean(same)),
            BinaryOp::NotEqual => Ok(StackValue::Boolean(!same)),
            _ => Err(eval_error("operand types do not fit the operator")),
        };
    }
    match (op1, op2) {
        (StackValue::Integer(a), StackValue::Integer(b)) => match op {
            BinaryOp::LessThan => Ok(StackValue::Boolean(b < a)),
            BinaryOp::GreaterThan => Ok(StackValue::Boolean(a < b)),
            BinaryOp::Add => match a.checked_add(b) {
                Some(v) => Ok(StackValue::Integer(v)),
                None => Err(InterpError::Numeric("overflowed".to_owned())),
            },
            BinaryOp::Mul => match a.checked_mul(b) {
                Some(v) => Ok(StackValue::Integer(v)),
                None => Err(InterpError::Numeric("overflowed".to_owned())),
            },
            BinaryOp::Equal => Ok(StackValue::Boolean(a == b)),
            BinaryOp::NotEqual => Ok(StackValue::Boolean(a != b)),
            _ => Err(eval_error("operand types do not fit the operator")),
        },
        (StackValue::Boolean(a), StackValue::Boolean(b)) => match op {
            BinaryOp::Equal => Ok(StackValue::Boolean(a == b)),
            BinaryOp::NotEqual => Ok(StackValue::Boolean(a != b)),
            BinaryOp::LogicalAnd => Ok(StackValue::Boolean(a && b)),
            BinaryOp::LogicalOr => Ok(StackValue::Boolean(a || b)),
            _ => Err(eval_error("operand types do not fit the operator")),
        },
        _ => Err(eval_error("operand types do not fit the operator")),
    }
}

impl YIWR {
    /// A machine with an empty stack that has printed nothing.
    pub fn new() -> (r: YIWR)
        ensures
            r@.stack == Seq::<ValueM>::empty(),
            r@.out == Seq::<ValueM>::empty(),
    {
        let r = YIWR { stack: Vec::new(), output: Vec::new() };
        assert(r@.stack =~= Seq::<ValueM>::empty());
        assert(r@.out =~= Seq::<ValueM>::empty());
        r
    }

    /// Takes the top of the stack.
    pub fn stack_pop(&mut self) -> (r: Result<StackValue, InterpError>)
        ensures
            final(self)@.out == old(self)@.out,
            old(self)@.stack.len() == 0 ==> r == Err::<StackValue, InterpError>(InterpError::EmptyStack)
                && final(self)@ == old(self)@,
            old(self)@.stack.len() > 0 ==> (r matches Ok(v) && value_m(v) == old(self)@.stack.last())
                && final(self)@.stack == old(self)@.stack.drop_last(),
    {
        let ghost before = self.stack@;
        match self.stack.pop() {
            Some(v) => {
                assert(values_m(self.stack@) =~= values_m(before).drop_last());
                Ok(v)
            },
            None => Err(InterpError::EmptyStack),
        }
    }

    /// Puts a value on top of the stack.
    pub fn stack_push(&mut self, val: StackValue)
        ensures
            final(self)@.stack == old(self)@.stack.push(value_m(val)),
            final(self)@.out == old(self)@.out,
    {
        let ghost before = self.stack@;
        self.stack.push(val);
        assert(values_m(self.stack@) =~= values_m(before).push(value_m(val)));
    }

    /// Hands out what `println` printed so far, oldest first, and forgets it.
    pub fn take_output(&mut self) -> (r: Vec<StackValue>)
        ensures
            values_m(r@) == old(self)@.out,
            final(self)@.out == Seq::<ValueM>::empty(),
            final(self)@.stack == old(self)@.stack,
    {
        let mut r: Vec<StackValue> = Vec::new();
        std::mem::swap(&mut self.output, &mut r);
        assert(values_m(self.output@) =~= Seq::<ValueM>::empty());
        r
    }

    /// Parses source text into the syntax trees of its statements.
    pub fn from_str(&self, input: &str) -> (r: Result<Vec<AstNode>, InterpError>)
        requires
            input@.len() + 8 < usize::MAX,
        ensures
            match parse_m(input@) {
                Some(nodes) => r matches Ok(v) && asts_m(v@) == nodes,
                None => r matches Err(e) && e is ParseError,
            },
    {
        parse(input)
    }

    /// Parses, compiles and runs a program in a fresh scope on a fresh machine.
    pub fn eval_input(input: String) -> (r: Result<Option<EvalResult>, InterpError>)
        requires
            input@.len() + 8 < usize::MAX,
        ensures
            match parse_m(input@) {
                Some(nodes) => eval_res_m(r) == eval_m(
                    compile_block_m(nodes),
                    MState { stack: Seq::empty(), scope: ScopeM::root(), out: Seq::empty() },
                    MAX_DEPTH as nat,
                ).1,
                None => r matches Err(e) && e is ParseError,
            },
    {
        let mut scope = Scope::new();
        let yaiwr = &mut YIWR::new();
        let ast = match yaiwr.from_str(input.as_str()) {
            Ok(ast) => ast,
            Err(e) => {
                return Err(e);
            },
        };
        let bytecode = YIWR::ast_to_bytecode(ast);
        yaiwr.eval(&bytecode, &mut scope)
    }

    /// Compiles a program's nodes into one instruction sequence.
    pub fn ast_to_bytecode(ast: Vec<AstNode>) -> (r: Vec<Instruction>)
        ensures
            instrs_m(r@) == compile_block_m(asts_m(ast@)),
    {
        block_to_bytecode(ast)
    }

    /// One `BinaryOp` instruction.
    fn eval_binary_op(&mut self, op: &BinaryOp, scope: &mut Scope) -> (r: Result<(), InterpError>)
        requires
            old(scope)@.wf(),
        ensures
            final(scope)@.wf(),
            final(scope)@.frames.len() == old(scope)@.frames.len(),
            binary_step(op_m(*op), mstate(old(self)@, old(scope)@)) == (
            mstate(final(self)@, final(scope)@),
            unit_res_m(r),
            ),
    {
        let n = self.stack.len();
        match op {
            BinaryOp::Declare { name } => {
                if n == 0 {
                    proof {
                        crate::scope::lemma_declare_wf(scope@, name@, crate::model::ObjectM::Uninitialized);
                    }
                    scope.bind_uninitialized(name.clone());
                    return Ok(());
                }
                let v = copy_value(&self.stack[n - 1]);
                proof {
                    crate::scope::lemma_declare_wf(scope@, name@, crate::model::ObjectM::Value { value: value_m(v) });
                }
                scope.dec_var(name.clone(), v);
                Ok(())
            },
            BinaryOp::Assign { name } => {
                if n == 0 {
                    return Err(InterpError::EmptyStack);
                }
                let v = copy_value(&self.stack[n - 1]);
                proof {
                    crate::scope::lemma_assign_wf(scope@.frames, scope@.current, scope@.current, name@, value_m(v));
                }
                match scope.set_var(name.clone(), v) {
                    Some(_) => Ok(()),
                    None => Err(InterpError::UndeclaredVariable(name.clone())),
                }
            },
            _ => {
                if n < 2 {
                    return Err(InterpError::EmptyStack);
                }
                let ghost before = self.stack@;
                let op1 = self.stack.pop().unwrap();
                let op2 = self.stack.pop().unwrap();
                let ghost rest = self.stack@;
                assert(values_m(rest) =~= values_m(before).subrange(0, n - 2));
                match apply_op(op, op1, op2) {
                    Ok(v) => {
                        self.stack.push(v);
                        assert(values_m(self.stack@) =~= values_m(rest).push(value_m(v)));
                        Ok(())
                    },
                    Err(e) => Err(e),
                }
            },
        }
    }

    /// Opens the frame for a call of function `id`, declared in frame `f`:
    /// a new frame nested in `f` where each parameter, in order, is declared
    /// with its argument. Fails, changing nothing, when the numbers of
    /// parameters and arguments differ, or when there is no frame `f`.
    fn construct_function_scope(
        scope: &mut Scope,
        id: String,
        f: usize,
        args: &Vec<StackValue>,
        params: &Vec<String>,
    ) -> (r: Result<(), InterpError>)
        requires
            old(scope)@.wf(),
        ensures
            final(scope)@.wf(),
            params@.len() != args@.len() ==> final(scope)@ == old(scope)@ && (r matches Err(e) && e@
                == ErrM::FunctionArgumentsMissmatch(id@, params@.len(), args@.len())),
            params@.len() == args@.len() && f >= old(scope)@.frames.len() ==> final(scope)@ == old(
                scope,
            )@ && (r matches Err(e) && e@ == ErrM::UndefinedFunction(id@)),
            params@.len() == args@.len() && f < old(scope)@.frames.len() ==> r is Ok && final(scope)@
                == bind_params(old(scope)@.enter(f as nat), names_m(params@), values_m(args@))
                && final(scope)@.frames.len() == old(scope)@.frames.len() + 1,
    {
        if params.len() != args.len() {
            return Err(InterpError::FunctionArgumentsMissmatch(id, params.len(), args.len()));
        }
        if f >= scope.frame_count() {
            return Err(InterpError::UndefinedFunction(id));
        }
        let ghost entered = scope@.enter(f as nat);
        scope.enter(f, id);
        let mut i: usize = 0;
        assert(names_m(params@).subrange(0, 0) =~= Seq::<Seq<char>>::empty());
        assert(values_m(args@).subrange(0, 0) =~= Seq::<ValueM>::empty());
        while i < params.len()
            invariant
                i <= params@.len(),
                params@.len() == args@.len(),
                scope@.wf(),
                scope@.frames.len() == entered.frames.len(),
                scope@ == bind_params(
                    entered,
                    names_m(params@).subrange(0, i as int),
                    values_m(args@).subrange(0, i as int),
                ),
            decreases params@.len() - i,
        {
            let v = copy_value(&args[i]);
            proof {
                crate::scope::lemma_declare_wf(scope@, params@[i as int]@, crate::model::ObjectM::Value { value: value_m(v) });
                assert(names_m(params@).subrange(0, i + 1).subrange(0, i as int) =~= names_m(params@).subrange(0, i as int));
                assert(values_m(args@).subrange(0, i + 1).subrange(0, i as int) =~= values_m(args@).subrange(0, i as int));
            }
            scope.dec_var(params[i].clone(), v);
            i += 1;
        }
        assert(names_m(params@).subrange(0, i as int) =~= names_m(params@));
        assert(values_m(args@).subrange(0, i as int) =~= values_m(args@));
        Ok(())
    }

    /// Evaluates each argument block, in the caller's scope, to one value.
    fn eval_function_args(&mut self, args: &Vec<Vec<Instruction>>, scope: &mut Scope, fuel: u64) -> (r: Result<Vec<StackValue>, InterpError>)
        requires
            old(scope)@.wf(),
        ensures
            final(scope)@.wf(),
            final(scope)@.frames.len() >= old(scope)@.frames.len(),
            eval_args_m(args_m(args@), 0, mstate(old(self)@, old(scope)@), fuel as nat, Seq::empty()) == (
            mstate(final(self)@, final(scope)@),
            values_res_m(r),
            ),
        decreases fuel, 3int, 0int,
    {
        let ghost code = args_m(args@);
        let ghost st0 = mstate(self@, scope@);
        proof {
            lemma_args_m(args@);
        }
        let mut result: Vec<StackValue> = Vec::new();
        let mut j: usize = 0;
        assert(values_m(result@) =~= Seq::<ValueM>::empty());
        while j < args.len()
            invariant
                j <= args@.len(),
                code == args_m(args@),
                code.len() == args@.len(),
                forall|k: int| 0 <= k < args@.len() ==> #[trigger] code[k] == instrs_m(args@[k]@),
                scope@.wf(),
                scope@.frames.len() >= st0.scope.frames.len(),
                st0 == mstate(old(self)@, old(scope)@),
                eval_args_m(code, 0, st0, fuel as nat, Seq::empty()) == eval_args_m(
                    code,
                    j as nat,
                    mstate(self@, scope@),
                    fuel as nat,
                    values_m(result@),
                ),
            decreases args@.len() - j,
        {
            match self.exec_block(&args[j], scope, fuel) {
                Err(e) => {
                    return Err(e);
                },
                Ok(o) => match into_value(o) {
                    Some(v) => {
                        let ghost before = result@;
                        result.push(v);
                        assert(values_m(result@) =~= values_m(before).push(value_m(v)));
                    },
                    None => {
                        return Err(eval_error("function argument yields no value"));
                    },
                },
            }
            j += 1;
        }
        Ok(result)
    }

    /// Calls `func_name` with the evaluated arguments.
    fn eval_function_call(&mut self, func_name: &String, args: Vec<StackValue>, scope: &mut Scope, fuel: u64) -> (r: Result<Flow, InterpError>)
        requires
            old(scope)@.wf(),
        ensures
            final(scope)@.wf(),
            final(scope)@.frames.len() >= old(scope)@.frames.len(),
            call_m(func_name@, values_m(args@), mstate(old(self)@, old(scope)@), fuel as nat) == (
            mstate(final(self)@, final(scope)@),
            flow_res_m(r),
            ),
        decreases fuel, 4int, 0int,
    {
        proof {
            reveal_with_fuel(crate::model::value_m, 2);
            reveal_with_fuel(crate::model::object_m, 3);
        }
        let resolved: Option<(String, usize, Function)> = match scope.get_var(func_name.clone()) {
            Some(Object::Function { scope: f, func }) => Some((func_name.clone(), f, func)),
            Some(Object::Value { value: StackValue::Function(id, obj) }) => match *obj {
                Object::Function { scope: f, func } => Some((id, f, func)),
                _ => None,
            },
            _ => None,
        };
        assert(match resolved {
            Some((id, f, func)) => resolve_m(scope@, func_name@) == Some((id@, f as nat, function_m(func))),
            None => resolve_m(scope@, func_name@) is None,
        });
        match resolved {
            None => Err(InterpError::UndefinedFunction(func_name.clone())),
            Some((id, f, func)) => {
                let caller = scope.current_frame();
                let base = scope.frame_count();
                if let Err(e) = Self::construct_function_scope(scope, id, f, &args, &func.params) {
                    return Err(e);
                }
                let r = self.exec_block(&func.block, scope, fuel);
                scope.set_current(caller);
                let r = match r {
                    Err(e) => Err(e),
                    Ok(o) => Ok(into_value(o)),
                };
                let kept = scope.frames_refer_to(base) || match &r {
                    Ok(Some(v)) => refers_value(v, base),
                    _ => false,
                };
                if !kept {
                    scope.drop_frames_from(base);
                }
                match r {
                    Err(e) => Err(e),
                    Ok(val) => {
                        match val {
                            Some(v) => {
                                let ghost before = self.stack@;
                                self.stack.push(v);
                                assert(values_m(self.stack@) =~= values_m(before).push(value_m(v)));
                            },
                            None => {},
                        }
                        Ok(Flow::Next)
                    },
                }
            },
        }
    }

    /// One instruction.
    fn step(&mut self, ins: &Instruction, scope: &mut Scope, fuel: u64) -> (r: Result<Flow, InterpError>)
        requires
            old(scope)@.wf(),
        ensures
            final(scope)@.wf(),
            final(scope)@.frames.len() >= old(scope)@.frames.len(),
            step_m(instr_m(*ins), mstate(old(self)@, old(scope)@), fuel as nat) == (
            mstate(final(self)@, final(scope)@),
            flow_res_m(r),
            ),
        decreases fuel, 0int, 0int,
    {
        match ins {
            Instruction::Push { value } => {
                let v = copy_value(value);
                let ghost before = self.stack@;
                self.stack.push(v);
                assert(values_m(self.stack@) =~= values_m(before).push(value_m(v)));
                Ok(Flow::Next)
            },
            Instruction::BinaryOp { op } => match self.eval_binary_op(op, scope) {
                Ok(()) => Ok(Flow::Next),
                Err(e) => Err(e),
            },
            Instruction::Load { id } => match scope.get_var(id.clone()) {
                Some(Object::Uninitialized) => Err(InterpError::UndefinedReference(id.clone())),
                Some(obj) => {
                    let v = match obj {
                        Object::Value { value } => value,
                        other => StackValue::Function(id.clone(), Box::new(other)),
                    };
                    let ghost before = self.stack@;
                    self.stack.push(v);
                    assert(values_m(self.stack@) =~= values_m(before).push(value_m(v)));
                    Ok(Flow::Next)
                },
                None => Err(InterpError::UndefinedReference(id.clone())),
            },
            Instruction::PrintLn => {
                let ghost before = self.stack@;
                match self.stack.pop() {
                    Some(v) => {
                        assert(values_m(self.stack@) =~= values_m(before).subrange(0, before.len() - 1));
                        let ghost printed = self.output@;
                        self.output.push(v);
                        assert(values_m(self.output@) =~= values_m(printed).push(value_m(v)));
                        Ok(Flow::Next)
                    },
                    None => Err(InterpError::EmptyStack),
                }
            },
            Instruction::FunctionDeclaration { name, params, block } => {
                if scope.is_bound_here(name) {
                    Err(InterpError::FunctionDuplicate(name.clone()))
                } else {
                    let ps = params.clone();
                    assert(names_m(ps@) =~= names_m(params@));
                    let code = copy_block(block);
                    scope.dec_func(name.clone(), ps, code);
                    Ok(Flow::Next)
                }
            },
            Instruction::Return { block } => {
                if fuel == 0 {
                    return Err(eval_error("maximum evaluation depth exceeded"));
                }
                match self.exec_block(block, scope, fuel - 1) {
                    Err(e) => Err(e),
                    Ok(o) => Ok(Flow::Returned(into_value(o))),
                }
            },
            Instruction::FunctionCall { id, args } => {
                if fuel == 0 {
                    return Err(eval_error("maximum evaluation depth exceeded"));
                }
                match self.eval_function_args(args, scope, fuel - 1) {
                    Err(e) => Err(e),
                    Ok(vals) => self.eval_function_call(id, vals, scope, fuel - 1),
                }
            },
            Instruction::Conditional { condition, block, alternative } => {
                if fuel == 0 {
                    return Err(eval_error("maximum evaluation depth exceeded"));
                }
                match self.exec_block(condition, scope, fuel - 1) {
                    Err(e) => Err(e),
                    Ok(Outcome::Value(StackValue::Boolean(c))) => {
                        let branch: Option<&Vec<Instruction>> = if c {
                            Some(block)
                        } else {
                            match alternative {
                                Some(alt) => Some(alt),
                                None => None,
                            }
                        };
                        match branch {
                            None => Ok(Flow::Next),
                            Some(br) => match self.exec_block(br, scope, fuel - 1) {
                                Err(e) => Err(e),
                                Ok(Outcome::Returned(v)) => Ok(Flow::Returned(v)),
                                Ok(_) => Ok(Flow::Next),
                            },
                        }
                    },
                    Ok(_) => Err(eval_error("condition is not a boolean")),
                }
            },
        }
    }

    /// Runs a block on a fresh operand stack, leaving the caller's stack as
    /// it was; its value is the top of its own stack at the end.
    fn exec_block(&mut self, b: &Vec<Instruction>, scope: &mut Scope, fuel: u64) -> (r: Result<Outcome, InterpError>)
        requires
            old(scope)@.wf(),
        ensures
            final(scope)@.wf(),
            final(scope)@.frames.len() >= old(scope)@.frames.len(),
            block_m(instrs_m(b@), mstate(old(self)@, old(scope)@), fuel as nat) == (
            mstate(final(self)@, final(scope)@),
            outcome_res_m(r),
            ),
        decreases fuel, 2int, 0int,
    {
        let ghost code = instrs_m(b@);
        let ghost st0 = mstate(self@, scope@);
        proof {
            lemma_instrs_m(b@);
        }
        let mut saved: Vec<StackValue> = Vec::new();
        std::mem::swap(&mut self.stack, &mut saved);
        assert(values_m(self.stack@) =~= Seq::<ValueM>::empty());
        let mut i: usize = 0;
        while i < b.len()
            invariant
                i <= b@.len(),
                code == instrs_m(b@),
                code.len() == b@.len(),
                forall|k: int| 0 <= k < b@.len() ==> #[trigger] code[k] == instr_m(b@[k]),
                scope@.wf(),
                scope@.frames.len() >= st0.scope.frames.len(),
                st0 == mstate(old(self)@, old(scope)@),
                values_m(saved@) == st0.stack,
                run_m(code, 0, MState { stack: Seq::empty(), ..st0 }, fuel as nat) == run_m(
                    code,
                    i as nat,
                    mstate(self@, scope@),
                    fuel as nat,
                ),
            decreases b@.len() - i,
        {
            match self.step(&b[i], scope, fuel) {
                Ok(Flow::Next) => {},
                Ok(Flow::Returned(v)) => {
                    std::mem::swap(&mut self.stack, &mut saved);
                    return Ok(Outcome::Returned(v));
                },
                Err(e) => {
                    std::mem::swap(&mut self.stack, &mut saved);
                    return Err(e);
                },
            }
            i += 1;
        }
        let result = match self.stack.pop() {
            Some(v) => Outcome::Value(v),
            None => Outcome::NoValue,
        };
        std::mem::swap(&mut self.stack, &mut saved);
        Ok(result)
    }

    /// Runs a program's instructions in `scope`. Its value is the top of the
    /// stack when the instructions end, a jump where a top-level `return`
    /// ended them, or nothing where the stack is empty.
    pub fn eval(&mut self, instructions: &Vec<Instruction>, scope: &mut Scope) -> (r: Result<
        Option<EvalResult>,
        InterpError,
    >)
        requires
            old(scope)@.wf(),
        ensures
            final(scope)@.wf(),
            eval_m(instrs_m(instructions@), mstate(old(self)@, old(scope)@), MAX_DEPTH as nat) == (
            mstate(final(self)@, final(scope)@),
            eval_res_m(r),
            ),
    {
        match self.exec_block(instructions, scope, MAX_DEPTH) {
            Err(e) => Err(e),
            Ok(Outcome::NoValue) => Ok(None),
            Ok(Outcome::Value(v)) => Ok(Some(EvalResult::Value(v))),
            Ok(Outcome::Returned(_)) => Ok(Some(EvalResult::Jump(JumpInstruction::Return))),
        }
    }
}

} // verus!
