//! The meaning of bytecode: how each instruction changes the operand stack,
//! the scope and the printed output, and what a block evaluates to.
use vstd::prelude::*;

use crate::err::ErrM;
use crate::model::{value_refs, FunctionM, InstrM, ObjectM, OpM, ValueM};
use crate::scope::{frames_refs, key_index, ScopeM};

verus! {

/// The state a block runs in: operand stack (top last), scope, and the
/// values printed so far.
pub ghost struct MState {
    pub stack: Seq<ValueM>,
    pub scope: ScopeM,
    pub out: Seq<ValueM>,
}

/// How a run of instructions ends: it reached its end, or a `return` fired.
pub ghost enum FlowM {
    Next,
    Returned(Option<ValueM>),
}

/// What a block evaluates to: nothing, the value on top of its stack, or a
/// `return` with what it carried.
pub ghost enum OutcomeM {
    NoValue,
    Value(ValueM),
    Returned(Option<ValueM>),
}

/// What a top-level evaluation hands back.
pub ghost enum EvalResultM {
    Value(ValueM),
    Jump,
}

pub open spec fn overflow_msg() -> Seq<char> {
    "overflowed"@
}

pub open spec fn type_mismatch_msg() -> Seq<char> {
    "operand types do not fit the operator"@
}

pub open spec fn condition_msg() -> Seq<char> {
    "condition is not a boolean"@
}

pub open spec fn argument_msg() -> Seq<char> {
    "function argument yields no value"@
}

pub open spec fn depth_msg() -> Seq<char> {
    "maximum evaluation depth exceeded"@
}

/// The value an outcome carries, if any.
pub open spec fn value_of(o: OutcomeM) -> Option<ValueM> {
    match o {
        OutcomeM::NoValue => None,
        OutcomeM::Value(v) => Some(v),
        OutcomeM::Returned(v) => v,
    }
}

/// A binary operator on its two operands: `top` was pushed last (the right
/// operand), `below` first (the left operand). Operands with different tags
/// never combine; two functions are equal when their names and bindings are.
pub open spec fn apply_m(op: OpM, top: ValueM, below: ValueM) -> Result<ValueM, ErrM> {
    let mismatch = Err(ErrM::EvalError(type_mismatch_msg()));
    match (top, below) {
        (ValueM::Integer(a), ValueM::Integer(b)) => match op {
            OpM::LessThan => Ok(ValueM::Boolean(b < a)),
            OpM::GreaterThan => Ok(ValueM::Boolean(a < b)),
            OpM::Add => if a + b <= u64::MAX {
                Ok(ValueM::Integer((a + b) as u64))
            } else {
                Err(ErrM::Numeric(overflow_msg()))
            },
            OpM::Mul => if a * b <= u64::MAX {
                Ok(ValueM::Integer((a * b) as u64))
            } else {
                Err(ErrM::Numeric(overflow_msg()))
            },
            OpM::Equal => Ok(ValueM::Boolean(a == b)),
            OpM::NotEqual => Ok(ValueM::Boolean(a != b)),
            _ => mismatch,
        },
        (ValueM::Boolean(a), ValueM::Boolean(b)) => match op {
            OpM::Equal => Ok(ValueM::Boolean(a == b)),
            OpM::NotEqual => Ok(ValueM::Boolean(a != b)),
            OpM::LogicalAnd => Ok(ValueM::Boolean(a && b)),
            OpM::LogicalOr => Ok(ValueM::Boolean(a || b)),
            _ => mismatch,
        },
        (ValueM::Function(..), ValueM::Function(..)) => match op {
            OpM::Equal => Ok(ValueM::Boolean(top == below)),
            OpM::NotEqual => Ok(ValueM::Boolean(top != below)),
            _ => mismatch,
        },
        _ => mismatch,
    }
}

/// One `BinaryOp` instruction. `Declare` and `Assign` leave the value they
/// bind on the stack, since a declaration or assignment is an expression;
/// `Declare` on an empty stack binds the name to no value yet.
pub open spec fn binary_step(op: OpM, st: MState) -> (MState, Result<FlowM, ErrM>) {
    let n = st.stack.len();
    match op {
        OpM::Declare(name) => if n == 0 {
            (
                MState { scope: st.scope.declare(name, ObjectM::Uninitialized), ..st },
                Ok(FlowM::Next),
            )
        } else {
            (
                MState {
                    scope: st.scope.declare(name, ObjectM::Value { value: st.stack[n - 1] }),
                    ..st
                },
                Ok(FlowM::Next),
            )
        },
        OpM::Assign(name) => if n == 0 {
            (st, Err(ErrM::EmptyStack))
        } else {
            match st.scope.assign(name, st.stack[n - 1]) {
                Some(scope) => (MState { scope, ..st }, Ok(FlowM::Next)),
                None => (st, Err(ErrM::UndeclaredVariable(name))),
            }
        },
        _ => if n < 2 {
            (st, Err(ErrM::EmptyStack))
        } else {
            let rest = st.stack.subrange(0, n - 2);
            match apply_m(op, st.stack[n - 1], st.stack[n - 2]) {
                Ok(v) => (MState { stack: rest.push(v), ..st }, Ok(FlowM::Next)),
                Err(e) => (MState { stack: rest, ..st }, Err(e)),
            }
        },
    }
}

/// The value pushed by `Load(name)`: a plain value, or a function value that
/// carries the function's binding.
pub open spec fn load_m(name: Seq<char>, o: ObjectM) -> ValueM {
    match o {
        ObjectM::Value { value } => value,
        _ => ValueM::Function(name, Box::new(o)),
    }
}

/// What a call of `name` resolves to: the name to report, the frame the
/// function was declared in, and the function. A variable holding a function
/// value can be called too.
pub open spec fn resolve_m(scope: ScopeM, name: Seq<char>) -> Option<(Seq<char>, nat, FunctionM)> {
    match scope.lookup(name) {
        Some(ObjectM::Function { scope: f, func }) => Some((name, f, func)),
        Some(ObjectM::Value { value: ValueM::Function(id, obj) }) => match *obj {
            ObjectM::Function { scope: f, func } => Some((id, f, func)),
            _ => None,
        },
        _ => None,
    }
}

/// The scope after each parameter is declared, in order, with its argument.
pub open spec fn bind_params(scope: ScopeM, params: Seq<Seq<char>>, args: Seq<ValueM>) -> ScopeM
    decreases params.len(),
{
    if params.len() == 0 || args.len() == 0 {
        scope
    } else {
        bind_params(
            scope,
            params.subrange(0, params.len() - 1),
            args.subrange(0, args.len() - 1),
        ).declare(params[params.len() - 1], ObjectM::Value { value: args[args.len() - 1] })
    }
}

/// Evaluates a block on a fresh operand stack; the caller's stack is left as
/// it was. Its value is the top of its own stack when it ends.
pub open spec fn block_m(b: Seq<InstrM>, st: MState, fuel: nat) -> (MState, Result<OutcomeM, ErrM>)
    decreases fuel, 2int, 0int,
{
    let (s2, r) = run_m(b, 0, MState { stack: Seq::empty(), ..st }, fuel);
    let s3 = MState { stack: st.stack, ..s2 };
    match r {
        Err(e) => (s3, Err(e)),
        Ok(FlowM::Returned(v)) => (s3, Ok(OutcomeM::Returned(v))),
        Ok(FlowM::Next) => if s2.stack.len() > 0 {
            (s3, Ok(OutcomeM::Value(s2.stack[s2.stack.len() - 1])))
        } else {
            (s3, Ok(OutcomeM::NoValue))
        },
    }
}

/// Runs the instructions of `b` from position `i` on, stopping at the first
/// error or `return`.
pub open spec fn run_m(b: Seq<InstrM>, i: nat, st: MState, fuel: nat) -> (MState, Result<FlowM, ErrM>)
    decreases fuel, 1int, b.len() - i,
{
    if i >= b.len() {
        (st, Ok(FlowM::Next))
    } else {
        let (s2, r) = step_m(b[i as int], st, fuel);
        match r {
            Ok(FlowM::Next) => run_m(b, i + 1, s2, fuel),
            _ => (s2, r),
        }
    }
}

/// Evaluates the argument blocks from position `j` on, in the caller's scope,
/// collecting one value each into `acc`.
pub open spec fn eval_args_m(args: Seq<Seq<InstrM>>, j: nat, st: MState, fuel: nat, acc: Seq<ValueM>) -> (
    MState,
    Result<Seq<ValueM>, ErrM>,
)
    decreases fuel, 3int, args.len() - j,
{
    if j >= args.len() {
        (st, Ok(acc))
    } else {
        let (s2, r) = block_m(args[j as int], st, fuel);
        match r {
            Err(e) => (s2, Err(e)),
            Ok(o) => match value_of(o) {
                Some(v) => eval_args_m(args, j + 1, s2, fuel, acc.push(v)),
                None => (s2, Err(ErrM::EvalError(argument_msg()))),
            },
        }
    }
}

/// After a call that opened its frame at index `base`: the frames from
/// `base` on are dropped when neither an older frame nor the call's value
/// refers to them, and kept all together otherwise.
pub open spec fn reclaim_m(st: MState, base: nat, v: Option<ValueM>) -> MState {
    let kept = frames_refs(st.scope.frames, base, base) || match v {
        Some(x) => value_refs(x, base),
        None => false,
    };
    if !kept && base <= st.scope.frames.len() {
        MState { scope: ScopeM { frames: st.scope.frames.subrange(0, base as int), ..st.scope }, ..st }
    } else {
        st
    }
}

/// Calls `name` with the evaluated arguments: a new frame nested in the
/// function's own frame gets the parameters, the body runs there, and the
/// caller's frame is current again afterwards; the call's frames are then
/// reclaimed unless something still refers to them. The call's value, if
/// any, is pushed.
pub open spec fn call_m(name: Seq<char>, args: Seq<ValueM>, st: MState, fuel: nat) -> (
    MState,
    Result<FlowM, ErrM>,
)
    decreases fuel, 4int, 0int,
{
    match resolve_m(st.scope, name) {
        None => (st, Err(ErrM::UndefinedFunction(name))),
        Some((id, f, func)) => if func.params.len() != args.len() {
            (st, Err(ErrM::FunctionArgumentsMissmatch(id, func.params.len(), args.len())))
        } else if f >= st.scope.frames.len() {
            (st, Err(ErrM::UndefinedFunction(id)))
        } else {
            let caller = st.scope.current;
            let s1 = MState { scope: bind_params(st.scope.enter(f), func.params, args), ..st };
            let (s2, r) = block_m(func.block, s1, fuel);
            let s3 = reclaim_m(
                MState { scope: ScopeM { current: caller, ..s2.scope }, ..s2 },
                st.scope.frames.len(),
                match r {
                    Ok(o) => value_of(o),
                    Err(_) => None,
                },
            );
            match r {
                Err(e) => (s3, Err(e)),
                Ok(o) => match value_of(o) {
                    Some(v) => (MState { stack: s3.stack.push(v), ..s3 }, Ok(FlowM::Next)),
                    None => (s3, Ok(FlowM::Next)),
                },
            }
        },
    }
}

/// One instruction. Nested blocks (a `return`'s expression, call arguments
/// and bodies, conditions and branches) take one unit of `fuel` each level.
pub open spec fn step_m(ins: InstrM, st: MState, fuel: nat) -> (MState, Result<FlowM, ErrM>)
    decreases fuel, 0int, 0int,
{
    match ins {
        InstrM::Push(v) => (MState { stack: st.stack.push(v), ..st }, Ok(FlowM::Next)),
        InstrM::BinaryOp(op) => binary_step(op, st),
        InstrM::Load(name) => match st.scope.lookup(name) {
            Some(ObjectM::Uninitialized) => (st, Err(ErrM::UndefinedReference(name))),
            Some(o) => (MState { stack: st.stack.push(load_m(name, o)), ..st }, Ok(FlowM::Next)),
            None => (st, Err(ErrM::UndefinedReference(name))),
        },
        InstrM::PrintLn => if st.stack.len() == 0 {
            (st, Err(ErrM::EmptyStack))
        } else {
            (
                MState {
                    stack: st.stack.subrange(0, st.stack.len() - 1),
                    out: st.out.push(st.stack[st.stack.len() - 1]),
                    ..st
                },
                Ok(FlowM::Next),
            )
        },
        InstrM::FunctionDeclaration(name, params, body) => if key_index(
            st.scope.here(),
            name,
        ) is Some {
            (st, Err(ErrM::FunctionDuplicate(name)))
        } else {
            (
                MState {
                    scope: st.scope.declare(
                        name,
                        ObjectM::Function {
                            scope: st.scope.current,
                            func: FunctionM { name, params, block: body },
                        },
                    ),
                    ..st
                },
                Ok(FlowM::Next),
            )
        },
        InstrM::Return(body) => if fuel == 0 {
            (st, Err(ErrM::EvalError(depth_msg())))
        } else {
            let (s2, r) = block_m(body, st, (fuel - 1) as nat);
            match r {
                Err(e) => (s2, Err(e)),
                Ok(o) => (s2, Ok(FlowM::Returned(value_of(o)))),
            }
        },
        InstrM::FunctionCall(name, args) => if fuel == 0 {
            (st, Err(ErrM::EvalError(depth_msg())))
        } else {
            let (s2, r) = eval_args_m(args, 0, st, (fuel - 1) as nat, Seq::empty());
            match r {
                Err(e) => (s2, Err(e)),
                Ok(vals) => call_m(name, vals, s2, (fuel - 1) as nat),
            }
        },
        InstrM::Conditional(cond, then_block, else_block) => if fuel == 0 {
            (st, Err(ErrM::EvalError(depth_msg())))
        } else {
            let (s2, r) = block_m(cond, st, (fuel - 1) as nat);
            match r {
                Err(e) => (s2, Err(e)),
                Ok(OutcomeM::Value(ValueM::Boolean(c))) => {
                    let branch = if c {
                        Some(then_block)
                    } else {
                        else_block
                    };
                    match branch {
                        None => (s2, Ok(FlowM::Next)),
                        Some(br) => {
                            let (s3, r3) = block_m(br, s2, (fuel - 1) as nat);
                            match r3 {
                                Err(e) => (s3, Err(e)),
                                Ok(OutcomeM::Returned(v)) => (s3, Ok(FlowM::Returned(v))),
                                Ok(_) => (s3, Ok(FlowM::Next)),
                            }
                        },
                    }
                },
                Ok(_) => (s2, Err(ErrM::EvalError(condition_msg()))),
            }
        },
    }
}

/// A whole evaluation of `b` with the given depth budget: the top of its
/// stack at the end, a jump where a `return` ended it, or nothing.
pub open spec fn eval_m(b: Seq<InstrM>, st: MState, fuel: nat) -> (MState, Result<Option<EvalResultM>, ErrM>) {
    let (s2, r) = block_m(b, st, fuel);
    match r {
        Err(e) => (s2, Err(e)),
        Ok(OutcomeM::NoValue) => (s2, Ok(None)),
        Ok(OutcomeM::Value(v)) => (s2, Ok(Some(EvalResultM::Value(v)))),
        Ok(OutcomeM::Returned(_)) => (s2, Ok(Some(EvalResultM::Jump))),
    }
}

} // verus!
