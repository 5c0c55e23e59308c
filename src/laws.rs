//! Properties of whole programs, proved from the meaning of bytecode.
use vstd::prelude::*;

use crate::ast::AstM;
use crate::bytecode::{compile_args_m, compile_block_m, compile_m, params_m};
use crate::err::ErrM;
use crate::model::{FunctionM, InstrM, ObjectM, OpM, ValueM};
use crate::scope::{
    key_index, lemma_declare_here, lemma_declare_other, lemma_declare_wf, lemma_lookup_prefix,
    lookup_from, ScopeM,
};
use crate::semantics::{
    bind_params, block_m, call_m, reclaim_m, eval_args_m, eval_m, overflow_msg, resolve_m, run_m, step_m,
    EvalResultM, FlowM, MState, OutcomeM,
};
use crate::instruction::decimal_m;
use crate::lexer::{digit_val, digits_end, digits_val, is_digit, lex_m, symbol_m, token_at, TokM};
use crate::parser::{
    at, bin_m, end_m, expr_m, mk_m, parse_m, primary_m, program_m, rest_m, simple_m, stmt_m,
    stmts_m, BinKind,
};
use crate::MAX_DEPTH;

verus! {

/// The expression `a + b` for two literals.
pub open spec fn sum_expr(a: u64, b: u64) -> AstM {
    AstM::Add(Box::new(AstM::Number(a)), Box::new(AstM::Number(b)))
}

/// Adding two literals yields their sum when it fits in 64 bits, and a
/// numeric overflow error when it does not; in any state.
pub proof fn law_add_checked(a: u64, b: u64, st: MState)
    ensures
        eval_m(compile_block_m(seq![sum_expr(a, b)]), st, MAX_DEPTH as nat).1 == if a + b
            <= u64::MAX {
            Ok::<Option<EvalResultM>, ErrM>(Some(EvalResultM::Value(ValueM::Integer((a + b) as u64))))
        } else {
            Err::<Option<EvalResultM>, ErrM>(ErrM::Numeric(overflow_msg()))
        },
{
    let code = compile_block_m(seq![sum_expr(a, b)]);
    assert(seq![sum_expr(a, b)].subrange(0, 0) =~= Seq::<AstM>::empty());
    assert(compile_m(AstM::Number(a)) == seq![InstrM::Push(ValueM::Integer(a))]);
    assert(compile_m(AstM::Number(b)) == seq![InstrM::Push(ValueM::Integer(b))]);
    assert(compile_block_m(Seq::<AstM>::empty()) == Seq::<InstrM>::empty());
    assert(seq![sum_expr(a, b)][0] == sum_expr(a, b));
    assert(compile_block_m(seq![sum_expr(a, b)]) == compile_block_m(Seq::<AstM>::empty())
        + compile_m(sum_expr(a, b)));
    assert(compile_m(sum_expr(a, b)) == compile_m(AstM::Number(a)) + compile_m(AstM::Number(b))
        + seq![InstrM::BinaryOp(OpM::Add)]);
    assert(code =~= seq![
        InstrM::Push(ValueM::Integer(a)),
        InstrM::Push(ValueM::Integer(b)),
        InstrM::BinaryOp(OpM::Add),
    ]);
    let s0 = MState { stack: Seq::empty(), ..st };
    let s1 = MState { stack: seq![ValueM::Integer(a)], ..st };
    let s2 = MState { stack: seq![ValueM::Integer(a), ValueM::Integer(b)], ..st };
    assert(s0.stack.push(ValueM::Integer(a)) =~= s1.stack);
    assert(s1.stack.push(ValueM::Integer(b)) =~= s2.stack);
    assert(s2.stack.subrange(0, 0) =~= Seq::<ValueM>::empty());
    let fuel = MAX_DEPTH as nat;
    assert(step_m(code[0], s0, fuel) == (s1, Ok::<FlowM, ErrM>(FlowM::Next)));
    assert(step_m(code[1], s1, fuel) == (s2, Ok::<FlowM, ErrM>(FlowM::Next)));
    assert(run_m(code, 0, s0, fuel) == run_m(code, 2, s2, fuel));
    let r = run_m(code, 3, step_m(code[2], s2, fuel).0, fuel);
    if a + b <= u64::MAX {
        let s3 = MState { stack: seq![ValueM::Integer((a + b) as u64)], ..st };
        assert(Seq::<ValueM>::empty().push(ValueM::Integer((a + b) as u64)) =~= s3.stack);
        assert(step_m(code[2], s2, fuel).0 == s3);
    }
}

/// A program of one statement compiles to that statement's code.
proof fn lemma_single(n: AstM)
    ensures
        compile_block_m(seq![n]) == compile_m(n),
{
    assert(seq![n].subrange(0, 0) =~= Seq::<AstM>::empty());
    assert(seq![n][0] == n);
    assert(compile_block_m(Seq::<AstM>::empty()) == Seq::<InstrM>::empty());
    assert(compile_block_m(seq![n]) == compile_block_m(Seq::<AstM>::empty()) + compile_m(n));
    assert(compile_m(n) =~= Seq::<InstrM>::empty() + compile_m(n));
}

/// A name declared with a literal value and then loaded in the same scope
/// yields that value; the declaration itself yields it too.
pub proof fn law_declare_then_load(x: Seq<char>, n: u64, st: MState)
    requires
        st.scope.wf(),
    ensures
        ({
            let (s1, r1) = eval_m(
                compile_block_m(seq![AstM::Declare(x, Some(Box::new(AstM::Number(n))))]),
                st,
                MAX_DEPTH as nat,
            );
            &&& r1 == Ok::<Option<EvalResultM>, ErrM>(Some(EvalResultM::Value(ValueM::Integer(n))))
            &&& eval_m(compile_block_m(seq![AstM::ID(x)]), s1, MAX_DEPTH as nat).1 == Ok::<
                Option<EvalResultM>,
                ErrM,
            >(Some(EvalResultM::Value(ValueM::Integer(n))))
        }),
{
    let fuel = MAX_DEPTH as nat;
    let decl = AstM::Declare(x, Some(Box::new(AstM::Number(n))));
    lemma_single(decl);
    lemma_single(AstM::ID(x));
    assert(compile_m(AstM::Number(n)) == seq![InstrM::Push(ValueM::Integer(n))]);
    let code = compile_m(decl);
    assert(code =~= seq![
        InstrM::Push(ValueM::Integer(n)),
        InstrM::BinaryOp(OpM::Declare(x)),
    ]);
    let obj = ObjectM::Value { value: ValueM::Integer(n) };
    let s0 = MState { stack: Seq::empty(), ..st };
    let s1 = MState { stack: seq![ValueM::Integer(n)], ..st };
    assert(s0.stack.push(ValueM::Integer(n)) =~= s1.stack);
    let s2 = MState { scope: st.scope.declare(x, obj), ..s1 };
    assert(step_m(code[0], s0, fuel) == (s1, Ok::<FlowM, ErrM>(FlowM::Next)));
    assert(step_m(code[1], s1, fuel) == (s2, Ok::<FlowM, ErrM>(FlowM::Next)));
    assert(run_m(code, 0, s0, fuel) == run_m(code, 2, s2, fuel));
    let after = MState { stack: st.stack, ..s2 };
    assert(block_m(code, st, fuel) == (after, Ok::<OutcomeM, ErrM>(OutcomeM::Value(ValueM::Integer(n)))));
    lemma_declare_here(st.scope, x, obj);
    let load = seq![InstrM::Load(x)];
    assert(compile_m(AstM::ID(x)) == load);
    let t0 = MState { stack: Seq::empty(), ..after };
    let t1 = MState { stack: seq![ValueM::Integer(n)], ..after };
    assert(t0.stack.push(ValueM::Integer(n)) =~= t1.stack);
    assert(step_m(load[0], t0, fuel) == (t1, Ok::<FlowM, ErrM>(FlowM::Next)));
    assert(run_m(load, 0, t0, fuel) == run_m(load, 1, t1, fuel));
}

/// Loading a name that no frame on the way binds fails with an undefined
/// reference, in any state.
pub proof fn law_load_undeclared(x: Seq<char>, st: MState)
    requires
        st.scope.lookup(x) is None,
    ensures
        eval_m(compile_block_m(seq![AstM::ID(x)]), st, MAX_DEPTH as nat).1 == Err::<
            Option<EvalResultM>,
            ErrM,
        >(ErrM::UndefinedReference(x)),
{
    let fuel = MAX_DEPTH as nat;
    lemma_single(AstM::ID(x));
    let load = seq![InstrM::Load(x)];
    assert(compile_m(AstM::ID(x)) == load);
    let t0 = MState { stack: Seq::empty(), ..st };
    assert(step_m(load[0], t0, fuel).1 == Err::<FlowM, ErrM>(ErrM::UndefinedReference(x)));
}

/// Declaring a function under a name that the current frame already binds
/// fails: after any declaration of `f`, a second one in the same scope is
/// refused as a duplicate.
pub proof fn law_redeclare_function(
    f: Seq<char>,
    ps1: Seq<AstM>,
    b1: Seq<AstM>,
    ps2: Seq<AstM>,
    b2: Seq<AstM>,
    st: MState,
)
    requires
        st.scope.wf(),
    ensures
        ({
            let (s1, r1) = eval_m(compile_block_m(seq![AstM::Function(f, ps1, b1)]), st, MAX_DEPTH as nat);
            eval_m(compile_block_m(seq![AstM::Function(f, ps2, b2)]), s1, MAX_DEPTH as nat).1 == Err::<
                Option<EvalResultM>,
                ErrM,
            >(ErrM::FunctionDuplicate(f))
        }),
{
    let fuel = MAX_DEPTH as nat;
    lemma_single(AstM::Function(f, ps1, b1));
    lemma_single(AstM::Function(f, ps2, b2));
    let c1 = compile_m(AstM::Function(f, ps1, b1));
    let c2 = compile_m(AstM::Function(f, ps2, b2));
    let s0 = MState { stack: Seq::empty(), ..st };
    let (s1, r1) = step_m(c1[0], s0, fuel);
    assert(run_m(c1, 0, s0, fuel) == run_m(c1, 1, s1, fuel) || r1 is Err);
    let after = eval_m(c1, st, fuel).0;
    if key_index(st.scope.here(), f) is None {
        let obj = ObjectM::Function {
            scope: st.scope.current,
            func: FunctionM { name: f, params: params_m(ps1), block: compile_block_m(b1) },
        };
        lemma_declare_here(st.scope, f, obj);
        assert(after.scope == st.scope.declare(f, obj));
    } else {
        assert(after.scope == st.scope);
    }
    let t0 = MState { stack: Seq::empty(), ..after };
    assert(step_m(c2[0], t0, fuel).1 == Err::<FlowM, ErrM>(ErrM::FunctionDuplicate(f)));
}

/// The program that declares `f() { let x = n; }` and calls it.
pub open spec fn declare_and_call(f: Seq<char>, x: Seq<char>, n: u64) -> Seq<AstM> {
    seq![
        AstM::Function(f, Seq::empty(), seq![AstM::Declare(x, Some(Box::new(AstM::Number(n))))]),
        AstM::FunctionCall(f, Seq::empty()),
    ]
}

/// A variable declared inside a function body is not visible once the call
/// has returned: after declaring `f() { let x = n; }` and calling it, `x`
/// is still undefined where it was undefined before.
pub proof fn law_call_scope_does_not_leak(f: Seq<char>, x: Seq<char>, n: u64, st: MState)
    requires
        st.scope.wf(),
        f != x,
        st.scope.lookup(x) is None,
        key_index(st.scope.here(), f) is None,
    ensures
        ({
            let (s1, r1) = eval_m(compile_block_m(declare_and_call(f, x, n)), st, MAX_DEPTH as nat);
            &&& r1 == Ok::<Option<EvalResultM>, ErrM>(Some(EvalResultM::Value(ValueM::Integer(n))))
            &&& eval_m(compile_block_m(seq![AstM::ID(x)]), s1, MAX_DEPTH as nat).1 == Err::<
                Option<EvalResultM>,
                ErrM,
            >(ErrM::UndefinedReference(x))
        }),
{
    let fuel = MAX_DEPTH as nat;
    let prog = declare_and_call(f, x, n);
    let decl = AstM::Declare(x, Some(Box::new(AstM::Number(n))));
    let fun = AstM::Function(f, Seq::empty(), seq![decl]);
    let call = AstM::FunctionCall(f, Seq::empty());
    // The code of the program.
    lemma_single(decl);
    assert(compile_m(AstM::Number(n)) == seq![InstrM::Push(ValueM::Integer(n))]);
    let body = compile_m(decl);
    assert(body =~= seq![InstrM::Push(ValueM::Integer(n)), InstrM::BinaryOp(OpM::Declare(x))]);
    assert(params_m(Seq::<AstM>::empty()) == Seq::<Seq<char>>::empty());
    assert(compile_args_m(Seq::<AstM>::empty()) == Seq::<Seq<InstrM>>::empty());
    assert(prog.subrange(0, 1) =~= seq![fun]);
    assert(prog.subrange(0, 0) =~= Seq::<AstM>::empty());
    lemma_single(fun);
    assert(compile_block_m(prog) == compile_block_m(seq![fun]) + compile_m(call));
    let code = compile_block_m(prog);
    let ins0 = InstrM::FunctionDeclaration(f, Seq::empty(), body);
    let ins1 = InstrM::FunctionCall(f, Seq::empty());
    assert(code =~= seq![ins0, ins1]);
    // The declaration.
    let func = FunctionM { name: f, params: Seq::empty(), block: body };
    let fobj = ObjectM::Function { scope: st.scope.current, func };
    let d = st.scope.declare(f, fobj);
    lemma_declare_here(st.scope, f, fobj);
    lemma_declare_wf(st.scope, f, fobj);
    let s0 = MState { stack: Seq::empty(), ..st };
    let s1 = MState { scope: d, ..s0 };
    assert(step_m(ins0, s0, fuel) == (s1, Ok::<FlowM, ErrM>(FlowM::Next)));
    // The call.
    assert(eval_args_m(Seq::empty(), 0, s1, (fuel - 1) as nat, Seq::empty()) == (
        s1,
        Ok::<Seq<ValueM>, ErrM>(Seq::empty()),
    ));
    assert(resolve_m(d, f) == Some((f, st.scope.current, func)));
    let e = d.enter(st.scope.current);
    assert(bind_params(e, Seq::empty(), Seq::empty()) == e);
    let c0 = MState { scope: e, ..s1 };
    let c1 = MState { stack: seq![ValueM::Integer(n)], ..c0 };
    assert(Seq::<ValueM>::empty().push(ValueM::Integer(n)) =~= c1.stack);
    let vobj = ObjectM::Value { value: ValueM::Integer(n) };
    let c2 = MState { scope: e.declare(x, vobj), ..c1 };
    assert(step_m(body[0], c0, (fuel - 1) as nat) == (c1, Ok::<FlowM, ErrM>(FlowM::Next)));
    assert(step_m(body[1], c1, (fuel - 1) as nat) == (c2, Ok::<FlowM, ErrM>(FlowM::Next)));
    assert(run_m(body, 0, c0, (fuel - 1) as nat) == run_m(body, 1, c1, (fuel - 1) as nat));
    assert(run_m(body, 1, c1, (fuel - 1) as nat) == run_m(body, 2, c2, (fuel - 1) as nat));
    let back = MState { stack: s1.stack, ..c2 };
    assert(block_m(body, c0, (fuel - 1) as nat) == (back, Ok::<OutcomeM, ErrM>(OutcomeM::Value(ValueM::Integer(n)))));
    let base = d.frames.len();
    let g0 = ScopeM { current: st.scope.current, ..back.scope };
    let s3 = reclaim_m(MState { scope: g0, ..back }, base, Some(ValueM::Integer(n)));
    let g = s3.scope;
    let s2 = MState { stack: seq![ValueM::Integer(n)], ..s3 };
    assert(Seq::<ValueM>::empty().push(ValueM::Integer(n)) =~= s2.stack);
    assert(call_m(f, Seq::empty(), s1, (fuel - 1) as nat) == (s2, Ok::<FlowM, ErrM>(FlowM::Next)));
    assert(step_m(ins1, s1, fuel) == (s2, Ok::<FlowM, ErrM>(FlowM::Next)));
    assert(run_m(code, 0, s0, fuel) == run_m(code, 2, s2, fuel));
    // What the caller's frame sees afterwards, whether or not the call's
    // frame was reclaimed.
    assert(g0.frames.len() == base + 1);
    assert(g.current == st.scope.current && st.scope.current < g.frames.len());
    assert forall|i: int| 0 <= i <= st.scope.current implies #[trigger] g.frames[i] == d.frames[i] by {
        assert(g0.frames[i] == d.frames[i]);
    }
    lemma_lookup_prefix(g.frames, d.frames, st.scope.current, x);
    lemma_declare_other(st.scope, f, fobj, x);
    let fin = eval_m(code, st, fuel).0;
    assert(fin.scope == g);
    law_load_undeclared(x, fin);
}

/// Number literals for each of `args`.
pub open spec fn numbers(args: Seq<u64>) -> Seq<AstM> {
    Seq::new(args.len(), |i: int| AstM::Number(args[i]))
}

/// The code of each literal argument pushes its number.
proof fn lemma_number_args(args: Seq<u64>)
    ensures
        compile_args_m(numbers(args)) == Seq::new(
            args.len(),
            |i: int| seq![InstrM::Push(ValueM::Integer(args[i]))],
        ),
    decreases args.len(),
{
    if args.len() > 0 {
        let front = args.subrange(0, args.len() - 1);
        lemma_number_args(front);
        assert(numbers(args).subrange(0, args.len() - 1) =~= numbers(front));
        assert(compile_m(AstM::Number(args[args.len() - 1])) == seq![
            InstrM::Push(ValueM::Integer(args[args.len() - 1])),
        ]);
        assert(compile_args_m(numbers(args)) =~= Seq::new(
            args.len(),
            |i: int| seq![InstrM::Push(ValueM::Integer(args[i]))],
        ));
    } else {
        assert(compile_args_m(numbers(args)) =~= Seq::new(
            args.len(),
            |i: int| seq![InstrM::Push(ValueM::Integer(args[i]))],
        ));
    }
}

/// Literal arguments evaluate to their numbers and change nothing.
proof fn lemma_eval_number_args(args: Seq<u64>, j: nat, st: MState, fuel: nat, acc: Seq<ValueM>)
    requires
        j <= args.len(),
    ensures
        eval_args_m(
            Seq::new(args.len(), |i: int| seq![InstrM::Push(ValueM::Integer(args[i]))]),
            j,
            st,
            fuel,
            acc,
        ) == (st, Ok::<Seq<ValueM>, ErrM>(acc + Seq::new((args.len() - j) as nat, |i: int| ValueM::Integer(args[j + i])))),
    decreases args.len() - j,
{
    let blocks = Seq::new(args.len(), |i: int| seq![InstrM::Push(ValueM::Integer(args[i]))]);
    if j < args.len() {
        let b = blocks[j as int];
        let v = ValueM::Integer(args[j as int]);
        let s0 = MState { stack: Seq::empty(), ..st };
        let s1 = MState { stack: seq![v], ..st };
        assert(s0.stack.push(v) =~= s1.stack);
        assert(step_m(b[0], s0, fuel) == (s1, Ok::<FlowM, ErrM>(FlowM::Next)));
        assert(run_m(b, 0, s0, fuel) == run_m(b, 1, s1, fuel));
        assert(block_m(b, st, fuel) == (st, Ok::<OutcomeM, ErrM>(OutcomeM::Value(v))));
        lemma_eval_number_args(args, j + 1, st, fuel, acc.push(v));
        assert(acc.push(v) + Seq::new((args.len() - (j + 1)) as nat, |i: int| ValueM::Integer(args[j + 1 + i]))
            =~= acc + Seq::new((args.len() - j) as nat, |i: int| ValueM::Integer(args[j + i])));
    } else {
        assert(acc + Seq::new((args.len() - j) as nat, |i: int| ValueM::Integer(args[j + i])) =~= acc);
    }
}

/// Calling a declared function with a number of arguments other than its
/// number of parameters fails, naming the function, the parameters it
/// expects and the arguments it got.
pub proof fn law_call_arity_mismatch(
    f: Seq<char>,
    ps: Seq<AstM>,
    body: Seq<AstM>,
    args: Seq<u64>,
    st: MState,
)
    requires
        st.scope.wf(),
        key_index(st.scope.here(), f) is None,
        params_m(ps).len() != args.len(),
    ensures
        ({
            let (s1, r1) = eval_m(compile_block_m(seq![AstM::Function(f, ps, body)]), st, MAX_DEPTH as nat);
            &&& r1 == Ok::<Option<EvalResultM>, ErrM>(None)
            &&& eval_m(compile_block_m(seq![AstM::FunctionCall(f, numbers(args))]), s1, MAX_DEPTH as nat).1
                == Err::<Option<EvalResultM>, ErrM>(
                ErrM::FunctionArgumentsMissmatch(f, params_m(ps).len(), args.len()),
            )
        }),
{
    let fuel = MAX_DEPTH as nat;
    let fun = AstM::Function(f, ps, body);
    let call = AstM::FunctionCall(f, numbers(args));
    lemma_single(fun);
    lemma_single(call);
    let func = FunctionM { name: f, params: params_m(ps), block: compile_block_m(body) };
    let fobj = ObjectM::Function { scope: st.scope.current, func };
    let d = st.scope.declare(f, fobj);
    lemma_declare_here(st.scope, f, fobj);
    let s0 = MState { stack: Seq::empty(), ..st };
    let s1 = MState { scope: d, ..s0 };
    let c1 = compile_m(fun);
    assert(step_m(c1[0], s0, fuel) == (s1, Ok::<FlowM, ErrM>(FlowM::Next)));
    assert(run_m(c1, 0, s0, fuel) == run_m(c1, 1, s1, fuel));
    let after = MState { stack: st.stack, ..s1 };
    assert(eval_m(c1, st, fuel) == (after, Ok::<Option<EvalResultM>, ErrM>(None)));
    lemma_number_args(args);
    let blocks = Seq::new(args.len(), |i: int| seq![InstrM::Push(ValueM::Integer(args[i]))]);
    let t0 = MState { stack: Seq::empty(), ..after };
    lemma_eval_number_args(args, 0, t0, (fuel - 1) as nat, Seq::empty());
    let vals = Seq::<ValueM>::empty() + Seq::new(args.len(), |i: int| ValueM::Integer(args[0 + i]));
    assert(resolve_m(d, f) == Some((f, st.scope.current, func)));
    let c2 = compile_m(call);
    assert(c2 == seq![InstrM::FunctionCall(f, blocks)]);
    assert(step_m(c2[0], t0, fuel).1 == call_m(f, vals, t0, (fuel - 1) as nat).1);
}

/// A function that returns a variable reads it through the frame the
/// function was declared in, as that frame stands at the time of the call,
/// whichever frame the call is made from.
pub proof fn law_closure_reads_defining_frame(
    name: Seq<char>,
    a: Seq<char>,
    v: ValueM,
    st: MState,
    fuel: nat,
)
    requires
        st.scope.wf(),
        fuel >= 1,
        resolve_m(st.scope, name) matches Some((_, d, func)) && func.params.len() == 0 && func.block
            == seq![InstrM::Return(seq![InstrM::Load(a)])] && d < st.scope.frames.len()
            && lookup_from(st.scope.frames, d, a) == Some(ObjectM::Value { value: v }),
    ensures
        call_m(name, Seq::empty(), st, fuel).1 == Ok::<FlowM, ErrM>(FlowM::Next),
        call_m(name, Seq::empty(), st, fuel).0.stack == st.stack.push(v),
{
    let (_, d, func) = resolve_m(st.scope, name).unwrap();
    let e = st.scope.enter(d);
    assert(bind_params(e, func.params, Seq::empty()) == e);
    let s1 = MState { scope: e, ..st };
    let body = seq![InstrM::Load(a)];
    // Inside the call, the new frame binds nothing, so the lookup goes on
    // to frame `d`, which entering left as it was.
    assert forall|i: int| 0 <= i <= d implies #[trigger] e.frames[i] == st.scope.frames[i] by {}
    lemma_lookup_prefix(e.frames, st.scope.frames, d, a);
    assert(e.frames[st.scope.frames.len() as int].store.len() == 0);
    assert(e.lookup(a) == lookup_from(e.frames, d, a));
    let t0 = MState { stack: Seq::empty(), ..s1 };
    let t1 = MState { stack: seq![v], ..s1 };
    assert(Seq::<ValueM>::empty().push(v) =~= t1.stack);
    assert(step_m(body[0], t0, (fuel - 1) as nat) == (t1, Ok::<FlowM, ErrM>(FlowM::Next)));
    assert(run_m(body, 0, t0, (fuel - 1) as nat) == run_m(body, 1, t1, (fuel - 1) as nat));
    let back = MState { stack: st.stack, ..t1 };
    assert(block_m(body, s1, (fuel - 1) as nat) == (back, Ok::<OutcomeM, ErrM>(OutcomeM::Value(v))));
    let u0 = MState { stack: Seq::empty(), ..s1 };
    let ret = func.block;
    assert(step_m(ret[0], u0, fuel) == (MState { stack: Seq::empty(), ..back }, Ok::<FlowM, ErrM>(FlowM::Returned(Some(v)))));
    assert(run_m(ret, 0, u0, fuel).1 == Ok::<FlowM, ErrM>(FlowM::Returned(Some(v))));
}

/// The text `a+b;` with both numbers in decimal.
pub open spec fn sum_text(a: u64, b: u64) -> Seq<char> {
    decimal_m(a as nat) + seq!['+'] + decimal_m(b as nat) + seq![';']
}

proof fn lemma_digit_char(d: nat)
    requires
        d < 10,
    ensures
        is_digit(('0' as u8 + d as u8) as char),
        digit_val(('0' as u8 + d as u8) as char) == d,
{
}

/// Decimal digits are digits, at least one of them, and they write `n`.
proof fn lemma_decimal_digits(n: nat)
    ensures
        decimal_m(n).len() >= 1,
        forall|j: int| 0 <= j < decimal_m(n).len() ==> is_digit(#[trigger] decimal_m(n)[j]),
        digits_val(decimal_m(n), 0, decimal_m(n).len()) == n,
    decreases n,
{
    let d = decimal_m(n);
    if n >= 10 {
        lemma_decimal_digits(n / 10);
        lemma_digit_char(n % 10);
        let front = decimal_m(n / 10);
        assert(d.subrange(0, d.len() - 1) =~= front);
        lemma_digits_val_same(d, front, 0, 0, front.len());
        assert(d.len() == front.len() + 1);
        assert(d[d.len() - 1] == ('0' as u8 + (n % 10) as u8) as char);
        assert(digits_val(d, 0, d.len()) == digits_val(d, 0, front.len()) * 10 + digit_val(
            d[d.len() - 1],
        ));
        assert(n == (n / 10) * 10 + n % 10);
    } else {
        lemma_digit_char(n);
        assert(d[0] == ('0' as u8 + n as u8) as char);
        assert(digits_val(d, 0, 1) == digits_val(d, 0, 0) * 10 + digit_val(d[0]));
    }
}

/// The value of a run of digits depends only on those digits.
proof fn lemma_digits_val_same(c1: Seq<char>, c2: Seq<char>, i1: nat, i2: nat, k: nat)
    requires
        i1 + k <= c1.len(),
        i2 + k <= c2.len(),
        forall|t: int| 0 <= t < k ==> #[trigger] c1[i1 + t] == c2[i2 + t],
    ensures
        digits_val(c1, i1, i1 + k) == digits_val(c2, i2, i2 + k),
    decreases k,
{
    if k > 0 {
        lemma_digits_val_same(c1, c2, i1, i2, (k - 1) as nat);
        assert(c1[i1 + k - 1] == c2[i2 + k - 1]);
    }
}

/// A run of `k` digits at `i`, followed by a non-digit or the end, ends at `i + k`.
proof fn lemma_digits_end_at(cs: Seq<char>, i: nat, k: nat)
    requires
        i + k <= cs.len(),
        forall|t: int| i <= t < i + k ==> is_digit(#[trigger] cs[t]),
        i + k == cs.len() || !is_digit(cs[(i + k) as int]),
    ensures
        digits_end(cs, i) == i + k,
    decreases k,
{
    if k > 0 {
        lemma_digits_end_at(cs, i + 1, (k - 1) as nat);
    }
}

/// The tokens of `a+b;`.
pub open spec fn sum_tokens(a: u64, b: u64) -> Seq<TokM> {
    seq![TokM::Num(a), TokM::Plus, TokM::Num(b), TokM::Semi]
}

proof fn lemma_lex_sum_text(a: u64, b: u64)
    ensures
        lex_m(sum_text(a, b), 0) == Some(sum_tokens(a, b)),
{
    let da = decimal_m(a as nat);
    let db = decimal_m(b as nat);
    let t = sum_text(a, b);
    let la = da.len();
    let lb = db.len();
    lemma_decimal_digits(a as nat);
    lemma_decimal_digits(b as nat);
    assert(t.len() == la + lb + 2);
    assert forall|j: int| 0 <= j < la implies #[trigger] t[j] == da[j] by {}
    assert(t[la as int] == '+');
    assert forall|j: int| 0 <= j < lb implies #[trigger] t[la + 1 + j] == db[j] by {}
    assert(t[(la + 1 + lb) as int] == ';');
    // The first number.
    assert forall|j: int| 0 <= j < la implies is_digit(#[trigger] t[j]) by {
        assert(t[j] == da[j]);
    }
    lemma_digits_end_at(t, 0, la);
    assert forall|j: int| 0 <= j < la implies #[trigger] t[0 + j] == da[0 + j] by {
        assert(t[j] == da[j]);
    }
    lemma_digits_val_same(t, da, 0, 0, la);
    assert(token_at(t, 0) == Some((TokM::Num(a), la)));
    // The plus sign.
    assert(symbol_m(t, la) == Some((TokM::Plus, 1nat)));
    assert(token_at(t, la) == Some((TokM::Plus, la + 1)));
    // The second number.
    let o = la + 1;
    assert forall|j: int| o <= j < o + lb implies is_digit(#[trigger] t[j]) by {
        assert(t[la + 1 + (j - o)] == db[j - o]);
    }
    lemma_digits_end_at(t, o, lb);
    assert forall|j: int| 0 <= j < lb implies #[trigger] t[o + j] == db[0 + j] by {
        assert(t[la + 1 + j] == db[j]);
    }
    lemma_digits_val_same(t, db, o, 0, lb);
    assert(token_at(t, o) == Some((TokM::Num(b), o + lb)));
    // The semicolon, and the end.
    assert(symbol_m(t, o + lb) == Some((TokM::Semi, 1nat)));
    assert(token_at(t, o + lb) == Some((TokM::Semi, o + lb + 1)));
    assert(lex_m(t, o + lb + 1) == Some(Seq::<TokM>::empty()));
    assert(lex_m(t, o + lb) == Some(seq![TokM::Semi] + Seq::<TokM>::empty()));
    assert(lex_m(t, o) == Some(seq![TokM::Num(b)] + (seq![TokM::Semi] + Seq::<TokM>::empty())));
    assert(lex_m(t, la) == Some(seq![TokM::Plus] + (seq![TokM::Num(b)] + (seq![TokM::Semi]
        + Seq::<TokM>::empty()))));
    assert(seq![TokM::Num(a)] + (seq![TokM::Plus] + (seq![TokM::Num(b)] + (seq![TokM::Semi]
        + Seq::<TokM>::empty()))) =~= sum_tokens(a, b));
}

proof fn lemma_parse_sum_tokens(a: u64, b: u64)
    ensures
        program_m(sum_tokens(a, b)) == Some(seq![sum_expr(a, b)]),
{
    let t = sum_tokens(a, b);
    let na = AstM::Number(a);
    let nb = AstM::Number(b);
    let sum = sum_expr(a, b);
    assert(at(t, 0) == Some(TokM::Num(a)));
    assert(at(t, 1) == Some(TokM::Plus));
    assert(at(t, 2) == Some(TokM::Num(b)));
    assert(at(t, 3) == Some(TokM::Semi));
    assert(at(t, 4) is None);
    assert(primary_m(t, 0) == Some((na, 1nat)));
    assert(rest_m(t, 1, 5, na) == Some((na, 1nat)));
    assert(bin_m(t, 0, 5) == Some((na, 1nat)));
    assert(primary_m(t, 2) == Some((nb, 3nat)));
    assert(rest_m(t, 3, 5, nb) == Some((nb, 3nat)));
    assert(bin_m(t, 2, 5) == Some((nb, 3nat)));
    assert(mk_m(BinKind::Add, na, nb) == sum);
    assert(rest_m(t, 3, 4, sum) == Some((sum, 3nat)));
    assert(rest_m(t, 1, 4, na) == Some((sum, 3nat)));
    assert(bin_m(t, 0, 4) == Some((sum, 3nat)));
    assert(rest_m(t, 3, 3, sum) == Some((sum, 3nat)));
    assert(bin_m(t, 0, 3) == Some((sum, 3nat)));
    assert(rest_m(t, 3, 2, sum) == Some((sum, 3nat)));
    assert(bin_m(t, 0, 2) == Some((sum, 3nat)));
    assert(rest_m(t, 3, 1, sum) == Some((sum, 3nat)));
    assert(bin_m(t, 0, 1) == Some((sum, 3nat)));
    assert(rest_m(t, 3, 0, sum) == Some((sum, 3nat)));
    assert(bin_m(t, 0, 0) == Some((sum, 3nat)));
    assert(expr_m(t, 0) == Some((sum, 3nat)));
    assert(end_m(t, 3) == Some(4nat));
    assert(simple_m(t, 0) == Some((sum, 4nat)));
    assert(stmt_m(t, 0) == Some((sum, 4nat)));
    assert(stmts_m(t, 4, seq![sum]) == Some((seq![sum], 4nat)));
    assert(Seq::<AstM>::empty().push(sum) =~= seq![sum]);
    assert(stmts_m(t, 0, Seq::empty()) == Some((seq![sum], 4nat)));
}

/// Evaluating the text `a+b;`, with `a` and `b` written in decimal, yields
/// their sum when it fits in 64 bits and a numeric overflow error when it
/// does not, in any state.
pub proof fn law_add_text(a: u64, b: u64, st: MState)
    ensures
        parse_m(sum_text(a, b)) == Some(seq![sum_expr(a, b)]),
        eval_m(compile_block_m(parse_m(sum_text(a, b)).unwrap()), st, MAX_DEPTH as nat).1 == if a
            + b <= u64::MAX {
            Ok::<Option<EvalResultM>, ErrM>(Some(EvalResultM::Value(ValueM::Integer((a + b) as u64))))
        } else {
            Err::<Option<EvalResultM>, ErrM>(ErrM::Numeric(overflow_msg()))
        },
{
    lemma_lex_sum_text(a, b);
    lemma_parse_sum_tokens(a, b);
    law_add_checked(a, b, st);
}

} // verus!
