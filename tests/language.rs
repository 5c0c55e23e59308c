use yaiwr::{
    err::InterpError,
    instruction::{BinaryOp, EvalResult, Instruction, JumpInstruction, StackValue},
    scope::Scope,
    YIWR,
};

fn run(yaiwr: &mut YIWR, scope: &mut Scope, input: &str) -> Result<Option<EvalResult>, InterpError> {
    let ast = yaiwr.from_str(input)?;
    let bytecode = YIWR::ast_to_bytecode(ast);
    yaiwr.eval(&bytecode, scope)
}

fn run_fresh(input: &str) -> Result<Option<EvalResult>, InterpError> {
    run(&mut YIWR::new(), &mut Scope::new(), input)
}

fn integer(n: u64) -> Result<Option<EvalResult>, InterpError> {
    Ok(Some(EvalResult::Value(StackValue::Integer(n))))
}

#[test]
fn sum_of_two_literals() {
    assert_eq!(run_fresh("40 + 2;"), integer(42));
    assert_eq!(run_fresh(&format!("{} + {};", u64::MAX - 5, 5)), integer(u64::MAX));
    assert_eq!(run_fresh("0 + 0"), integer(0));
}

#[test]
fn sum_overflow_is_numeric_error() {
    assert_eq!(
        run_fresh(&format!("{} + {};", u64::MAX - 5, 6)),
        Err(InterpError::Numeric("overflowed".to_string()))
    );
    assert_eq!(
        run_fresh(&format!("{} * {};", u64::MAX / 2 + 1, 2)),
        Err(InterpError::Numeric("overflowed".to_string()))
    );
}

#[test]
fn declared_variable_is_loaded() {
    let yaiwr = &mut YIWR::new();
    let mut scope = Scope::new();
    assert_eq!(run(yaiwr, &mut scope, "let x = 5;"), integer(5));
    assert_eq!(run(yaiwr, &mut scope, "x"), integer(5));
}

#[test]
fn undeclared_variable_is_undefined_reference() {
    assert_eq!(run_fresh("y;"), Err(InterpError::UndefinedReference("y".to_string())));
}

#[test]
fn function_add_and_arity_mismatch() {
    let yaiwr = &mut YIWR::new();
    let mut scope = Scope::new();
    assert_eq!(run(yaiwr, &mut scope, "fun add(a,b){ return a+b; }"), Ok(None));
    assert_eq!(run(yaiwr, &mut scope, "add(1,2)"), integer(3));
    assert_eq!(
        run(yaiwr, &mut scope, "add(1)"),
        Err(InterpError::FunctionArgumentsMissmatch("add".to_string(), 2, 1))
    );
    assert_eq!(
        run(yaiwr, &mut scope, "add(1, 2, 3)"),
        Err(InterpError::FunctionArgumentsMissmatch("add".to_string(), 2, 3))
    );
}

#[test]
fn function_locals_do_not_leak() {
    let yaiwr = &mut YIWR::new();
    let mut scope = Scope::new();
    assert_eq!(run(yaiwr, &mut scope, "fun f(){ let x = 7; } f();"), integer(7));
    assert_eq!(run(yaiwr, &mut scope, "x;"), Err(InterpError::UndefinedReference("x".to_string())));
}

#[test]
fn closure_sees_defining_scope() {
    assert_eq!(
        run_fresh("let a=1; fun f(){ return a; } fun g(){ return f() + a; } g();"),
        integer(2)
    );
}

#[test]
fn closure_does_not_see_caller_locals() {
    assert_eq!(
        run_fresh("fun f(){ return b; } fun g(){ let b = 3; return f(); } g();"),
        Err(InterpError::UndefinedReference("b".to_string()))
    );
}

#[test]
fn assignment_in_function_changes_outer_variable() {
    let yaiwr = &mut YIWR::new();
    let mut scope = Scope::new();
    run(yaiwr, &mut scope, "let c = 1; fun bump(){ c = c + 1; } bump(); bump();").unwrap();
    assert_eq!(run(yaiwr, &mut scope, "c"), integer(3));
}

#[test]
fn returned_closure_keeps_its_frame() {
    assert_eq!(
        run_fresh("fun make(v){ fun get(){ return v; } return get; } let h = make(9); h();"),
        integer(9)
    );
}

#[test]
fn function_redeclaration_is_duplicate() {
    let yaiwr = &mut YIWR::new();
    let mut scope = Scope::new();
    run(yaiwr, &mut scope, "fun f(){ return 1; }").unwrap();
    assert_eq!(
        run(yaiwr, &mut scope, "fun f(){ return 2; }"),
        Err(InterpError::FunctionDuplicate("f".to_string()))
    );
    assert_eq!(run(yaiwr, &mut scope, "f()"), integer(1));
}

#[test]
fn conditional_runs_only_then_branch() {
    let yaiwr = &mut YIWR::new();
    let mut scope = Scope::new();
    let result = run(yaiwr, &mut scope, "if (5 > 1) { println(1); } else { println(2); }");
    assert_eq!(result, Ok(None));
    assert_eq!(yaiwr.take_output(), vec![StackValue::Integer(1)]);
}

#[test]
fn conditional_runs_else_branch() {
    let yaiwr = &mut YIWR::new();
    let mut scope = Scope::new();
    run(yaiwr, &mut scope, "if (1 > 5) { println(1); } else { println(2); }").unwrap();
    assert_eq!(yaiwr.take_output(), vec![StackValue::Integer(2)]);
    assert_eq!(yaiwr.take_output(), vec![]);
}

#[test]
fn return_leaves_nested_conditionals() {
    assert_eq!(
        run_fresh("fun f(n){ if (n < 10) { if (true) { return 1; } println(5); } return 2; } f(3);"),
        integer(1)
    );
    assert_eq!(run_fresh("fun f(n){ if (n < 10) { return 1; } return 2; } f(30);"), integer(2));
}

#[test]
fn top_level_return_is_a_jump() {
    assert_eq!(run_fresh("return 5;"), Ok(Some(EvalResult::Jump(JumpInstruction::Return))));
}

#[test]
fn comparisons_and_logic() {
    assert_eq!(
        run_fresh("1 < 2 && 3 > 2"),
        Ok(Some(EvalResult::Value(StackValue::Boolean(true))))
    );
    assert_eq!(
        run_fresh("1 == 2 || false"),
        Ok(Some(EvalResult::Value(StackValue::Boolean(false))))
    );
    assert_eq!(
        run_fresh("true != false"),
        Ok(Some(EvalResult::Value(StackValue::Boolean(true))))
    );
}

#[test]
fn mixed_operands_are_type_errors() {
    assert_eq!(
        run_fresh("1 + true"),
        Err(InterpError::EvalError("operand types do not fit the operator".to_string()))
    );
    assert_eq!(
        run_fresh("true && 1"),
        Err(InterpError::EvalError("operand types do not fit the operator".to_string()))
    );
}

#[test]
fn condition_must_be_boolean() {
    assert_eq!(
        run_fresh("if (1) { 2; }"),
        Err(InterpError::EvalError("condition is not a boolean".to_string()))
    );
}

#[test]
fn argument_without_value_is_an_error() {
    assert_eq!(
        run_fresh("fun f(a){ return a; } fun g(){ } f(g())"),
        Err(InterpError::EvalError("function argument yields no value".to_string()))
    );
}

#[test]
fn assignment_to_undeclared_is_an_error() {
    assert_eq!(run_fresh("z = 1;"), Err(InterpError::UndeclaredVariable("z".to_string())));
}

#[test]
fn call_of_unknown_function() {
    assert_eq!(run_fresh("nope(1);"), Err(InterpError::UndefinedFunction("nope".to_string())));
}

#[test]
fn println_on_empty_stack() {
    let yaiwr = &mut YIWR::new();
    let mut scope = Scope::new();
    assert_eq!(yaiwr.eval(&vec![Instruction::PrintLn], &mut scope), Err(InterpError::EmptyStack));
    assert_eq!(
        yaiwr.eval(&vec![Instruction::BinaryOp { op: BinaryOp::Add }], &mut scope),
        Err(InterpError::EmptyStack)
    );
}

#[test]
fn recursion_counts_up() {
    assert_eq!(
        run_fresh("fun f(n){ if (n < 20) { return f(n + 1); } return n; } f(0);"),
        integer(20)
    );
}

#[test]
fn parse_errors() {
    let yaiwr = YIWR::new();
    assert!(matches!(yaiwr.from_str("let = 5;"), Err(InterpError::ParseError(..))));
    assert!(matches!(yaiwr.from_str("1 + ;"), Err(InterpError::ParseError(..))));
    assert!(matches!(yaiwr.from_str("99999999999999999999"), Err(InterpError::ParseError(..))));
    assert!(matches!(yaiwr.from_str("1 # 2"), Err(InterpError::ParseError(..))));
    assert!(matches!(yaiwr.from_str("}"), Err(InterpError::ParseError(..))));
}

#[test]
fn values_print_as_text() {
    assert_eq!(StackValue::Integer(1984).to_text(), "1984");
    assert_eq!(StackValue::Integer(0).to_text(), "0");
    assert_eq!(StackValue::Boolean(true).to_text(), "true");
    assert_eq!(StackValue::Boolean(false).to_text(), "false");
    let yaiwr = &mut YIWR::new();
    let mut scope = Scope::new();
    run(yaiwr, &mut scope, "fun f(){ return 1; }").unwrap();
    match run(yaiwr, &mut scope, "f") {
        Ok(Some(EvalResult::Value(v))) => assert_eq!(v.to_text(), "function f"),
        other => panic!("unexpected {:?}", other),
    }
}

#[test]
fn value_accessors() {
    assert_eq!(StackValue::Integer(3).as_int(), Ok(3));
    assert_eq!(StackValue::Boolean(true).as_bool(), Ok(true));
    assert!(StackValue::Boolean(true).as_int().is_err());
    assert!(StackValue::Integer(1).as_bool().is_err());
    assert!(StackValue::Integer(1).is_same_type(&StackValue::Integer(2)));
    assert!(!StackValue::Integer(1).is_same_type(&StackValue::Boolean(true)));
}

#[test]
fn error_kind_names() {
    assert_eq!(InterpError::EmptyStack.description(), "EmptyStack");
    assert_eq!(InterpError::UndefinedReference("a".to_string()).description(), "VariableNotFound");
}

#[test]
fn stack_push_and_pop() {
    let yaiwr = &mut YIWR::new();
    assert_eq!(yaiwr.stack_pop(), Err(InterpError::EmptyStack));
    yaiwr.stack_push(StackValue::Integer(4));
    assert_eq!(yaiwr.stack_pop(), Ok(StackValue::Integer(4)));
}

#[test]
fn instruction_names() {
    assert_eq!(BinaryOp::Add.name(), "Add");
    assert_eq!(BinaryOp::Declare { name: "x".to_string() }.name(), "Declare");
    assert_eq!(Instruction::BinaryOp { op: BinaryOp::Mul }.name(), "BinaryOp(Mul)");
    assert_eq!(Instruction::PrintLn.name(), "PrintLn");
}

#[test]
fn same_scope_redeclaration_of_variable_overwrites() {
    let yaiwr = &mut YIWR::new();
    let mut scope = Scope::new();
    run(yaiwr, &mut scope, "let v = 1; let v = 2;").unwrap();
    assert_eq!(run(yaiwr, &mut scope, "v"), integer(2));
    assert_eq!(scope.get_store_len(), 1);
}

#[test]
fn error_messages() {
    assert_eq!(
        InterpError::FunctionArgumentsMissmatch("add".to_string(), 2, 13).message(),
        "Unexpected number of function arguments. Function 'add' expected 2 but got 13 arguments"
    );
    assert_eq!(
        InterpError::UndefinedReference("x".to_string()).message(),
        "Undefined reference 'x'!"
    );
    assert_eq!(
        InterpError::ProgramFileNotFound("imaginary-file.yaiwr".to_string()).message(),
        "Program file: 'imaginary-file.yaiwr' cannot be found!"
    );
    assert_eq!(InterpError::EmptyStack.message(), "Cannot pop from empty stack!");
}

#[test]
fn function_values_compare_by_binding() {
    let yaiwr = &mut YIWR::new();
    let mut scope = Scope::new();
    run(yaiwr, &mut scope, "fun f(){ return 1; } fun g(){ return 1; } let h = f;").unwrap();
    let yes = Ok(Some(EvalResult::Value(StackValue::Boolean(true))));
    let no = Ok(Some(EvalResult::Value(StackValue::Boolean(false))));
    assert_eq!(run(yaiwr, &mut scope, "f == f"), yes);
    assert_eq!(run(yaiwr, &mut scope, "h == f"), yes);
    assert_eq!(run(yaiwr, &mut scope, "f == g"), no);
    assert_eq!(run(yaiwr, &mut scope, "f != g"), yes);
    assert_eq!(run(yaiwr, &mut scope, "f != f"), no);
    assert_eq!(
        run(yaiwr, &mut scope, "f < g"),
        Err(InterpError::EvalError("operand types do not fit the operator".to_string()))
    );
    assert_eq!(
        run(yaiwr, &mut scope, "f == 1"),
        Err(InterpError::EvalError("operand types do not fit the operator".to_string()))
    );
}

#[test]
fn declaration_without_value() {
    let yaiwr = &mut YIWR::new();
    let mut scope = Scope::new();
    assert_eq!(run(yaiwr, &mut scope, "let u;"), Ok(None));
    assert_eq!(run(yaiwr, &mut scope, "u"), Err(InterpError::UndefinedReference("u".to_string())));
    assert_eq!(run(yaiwr, &mut scope, "u = 4; u"), integer(4));
}

#[test]
fn call_frames_are_reclaimed_unless_captured() {
    let yaiwr = &mut YIWR::new();
    let mut scope = Scope::new();
    run(yaiwr, &mut scope, "fun f(a){ let x = a + 1; return x; } f(1); f(2);").unwrap();
    assert_eq!(scope.frame_count(), 1);
    run(yaiwr, &mut scope, "fun make(v){ fun get(){ return v; } return get; } let h = make(9);")
        .unwrap();
    assert_eq!(scope.frame_count(), 2);
    assert_eq!(run(yaiwr, &mut scope, "h()"), integer(9));
    assert_eq!(scope.frame_count(), 2);
    run(yaiwr, &mut scope, "let k = 0; fun keep(){ fun inner(){ return 5; } k = inner; } keep();")
        .unwrap();
    assert_eq!(scope.frame_count(), 3);
    assert_eq!(run(yaiwr, &mut scope, "k()"), integer(5));
}
