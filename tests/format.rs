use yaiwr::{
    err::InterpError,
    instruction::{EvalResult, StackValue},
    scope::Scope,
    YIWR,
};

#[test]
fn multistatments_single_line() {
    let yaiwr = &mut YIWR::new();
    let mut scope = Scope::new();
    let ast = yaiwr.from_str("let _a = 2; let _b = 4; (_a + _b)").unwrap();
    let bytecode = YIWR::ast_to_bytecode(ast);
    let result = yaiwr.eval(&bytecode, &mut scope).unwrap();
    assert_eq!(result.unwrap(), EvalResult::Value(StackValue::Integer(6)));
}

const MULTILINE_PROGRAM: &str = "  
            fun f3(){ 
                println(2);
            }  
            fun f2(_a, _b){ 
                f3();
                return _a + _b;
            }
            fun f1(_a, _b){ 
                return f2(_a, 10); + _b;
            }
        ";

/// The program's last line holds `+ _b;`, which is no statement of the
/// language, so the program does not parse. The value 13 that an earlier
/// version of the language gave for `f1(1,2)` does not follow from the
/// semantics of `return`, which ends `f1` with `f2(1, 10)`, that is 11; the
/// second half runs the program without the stray statement and gets 11.
#[test]
fn multiline_function_calls() {
    let yaiwr = &mut YIWR::new();
    let mut scope = Scope::new();
    assert!(matches!(yaiwr.from_str(MULTILINE_PROGRAM), Err(InterpError::ParseError(..))));

    let program = MULTILINE_PROGRAM.replace("f2(_a, 10); + _b;", "f2(_a, 10);");
    let ast = yaiwr.from_str(&program).unwrap();
    yaiwr.eval(&YIWR::ast_to_bytecode(ast), &mut scope).unwrap();
    let ast = yaiwr.from_str("f1(1,2);").unwrap();
    let result = yaiwr.eval(&YIWR::ast_to_bytecode(ast), &mut scope).unwrap();
    assert_eq!(result.unwrap(), EvalResult::Value(StackValue::Integer(11)));
    assert_eq!(yaiwr.take_output(), vec![StackValue::Integer(2)]);
}
