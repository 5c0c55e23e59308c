use yaiwr::{
    instruction::{BinaryOp, Instruction, StackValue},
    scope::Scope,
    YIWR,
};

#[test]
fn plus_add_bc() {
    let yaiwr = &mut YIWR::new();
    let ast = yaiwr.from_str("1+2").unwrap();
    let bytecode = YIWR::ast_to_bytecode(ast);
    match bytecode.as_slice() {
        [first, second, third] => {
            assert_eq!(first, &Instruction::Push { value: StackValue::Integer(1) });
            assert_eq!(second, &Instruction::Push { value: StackValue::Integer(2) });
            assert_eq!(third, &Instruction::BinaryOp { op: BinaryOp::Add });
        }
        _ => panic!("expected bytecodes to be not empty!"),
    }
}

#[test]
#[should_panic(expected = "overflowed")]
fn plus_add_overflow_max_u64() {
    let yaiwr = &mut YIWR::new();
    let input = format!("{}+{}", u64::MAX, 1);
    let ast = yaiwr.from_str(input.as_str()).unwrap();
    let bytecode = YIWR::ast_to_bytecode(ast);
    yaiwr.eval(&bytecode, &mut Scope::new()).unwrap();
}

#[test]
fn plus_add_no_overflow() {
    let yaiwr = &mut YIWR::new();
    let input = format!("{}+{}", u64::MAX - 1, 1);
    let ast = yaiwr.from_str(input.as_str()).unwrap();
    let bytecode = YIWR::ast_to_bytecode(ast);
    yaiwr.eval(&bytecode, &mut Scope::new()).unwrap();
}
