use yaiwr::{
    instruction::{BinaryOp, Instruction, StackValue},
    YIWR,
};

#[test]
fn bytecode() {
    let ast = YIWR::new().from_str("1*2").unwrap();
    let bytecode = &mut vec![];
    for node in ast {
        yaiwr::bytecode::to_bytecode(node, bytecode);
    }
    match bytecode.as_slice() {
        [first, second, third] => {
            assert_eq!(first, &Instruction::Push { value: StackValue::Integer(1) });
            assert_eq!(second, &Instruction::Push { value: StackValue::Integer(2) });
            assert_eq!(third, &Instruction::BinaryOp { op: BinaryOp::Mul });
        }
        _ => panic!("expected bytecodes to be not empty!"),
    }
}

#[test]
fn bytecode_add_no_overflow() {
    let input = format!("{}+{}", u64::MAX - 1, 1);
    YIWR::eval_input(input).unwrap();
}

#[test]
fn bytecode_mul_no_overflow() {
    let input = format!("{}*{}", u64::MAX, 1);
    YIWR::eval_input(input).unwrap();
}

#[test]
#[should_panic(expected = "overflowed")]
fn bytecode_add_overflow_max_u64() {
    let input = format!("{}+{}", u64::MAX, 1);
    YIWR::eval_input(input).unwrap();
}

#[test]
#[should_panic(expected = "overflowed")]
fn bytecode_mul_overflow() {
    let input = format!("{}*{}", u64::MAX, 2);
    YIWR::eval_input(input).unwrap();
}
