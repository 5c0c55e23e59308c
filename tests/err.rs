use yaiwr::{err::InterpError, YIWR};

#[test]
fn eval_error() {
    let c = YIWR::new();
    let parsing_err = c.from_str("invalid input").err().unwrap();
    assert!(matches!(parsing_err, InterpError::ParseError(..)));
}
