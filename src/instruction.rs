use vstd::prelude::*;

use crate::model::{
    args_m, function_m, instr_m, instrs_m, lemma_args_m, lemma_instrs_m, lemma_instrs_m_pointwise,
    names_m, object_m, op_m, value_m, value_refs, object_refs, block_refs, args_refs, instr_refs,
};
use vstd::string::StringExecFns;

use crate::err::{ErrM, InterpError};
use crate::model::{InstrM, OpM, ValueM};
use crate::scope::{Function, Object};

verus! {

/// A value on the operand stack.
#[derive(Debug, PartialEq)]
pub enum StackValue {
    Integer(u64),
    Function(String, Box<Object>),
    Boolean(bool),
}

/// The one control signal a block can raise.
#[derive(Debug, Clone, Copy, PartialEq, Eq)]
pub enum JumpInstruction {
    Return,
}

/// What evaluating a block hands back.
#[derive(Debug, PartialEq)]
pub enum EvalResult {
    Value(StackValue),
    Jump(JumpInstruction),
}

/// The operators that consume the top of the stack.
#[derive(Debug, PartialEq)]
pub enum BinaryOp {
    LessThan,
    GreaterThan,
    Add,
    Mul,
    Equal,
    NotEqual,
    LogicalAnd,
    LogicalOr,
    Assign { name: String },
    Declare { name: String },
}

/// One bytecode instruction. Nested blocks are whole instruction sequences.
#[derive(Debug, PartialEq)]
pub enum Instruction {
    BinaryOp { op: BinaryOp },
    Push { value: StackValue },
    PrintLn,
    Load { id: String },
    Return { block: Vec<Instruction> },
    FunctionDeclaration { name: String, params: Vec<String>, block: Vec<Instruction> },
    FunctionCall { id: String, args: Vec<Vec<Instruction>> },
    Conditional {
        condition: Vec<Instruction>,
        block: Vec<Instruction>,
        alternative: Option<Vec<Instruction>>,
    },
}

/// Deep copy of a value.
pub fn copy_value(v: &StackValue) -> (r: StackValue)
    ensures
        value_m(r) == value_m(*v),
    decreases v,
{
    match v {
        StackValue::Integer(n) => StackValue::Integer(*n),
        StackValue::Boolean(b) => StackValue::Boolean(*b),
        StackValue::Function(name, obj) => StackValue::Function(
            name.clone(),
            Box::new(copy_object(&**obj)),
        ),
    }
}

/// Deep copy of a binding.
pub fn copy_object(o: &Object) -> (r: Object)
    ensures
        object_m(r) == object_m(*o),
    decreases o,
{
    match o {
        Object::Function { scope, func } => Object::Function {
            scope: *scope,
            func: copy_function(func),
        },
        Object::Value { value } => Object::Value { value: copy_value(value) },
        Object::Uninitialized => Object::Uninitialized,
    }
}

/// Deep copy of a function.
pub fn copy_function(f: &Function) -> (r: Function)
    ensures
        function_m(r) == function_m(*f),
    decreases f,
{
    let ps = f.params.clone();
    assert(names_m(ps@) =~= names_m(f.params@));
    Function { name: f.name.clone(), params: ps, block: copy_block(&f.block) }
}

/// Deep copy of an operator.
pub fn copy_op(op: &BinaryOp) -> (r: BinaryOp)
    ensures
        op_m(r) == op_m(*op),
{
    match op {
        BinaryOp::LessThan => BinaryOp::LessThan,
        BinaryOp::GreaterThan => BinaryOp::GreaterThan,
        BinaryOp::Add => BinaryOp::Add,
        BinaryOp::Mul => BinaryOp::Mul,
        BinaryOp::Equal => BinaryOp::Equal,
        BinaryOp::NotEqual => BinaryOp::NotEqual,
        BinaryOp::LogicalAnd => BinaryOp::LogicalAnd,
        BinaryOp::LogicalOr => BinaryOp::LogicalOr,
        BinaryOp::Assign { name } => BinaryOp::Assign { name: name.clone() },
        BinaryOp::Declare { name } => BinaryOp::Declare { name: name.clone() },
    }
}

/// Deep copy of a block.
pub fn copy_block(b: &Vec<Instruction>) -> (r: Vec<Instruction>)
    ensures
        instrs_m(r@) == instrs_m(b@),
    decreases b,
{
    let mut r: Vec<Instruction> = Vec::new();
    let mut k: usize = 0;
    while k < b.len()
        invariant
            k <= b@.len(),
            r@.len() == k,
            forall|j: int| 0 <= j < k ==> instr_m(#[trigger] r@[j]) == instr_m(b@[j]),
        decreases b@.len() - k,
    {
        assert(decreases_to!(b => b@[k as int]));
        r.push(copy_instr(&b[k]));
        k += 1;
    }
    proof {
        lemma_instrs_m_pointwise(r@, b@);
    }
    r
}

/// Deep copy of the argument blocks of a call.
pub fn copy_args(args: &Vec<Vec<Instruction>>) -> (r: Vec<Vec<Instruction>>)
    ensures
        args_m(r@) == args_m(args@),
    decreases args,
{
    let mut copy: Vec<Vec<Instruction>> = Vec::new();
    let mut k: usize = 0;
    while k < args.len()
        invariant
            k <= args@.len(),
            copy@.len() == k,
            forall|j: int| 0 <= j < k ==> instrs_m(#[trigger] copy@[j]@) == instrs_m(args@[j]@),
        decreases args@.len() - k,
    {
        assert(decreases_to!(args => args@[k as int]));
        copy.push(copy_block(&args[k]));
        k += 1;
    }
    proof {
        lemma_args_m(copy@);
        lemma_args_m(args@);
        assert(args_m(copy@) =~= args_m(args@));
    }
    copy
}

/// Deep copy of an instruction.
pub fn copy_instr(i: &Instruction) -> (r: Instruction)
    ensures
        instr_m(r) == instr_m(*i),
    decreases i,
{
    match i {
        Instruction::BinaryOp { op } => Instruction::BinaryOp { op: copy_op(op) },
        Instruction::Push { value } => Instruction::Push { value: copy_value(value) },
        Instruction::PrintLn => Instruction::PrintLn,
        Instruction::Load { id } => Instruction::Load { id: id.clone() },
        Instruction::Return { block } => Instruction::Return { block: copy_block(block) },
        Instruction::FunctionDeclaration { name, params, block } => {
            let ps = params.clone();
            assert(names_m(ps@) =~= names_m(params@));
            Instruction::FunctionDeclaration {
                name: name.clone(),
                params: ps,
                block: copy_block(block),
            }
        },
        Instruction::FunctionCall { id, args } => Instruction::FunctionCall {
            id: id.clone(),
            args: copy_args(args),
        },
        Instruction::Conditional { condition, block, alternative } => {
            let alt = match alternative {
                Some(a) => Some(copy_block(a)),
                None => None,
            };
            Instruction::Conditional {
                condition: copy_block(condition),
                block: copy_block(block),
                alternative: alt,
            }
        },
    }
}

/// Whether two values have the same model.
pub fn eq_value(a: &StackValue, b: &StackValue) -> (r: bool)
    ensures
        r == (value_m(*a) == value_m(*b)),
    decreases a,
{
    match (a, b) {
        (StackValue::Integer(x), StackValue::Integer(y)) => *x == *y,
        (StackValue::Boolean(x), StackValue::Boolean(y)) => *x == *y,
        (StackValue::Function(n1, o1), StackValue::Function(n2, o2)) => {
            let same_name = *n1 == *n2;
            same_name && eq_object(&**o1, &**o2)
        },
        _ => false,
    }
}

/// Whether two bindings have the same model.
pub fn eq_object(a: &Object, b: &Object) -> (r: bool)
    ensures
        r == (object_m(*a) == object_m(*b)),
    decreases a,
{
    match (a, b) {
        (Object::Function { scope: s1, func: f1 }, Object::Function { scope: s2, func: f2 }) => {
            *s1 == *s2 && eq_function(f1, f2)
        },
        (Object::Value { value: v1 }, Object::Value { value: v2 }) => eq_value(v1, v2),
        (Object::Uninitialized, Object::Uninitialized) => true,
        _ => false,
    }
}

/// Whether two functions have the same model.
pub fn eq_function(a: &Function, b: &Function) -> (r: bool)
    ensures
        r == (function_m(*a) == function_m(*b)),
    decreases a,
{
    let same_name = a.name == b.name;
    same_name && eq_names(&a.params, &b.params) && eq_block(&a.block, &b.block)
}

/// Whether two lists of names are equal.
pub fn eq_names(a: &Vec<String>, b: &Vec<String>) -> (r: bool)
    ensures
        r == (names_m(a@) == names_m(b@)),
{
    if a.len() != b.len() {
        assert(names_m(a@).len() != names_m(b@).len());
        return false;
    }
    let mut k: usize = 0;
    while k < a.len()
        invariant
            k <= a@.len(),
            a@.len() == b@.len(),
            forall|j: int| 0 <= j < k ==> (#[trigger] a@[j])@ == b@[j]@,
        decreases a@.len() - k,
    {
        if a[k] != b[k] {
            assert(names_m(a@)[k as int] != names_m(b@)[k as int]);
            return false;
        }
        k += 1;
    }
    assert(names_m(a@) =~= names_m(b@));
    true
}

/// Whether two operators have the same model.
pub fn eq_op(a: &BinaryOp, b: &BinaryOp) -> (r: bool)
    ensures
        r == (op_m(*a) == op_m(*b)),
{
    match (a, b) {
        (BinaryOp::LessThan, BinaryOp::LessThan) => true,
        (BinaryOp::GreaterThan, BinaryOp::GreaterThan) => true,
        (BinaryOp::Add, BinaryOp::Add) => true,
        (BinaryOp::Mul, BinaryOp::Mul) => true,
        (BinaryOp::Equal, BinaryOp::Equal) => true,
        (BinaryOp::NotEqual, BinaryOp::NotEqual) => true,
        (BinaryOp::LogicalAnd, BinaryOp::LogicalAnd) => true,
        (BinaryOp::LogicalOr, BinaryOp::LogicalOr) => true,
        (BinaryOp::Assign { name: x }, BinaryOp::Assign { name: y }) => *x == *y,
        (BinaryOp::Declare { name: x }, BinaryOp::Declare { name: y }) => *x == *y,
        _ => false,
    }
}

/// Whether two blocks have the same model.
pub fn eq_block(a: &Vec<Instruction>, b: &Vec<Instruction>) -> (r: bool)
    ensures
        r == (instrs_m(a@) == instrs_m(b@)),
    decreases a,
{
    proof {
        lemma_instrs_m(a@);
        lemma_instrs_m(b@);
    }
    if a.len() != b.len() {
        return false;
    }
    let mut k: usize = 0;
    while k < a.len()
        invariant
            k <= a@.len(),
            a@.len() == b@.len(),
            instrs_m(a@).len() == a@.len(),
            instrs_m(b@).len() == b@.len(),
            forall|j: int| 0 <= j < a@.len() ==> #[trigger] instrs_m(a@)[j] == instr_m(a@[j]),
            forall|j: int| 0 <= j < b@.len() ==> #[trigger] instrs_m(b@)[j] == instr_m(b@[j]),
            forall|j: int| 0 <= j < k ==> instr_m(#[trigger] a@[j]) == instr_m(b@[j]),
        decreases a@.len() - k,
    {
        assert(decreases_to!(a => a@[k as int]));
        if !eq_instr(&a[k], &b[k]) {
            assert(instrs_m(a@)[k as int] != instrs_m(b@)[k as int]);
            return false;
        }
        k += 1;
    }
    proof {
        lemma_instrs_m_pointwise(a@, b@);
    }
    true
}

/// Whether two lists of argument blocks have the same model.
pub fn eq_args(a: &Vec<Vec<Instruction>>, b: &Vec<Vec<Instruction>>) -> (r: bool)
    ensures
        r == (args_m(a@) == args_m(b@)),
    decreases a,
{
    proof {
        lemma_args_m(a@);
        lemma_args_m(b@);
    }
    if a.len() != b.len() {
        return false;
    }
    let mut k: usize = 0;
    while k < a.len()
        invariant
            k <= a@.len(),
            a@.len() == b@.len(),
            args_m(a@).len() == a@.len(),
            args_m(b@).len() == b@.len(),
            forall|j: int| 0 <= j < a@.len() ==> #[trigger] args_m(a@)[j] == instrs_m(a@[j]@),
            forall|j: int| 0 <= j < b@.len() ==> #[trigger] args_m(b@)[j] == instrs_m(b@[j]@),
            forall|j: int| 0 <= j < k ==> instrs_m((#[trigger] a@[j])@) == instrs_m(b@[j]@),
        decreases a@.len() - k,
    {
        assert(decreases_to!(a => a@[k as int]));
        if !eq_block(&a[k], &b[k]) {
            assert(args_m(a@)[k as int] != args_m(b@)[k as int]);
            return false;
        }
        k += 1;
    }
    assert(args_m(a@) =~= args_m(b@));
    true
}

/// Whether two instructions have the same model.
pub fn eq_instr(a: &Instruction, b: &Instruction) -> (r: bool)
    ensures
        r == (instr_m(*a) == instr_m(*b)),
    decreases a,
{
    match (a, b) {
        (Instruction::BinaryOp { op: x }, Instruction::BinaryOp { op: y }) => eq_op(x, y),
        (Instruction::Push { value: x }, Instruction::Push { value: y }) => eq_value(x, y),
        (Instruction::PrintLn, Instruction::PrintLn) => true,
        (Instruction::Load { id: x }, Instruction::Load { id: y }) => *x == *y,
        (Instruction::Return { block: x }, Instruction::Return { block: y }) => eq_block(x, y),
        (
            Instruction::FunctionDeclaration { name: n1, params: p1, block: b1 },
            Instruction::FunctionDeclaration { name: n2, params: p2, block: b2 },
        ) => {
            let same_name = *n1 == *n2;
            same_name && eq_names(p1, p2) && eq_block(b1, b2)
        },
        (Instruction::FunctionCall { id: x, args: xs }, Instruction::FunctionCall { id: y, args: ys }) => {
            let same_name = *x == *y;
            same_name && eq_args(xs, ys)
        },
        (
            Instruction::Conditional { condition: c1, block: b1, alternative: a1 },
            Instruction::Conditional { condition: c2, block: b2, alternative: a2 },
        ) => {
            let same_alt = match (a1, a2) {
                (Some(x), Some(y)) => eq_block(x, y),
                (None, None) => true,
                _ => false,
            };
            eq_block(c1, c2) && eq_block(b1, b2) && same_alt
        },
        _ => false,
    }
}

/// Whether a value holds, at any depth, a function declared in frame
/// `base` or a later one.
pub fn refers_value(v: &StackValue, base: usize) -> (r: bool)
    ensures
        r == value_refs(value_m(*v), base as nat),
    decreases v,
{
    match v {
        StackValue::Function(_, o) => refers_object(&**o, base),
        _ => false,
    }
}

/// Whether a binding refers to frame `base` or a later one.
pub fn refers_object(o: &Object, base: usize) -> (r: bool)
    ensures
        r == object_refs(object_m(*o), base as nat),
    decreases o,
{
    match o {
        Object::Function { scope, func } => *scope >= base || refers_block(&func.block, base),
        Object::Value { value } => refers_value(value, base),
        Object::Uninitialized => false,
    }
}

/// Whether a block refers to frame `base` or a later one.
pub fn refers_block(b: &Vec<Instruction>, base: usize) -> (r: bool)
    ensures
        r == block_refs(instrs_m(b@), base as nat),
    decreases b,
{
    let ghost m = instrs_m(b@);
    proof {
        lemma_instrs_m(b@);
    }
    let mut k: usize = 0;
    let mut found = false;
    while k < b.len()
        invariant
            k <= b@.len(),
            m == instrs_m(b@),
            m.len() == b@.len(),
            forall|j: int| 0 <= j < b@.len() ==> #[trigger] m[j] == instr_m(b@[j]),
            found == block_refs(m.subrange(0, k as int), base as nat),
        decreases b@.len() - k,
    {
        assert(decreases_to!(b => b@[k as int]));
        let here = refers_instr(&b[k], base);
        assert(m.subrange(0, k + 1).subrange(0, k as int) =~= m.subrange(0, k as int));
        found = found || here;
        k += 1;
    }
    assert(m.subrange(0, k as int) =~= m);
    found
}

/// Whether argument blocks refer to frame `base` or a later one.
pub fn refers_args(a: &Vec<Vec<Instruction>>, base: usize) -> (r: bool)
    ensures
        r == args_refs(args_m(a@), base as nat),
    decreases a,
{
    let ghost m = args_m(a@);
    proof {
        lemma_args_m(a@);
    }
    let mut k: usize = 0;
    let mut found = false;
    while k < a.len()
        invariant
            k <= a@.len(),
            m == args_m(a@),
            m.len() == a@.len(),
            forall|j: int| 0 <= j < a@.len() ==> #[trigger] m[j] == instrs_m(a@[j]@),
            found == args_refs(m.subrange(0, k as int), base as nat),
        decreases a@.len() - k,
    {
        assert(decreases_to!(a => a@[k as int]));
        let here = refers_block(&a[k], base);
        assert(m.subrange(0, k + 1).subrange(0, k as int) =~= m.subrange(0, k as int));
        found = found || here;
        k += 1;
    }
    assert(m.subrange(0, k as int) =~= m);
    found
}

/// Whether an instruction refers to frame `base` or a later one.
pub fn refers_instr(i: &Instruction, base: usize) -> (r: bool)
    ensures
        r == instr_refs(instr_m(*i), base as nat),
    decreases i,
{
    match i {
        Instruction::Push { value } => refers_value(value, base),
        Instruction::Return { block } => refers_block(block, base),
        Instruction::FunctionDeclaration { block, .. } => refers_block(block, base),
        Instruction::FunctionCall { args, .. } => refers_args(args, base),
        Instruction::Conditional { condition, block, alternative } => {
            let in_alt = match alternative {
                Some(x) => refers_block(x, base),
                None => false,
            };
            refers_block(condition, base) || refers_block(block, base) || in_alt
        },
        _ => false,
    }
}

impl Clone for StackValue {
    fn clone(&self) -> (r: Self)
        ensures
            value_m(r) == value_m(*self),
    {
        copy_value(self)
    }
}

impl Clone for BinaryOp {
    fn clone(&self) -> (r: Self)
        ensures
            op_m(r) == op_m(*self),
    {
        copy_op(self)
    }
}

impl Clone for Instruction {
    fn clone(&self) -> (r: Self)
        ensures
            instr_m(r) == instr_m(*self),
    {
        copy_instr(self)
    }
}

impl Clone for EvalResult {
    fn clone(&self) -> (r: Self)
        ensures
            r matches EvalResult::Value(v) ==> *self matches EvalResult::Value(w) && value_m(v)
                == value_m(w),
            r matches EvalResult::Jump(_) <==> *self matches EvalResult::Jump(_),
    {
        match self {
            EvalResult::Value(v) => EvalResult::Value(copy_value(v)),
            EvalResult::Jump(j) => EvalResult::Jump(*j),
        }
    }
}

/// The decimal digits of a number, most significant first.
pub open spec fn decimal_m(n: nat) -> Seq<char>
    decreases n,
{
    if n < 10 {
        seq![('0' as u8 + n as u8) as char]
    } else {
        decimal_m(n / 10).push(('0' as u8 + (n % 10) as u8) as char)
    }
}

/// The printed form of a value.
pub open spec fn text_m(v: ValueM) -> Seq<char> {
    match v {
        ValueM::Integer(n) => decimal_m(n as nat),
        ValueM::Boolean(b) => if b {
            "true"@
        } else {
            "false"@
        },
        ValueM::Function(id, _) => "function "@ + id,
    }
}

/// Relies on `u64::to_string` (through `Display`): the decimal digits.
#[verifier::external_body]
pub(crate) fn decimal(n: u64) -> (r: String)
    ensures
        r@ == decimal_m(n as nat),
{
    n.to_string()
}

/// The three texts one after another.
pub(crate) fn concat3(a: &str, b: &str, c: &str) -> (r: String)
    ensures
        r@ == a@ + b@ + c@,
{
    let mut r = a.to_owned();
    r.append(b);
    r.append(c);
    r
}

impl BinaryOp {
    /// The operator's name.
    pub fn name(&self) -> (r: &'static str)
        ensures
            r@ == op_name(op_m(*self)),
    {
        match self {
            BinaryOp::LessThan => "LessThan",
            BinaryOp::GreaterThan => "GreaterThan",
            BinaryOp::Add => "Add",
            BinaryOp::Mul => "Mul",
            BinaryOp::Assign { .. } => "Assign",
            BinaryOp::Equal => "Equal",
            BinaryOp::NotEqual => "NotEqual",
            BinaryOp::LogicalAnd => "LogicalAnd",
            BinaryOp::LogicalOr => "LogicalOr",
            BinaryOp::Declare { .. } => "Declare",
        }
    }
}

pub open spec fn op_name(op: OpM) -> Seq<char> {
    match op {
        OpM::LessThan => "LessThan"@,
        OpM::GreaterThan => "GreaterThan"@,
        OpM::Add => "Add"@,
        OpM::Mul => "Mul"@,
        OpM::Assign(_) => "Assign"@,
        OpM::Equal => "Equal"@,
        OpM::NotEqual => "NotEqual"@,
        OpM::LogicalAnd => "LogicalAnd"@,
        OpM::LogicalOr => "LogicalOr"@,
        OpM::Declare(_) => "Declare"@,
    }
}

impl Instruction {
    /// The instruction's name; an operator's also names the operator.
    pub fn name(&self) -> (r: String)
        ensures
            r@ == instr_name(instr_m(*self)),
    {
        match self {
            Instruction::Conditional { .. } => "Conditional".to_owned(),
            Instruction::Push { .. } => "Push".to_owned(),
            Instruction::PrintLn => "PrintLn".to_owned(),
            Instruction::Load { .. } => "Load".to_owned(),
            Instruction::Return { .. } => "Return".to_owned(),
            Instruction::FunctionDeclaration { .. } => "FunctionDeclaration".to_owned(),
            Instruction::FunctionCall { .. } => "FunctionCall".to_owned(),
            Instruction::BinaryOp { op } => concat3("BinaryOp(", op.name(), ")"),
        }
    }
}

pub open spec fn instr_name(i: InstrM) -> Seq<char> {
    match i {
        InstrM::Conditional(..) => "Conditional"@,
        InstrM::Push(_) => "Push"@,
        InstrM::PrintLn => "PrintLn"@,
        InstrM::Load(_) => "Load"@,
        InstrM::Return(_) => "Return"@,
        InstrM::FunctionDeclaration(..) => "FunctionDeclaration"@,
        InstrM::FunctionCall(..) => "FunctionCall"@,
        InstrM::BinaryOp(op) => "BinaryOp("@ + op_name(op) + ")"@,
    }
}

impl StackValue {
    /// The integer this value holds.
    pub fn as_int(&self) -> (r: Result<u64, InterpError>)
        ensures
            match self {
                StackValue::Integer(n) => r == Ok::<u64, InterpError>(*n),
                _ => r matches Err(e) && e@ == ErrM::EvalError("expected an integer"@),
            },
    {
        match self {
            StackValue::Integer(v) => Ok(*v),
            _ => Err(InterpError::EvalError("expected an integer".to_owned())),
        }
    }

    /// The boolean this value holds.
    pub fn as_bool(&self) -> (r: Result<bool, InterpError>)
        ensures
            match self {
                StackValue::Boolean(b) => r == Ok::<bool, InterpError>(*b),
                _ => r matches Err(e) && e@ == ErrM::EvalError("expected a boolean"@),
            },
    {
        match self {
            StackValue::Boolean(v) => Ok(*v),
            _ => Err(InterpError::EvalError("expected a boolean".to_owned())),
        }
    }

    /// Whether both values carry the same tag.
    pub fn is_same_type(&self, other: &Self) -> (r: bool)
        ensures
            r == ((self is Integer && other is Integer) || (self is Boolean && other is Boolean) || (
            self is Function && other is Function)),
    {
        match (self, other) {
            (StackValue::Integer(_), StackValue::Integer(_)) => true,
            (StackValue::Boolean(_), StackValue::Boolean(_)) => true,
            (StackValue::Function(..), StackValue::Function(..)) => true,
            _ => false,
        }
    }

    /// The printed form: decimal digits, `true` or `false`, or `function`
    /// and the function's name.
    pub fn to_text(&self) -> (r: String)
        ensures
            r@ == text_m(value_m(*self)),
    {
        match self {
            StackValue::Integer(n) => decimal(*n),
            StackValue::Boolean(b) => if *b {
                "true".to_owned()
            } else {
                "false".to_owned()
            },
            StackValue::Function(id, _) => {
                let r = concat3("function ", id.as_str(), "");
                proof {
                    reveal_strlit("");
                    assert("function "@ + id@ + ""@ =~= "function "@ + id@);
                }
                r
            },
        }
    }
}

} // verus!
