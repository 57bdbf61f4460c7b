//! Deterministic evaluation of invariant expressions.
//!
//! Every arithmetic operation is checked: overflow, underflow and division by
//! zero are errors, never wrapped values. No floating point, no randomness,
//! no I/O. What an expression evaluates to is stated by `eval_expr`; only a
//! call of a registered native function is left to that function.
use vstd::prelude::*;
use crate::model::{ArithOp, BinaryOp, Expression, LogicalOp, same_expr, lemma_same_exprs_from};
use crate::strmap::StrMap;
use crate::text::{dec_digits, int_text, push_i128, push_str, push_u128};
use crate::types::Type;

verus! {

/// A runtime value with type information.
#[derive(Debug, PartialEq, Eq)]
pub enum Value {
    /// Boolean value.
    Bool(bool),
    /// 64-bit unsigned integer.
    U64(u64),
    /// 128-bit unsigned integer.
    U128(u128),
    /// 64-bit signed integer.
    I64(i64),
    /// Address (hex string representation).
    Address(String),
}

/// What a `Value` is, with the address taken as its characters.
pub enum ValueModel {
    Bool(bool),
    U64(u64),
    U128(u128),
    I64(i64),
    Address(Seq<char>),
}

impl View for Value {
    type V = ValueModel;

    open spec fn view(&self) -> ValueModel {
        match self {
            Value::Bool(b) => ValueModel::Bool(*b),
            Value::U64(n) => ValueModel::U64(*n),
            Value::U128(n) => ValueModel::U128(*n),
            Value::I64(n) => ValueModel::I64(*n),
            Value::Address(a) => ValueModel::Address(a@),
        }
    }
}

impl Clone for Value {
    fn clone(&self) -> (r: Self)
        ensures
            r == *self,
    {
        match self {
            Value::Bool(b) => Value::Bool(*b),
            Value::U64(n) => Value::U64(*n),
            Value::U128(n) => Value::U128(*n),
            Value::I64(n) => Value::I64(*n),
            Value::Address(a) => Value::Address(a.clone()),
        }
    }
}

/// Evaluation errors.
#[derive(Debug, Clone, PartialEq, Eq)]
pub enum EvaluationError {
    /// Arithmetic overflow.
    Overflow,
    /// Arithmetic underflow.
    Underflow,
    /// Type error during evaluation.
    TypeError,
    /// Division by zero.
    DivisionByZero,
    /// Undefined variable.
    UndefinedVariable(String),
    /// Undefined function.
    UndefinedFunction(String),
    /// Function argument error.
    InvalidArgument(String),
    /// Conversion overflow.
    ConversionOverflow,
    /// Custom error.
    Custom(String),
}

/// What an `EvaluationError` is, with its text taken as characters.
pub enum ErrorModel {
    Overflow,
    Underflow,
    TypeError,
    DivisionByZero,
    UndefinedVariable(Seq<char>),
    UndefinedFunction(Seq<char>),
    InvalidArgument(Seq<char>),
    ConversionOverflow,
    Custom(Seq<char>),
}

impl View for EvaluationError {
    type V = ErrorModel;

    open spec fn view(&self) -> ErrorModel {
        match self {
            EvaluationError::Overflow => ErrorModel::Overflow,
            EvaluationError::Underflow => ErrorModel::Underflow,
            EvaluationError::TypeError => ErrorModel::TypeError,
            EvaluationError::DivisionByZero => ErrorModel::DivisionByZero,
            EvaluationError::UndefinedVariable(s) => ErrorModel::UndefinedVariable(s@),
            EvaluationError::UndefinedFunction(s) => ErrorModel::UndefinedFunction(s@),
            EvaluationError::InvalidArgument(s) => ErrorModel::InvalidArgument(s@),
            EvaluationError::ConversionOverflow => ErrorModel::ConversionOverflow,
            EvaluationError::Custom(s) => ErrorModel::Custom(s@),
        }
    }
}

/// Result type for evaluation operations.
pub type EvalResult<T> = Result<T, EvaluationError>;

/// What an evaluation result is.
pub type OutcomeModel = Result<ValueModel, ErrorModel>;

/// The model of an evaluation result.
pub open spec fn result_model(r: EvalResult<Value>) -> OutcomeModel {
    match r {
        Ok(v) => Ok(v@),
        Err(e) => Err(e@),
    }
}

/// The type of a value.
pub open spec fn value_type(v: ValueModel) -> Type {
    match v {
        ValueModel::Bool(_) => Type::Bool,
        ValueModel::U64(_) => Type::U64,
        ValueModel::U128(_) => Type::U128,
        ValueModel::I64(_) => Type::I64,
        ValueModel::Address(_) => Type::Address,
    }
}

/// The truth of a value: a number is true when non-zero, an address when
/// non-empty.
pub open spec fn truth(v: ValueModel) -> bool {
    match v {
        ValueModel::Bool(b) => b,
        ValueModel::U64(n) => n != 0,
        ValueModel::U128(n) => n != 0,
        ValueModel::I64(n) => n != 0,
        ValueModel::Address(a) => a.len() > 0,
    }
}

/// The display text of a value.
pub open spec fn value_text(v: ValueModel) -> Seq<char> {
    match v {
        ValueModel::Bool(b) => if b {
            "true"@
        } else {
            "false"@
        },
        ValueModel::U64(n) => dec_digits(n as nat),
        ValueModel::U128(n) => dec_digits(n as nat),
        ValueModel::I64(n) => int_text(n as int),
        ValueModel::Address(a) => a,
    }
}

/// The value as a `u64`, where it is a number that fits.
pub open spec fn u64_of(v: ValueModel) -> Result<u64, ErrorModel> {
    match v {
        ValueModel::U64(n) => Ok(n),
        ValueModel::U128(n) => if n <= u64::MAX {
            Ok(n as u64)
        } else {
            Err(ErrorModel::ConversionOverflow)
        },
        ValueModel::I64(n) => if n >= 0 {
            Ok(n as u64)
        } else {
            Err(ErrorModel::ConversionOverflow)
        },
        _ => Err(ErrorModel::TypeError),
    }
}

/// The value as an `i64`, where it is a signed or 64-bit number that fits.
pub open spec fn i64_of(v: ValueModel) -> Result<i64, ErrorModel> {
    match v {
        ValueModel::I64(n) => Ok(n),
        ValueModel::U64(n) => if n <= i64::MAX {
            Ok(n as i64)
        } else {
            Err(ErrorModel::ConversionOverflow)
        },
        _ => Err(ErrorModel::TypeError),
    }
}

/// The value as an `i128`, where it is a number that fits; `None` otherwise.
pub open spec fn wide_of(v: ValueModel) -> Option<int> {
    match v {
        ValueModel::U64(n) => Some(n as int),
        ValueModel::I64(n) => Some(n as int),
        ValueModel::U128(n) => if n <= i128::MAX {
            Some(n as int)
        } else {
            None
        },
        _ => None,
    }
}

/// `x` fits in an `i128`.
pub open spec fn fits_i128(x: int) -> bool {
    i128::MIN <= x <= i128::MAX
}

/// Integer division rounding toward zero, as Rust and the EVM divide.
pub open spec fn trunc_div(x: int, d: int) -> int {
    if x == 0 {
        0
    } else if x > 0 && d > 0 {
        x / d
    } else if x < 0 && d < 0 {
        (-x) / (-d)
    } else if x < 0 {
        -((-x) / d)
    } else {
        -(x / (-d))
    }
}

/// An operand of signed arithmetic.
pub open spec fn signed_operand(v: ValueModel) -> Result<int, ErrorModel> {
    match v {
        ValueModel::I64(x) => Ok(x as int),
        ValueModel::U64(x) => Ok(x as int),
        ValueModel::U128(x) => if x <= i128::MAX {
            Ok(x as int)
        } else {
            Err(ErrorModel::ConversionOverflow)
        },
        _ => Err(ErrorModel::TypeError),
    }
}

/// An operand of unsigned arithmetic.
pub open spec fn unsigned_operand(v: ValueModel) -> Result<int, ErrorModel> {
    match v {
        ValueModel::U64(x) => Ok(x as int),
        ValueModel::U128(x) => Ok(x as int),
        _ => Err(ErrorModel::TypeError),
    }
}

/// Signed arithmetic on the exact values, checked against the `i128` range.
pub open spec fn signed_arith(l: int, op: ArithOp, r: int) -> Result<int, ErrorModel> {
    match op {
        ArithOp::Add => if fits_i128(l + r) {
            Ok(l + r)
        } else {
            Err(ErrorModel::Overflow)
        },
        ArithOp::Sub => if fits_i128(l - r) {
            Ok(l - r)
        } else {
            Err(ErrorModel::Underflow)
        },
        ArithOp::Mul => if fits_i128(l * r) {
            Ok(l * r)
        } else {
            Err(ErrorModel::Overflow)
        },
        ArithOp::Div => if r == 0 {
            Err(ErrorModel::DivisionByZero)
        } else if fits_i128(trunc_div(l, r)) {
            Ok(trunc_div(l, r))
        } else {
            Err(ErrorModel::Overflow)
        },
    }
}

/// Unsigned arithmetic on the exact values, checked against the `u128` range.
pub open spec fn unsigned_arith(l: int, op: ArithOp, r: int) -> Result<int, ErrorModel> {
    match op {
        ArithOp::Add => if l + r <= u128::MAX {
            Ok(l + r)
        } else {
            Err(ErrorModel::Overflow)
        },
        ArithOp::Sub => if l >= r {
            Ok(l - r)
        } else {
            Err(ErrorModel::Underflow)
        },
        ArithOp::Mul => if l * r <= u128::MAX {
            Ok(l * r)
        } else {
            Err(ErrorModel::Overflow)
        },
        ArithOp::Div => if r == 0 {
            Err(ErrorModel::DivisionByZero)
        } else {
            Ok(l / r)
        },
    }
}

/// `left op right`: in `i128` when either side is signed, then narrowed to
/// an `i64`; otherwise in `u128`, narrowed to a `u64` when it fits.
pub open spec fn arith_value(left: ValueModel, op: ArithOp, right: ValueModel) -> OutcomeModel {
    if left is I64 || right is I64 {
        match signed_operand(left) {
            Err(e) => Err(e),
            Ok(l) => match signed_operand(right) {
                Err(e) => Err(e),
                Ok(r) => match signed_arith(l, op, r) {
                    Err(e) => Err(e),
                    Ok(out) => if i64::MIN <= out <= i64::MAX {
                        Ok(ValueModel::I64(out as i64))
                    } else {
                        Err(ErrorModel::ConversionOverflow)
                    },
                },
            },
        }
    } else {
        match unsigned_operand(left) {
            Err(e) => Err(e),
            Ok(l) => match unsigned_operand(right) {
                Err(e) => Err(e),
                Ok(r) => match unsigned_arith(l, op, r) {
                    Err(e) => Err(e),
                    Ok(out) => if out <= u64::MAX {
                        Ok(ValueModel::U64(out as u64))
                    } else {
                        Ok(ValueModel::U128(out as u128))
                    },
                },
            },
        }
    }
}

/// Whether `l op r` holds of two numbers.
pub open spec fn compare_ints(l: int, op: BinaryOp, r: int) -> bool {
    match op {
        BinaryOp::Eq => l == r,
        BinaryOp::Neq => l != r,
        BinaryOp::Lt => l < r,
        BinaryOp::Gt => l > r,
        BinaryOp::Lte => l <= r,
        BinaryOp::Gte => l >= r,
    }
}

/// A comparison: numbers by value whatever their width; other values only
/// for equality.
pub open spec fn compare_value(left: ValueModel, op: BinaryOp, right: ValueModel) -> OutcomeModel {
    if wide_of(left) is Some && wide_of(right) is Some {
        Ok(ValueModel::Bool(compare_ints(wide_of(left)->0, op, wide_of(right)->0)))
    } else {
        match op {
            BinaryOp::Eq => Ok(ValueModel::Bool(left == right)),
            BinaryOp::Neq => Ok(ValueModel::Bool(left != right)),
            _ => Err(ErrorModel::TypeError),
        }
    }
}

/// `a::b`.
pub open spec fn qualified2(a: Seq<char>, b: Seq<char>) -> Seq<char> {
    a + "::"@ + b
}

/// `a::b::c`.
pub open spec fn qualified3(a: Seq<char>, b: Seq<char>, c: Seq<char>) -> Seq<char> {
    a + "::"@ + b + "::"@ + c
}

/// What native functions return: `calls(name, values)` is the outcome of the
/// function registered under `name` on arguments with these values, or
/// `None` where it is not known.
pub type NativeCalls = spec_fn(Seq<char>, Seq<ValueModel>) -> Option<OutcomeModel>;

/// No native function's result is known.
pub open spec fn no_native_calls() -> NativeCalls {
    |name: Seq<char>, values: Seq<ValueModel>| None
}

/// What the registered functions return, each as its `result_for` says.
pub open spec fn native_results(natives: Map<Seq<char>, Box<dyn NativeFunction>>) -> NativeCalls {
    |name: Seq<char>, values: Seq<ValueModel>| Some(natives[name].result_for(values))
}

/// The outcome of evaluating `e` over the state `state` with native functions
/// registered under `funcs`, which return what `calls` says: `Some` of the
/// result, or `None` where it rests on a native result that `calls` leaves
/// unknown.
pub open spec fn eval_expr(
    state: Map<Seq<char>, Value>,
    funcs: Set<Seq<char>>,
    calls: NativeCalls,
    e: Expression,
) -> Option<OutcomeModel>
    decreases e, 0int,
{
    match e {
        Expression::Boolean(b) => Some(Ok(ValueModel::Bool(b))),
        Expression::Int(v) => if v < 0 {
            Some(Ok(ValueModel::I64(v as i64)))
        } else if v <= u64::MAX {
            Some(Ok(ValueModel::U64(v as u64)))
        } else {
            Some(Ok(ValueModel::U128(v as u128)))
        },
        Expression::Var(name) => if state.contains_key(name@) {
            Some(Ok(state[name@]@))
        } else {
            Some(Err(ErrorModel::UndefinedVariable(name@)))
        },
        Expression::LayerVar { layer, var } => {
            let q = qualified2(layer@, var@);
            if state.contains_key(q) {
                Some(Ok(state[q]@))
            } else if state.contains_key(var@) {
                Some(Ok(state[var@]@))
            } else {
                Some(Err(ErrorModel::UndefinedVariable(q)))
            }
        },
        Expression::PhaseQualifiedVar { phase, layer, var } => {
            let q = qualified3(phase@, layer@, var@);
            let lq = qualified2(layer@, var@);
            if state.contains_key(q) {
                Some(Ok(state[q]@))
            } else if state.contains_key(lq) {
                Some(Ok(state[lq]@))
            } else if state.contains_key(var@) {
                Some(Ok(state[var@]@))
            } else {
                Some(Err(ErrorModel::UndefinedVariable(q)))
            }
        },
        Expression::PhaseConstraint { phase: _, constraint } => eval_expr(
            state,
            funcs,
            calls,
            *constraint,
        ),
        Expression::CrossPhaseRelation { phase1: _, expr1, phase2: _, expr2, op } => {
            match eval_expr(state, funcs, calls, *expr1) {
                Some(Ok(l)) => match eval_expr(state, funcs, calls, *expr2) {
                    Some(Ok(r)) => Some(compare_value(l, op, r)),
                    other => other,
                },
                other => other,
            }
        },
        Expression::BinaryOp { left, op, right } => {
            match eval_expr(state, funcs, calls, *left) {
                Some(Ok(l)) => match eval_expr(state, funcs, calls, *right) {
                    Some(Ok(r)) => Some(compare_value(l, op, r)),
                    other => other,
                },
                other => other,
            }
        },
        Expression::Arithmetic { left, op, right } => {
            match eval_expr(state, funcs, calls, *left) {
                Some(Ok(l)) => match eval_expr(state, funcs, calls, *right) {
                    Some(Ok(r)) => Some(arith_value(l, op, r)),
                    other => other,
                },
                other => other,
            }
        },
        Expression::Logical { left, op, right } => {
            match eval_expr(state, funcs, calls, *left) {
                Some(Ok(l)) => {
                    let lb = truth(l);
                    if op == LogicalOp::And && !lb {
                        Some(Ok(ValueModel::Bool(false)))
                    } else if op == LogicalOp::Or && lb {
                        Some(Ok(ValueModel::Bool(true)))
                    } else {
                        match eval_expr(state, funcs, calls, *right) {
                            Some(Ok(r)) => Some(Ok(ValueModel::Bool(truth(r)))),
                            other => other,
                        }
                    }
                },
                other => other,
            }
        },
        Expression::Not(inner) => match eval_expr(state, funcs, calls, *inner) {
            Some(Ok(v)) => Some(Ok(ValueModel::Bool(!truth(v)))),
            other => other,
        },
        Expression::FunctionCall { name, args } => if !funcs.contains(name@) {
            Some(Err(ErrorModel::UndefinedFunction(name@)))
        } else {
            match args_values(state, funcs, calls, args@) {
                Some(Ok(values)) => calls(name@, values),
                Some(Err(e)) => Some(Err(e)),
                None => None,
            }
        },
        Expression::Tuple(items) => if items.len() == 0 {
            Some(Ok(ValueModel::Bool(true)))
        } else {
            eval_expr(state, funcs, calls, items@[0])
        },
    }
}

/// The values of the arguments of a native call, evaluated left to right:
/// the first error, if any; `None` where an argument rests on an unknown
/// native result.
pub open spec fn args_values(
    state: Map<Seq<char>, Value>,
    funcs: Set<Seq<char>>,
    calls: NativeCalls,
    args: Seq<Expression>,
) -> Option<Result<Seq<ValueModel>, ErrorModel>>
    decreases args, 0int,
{
    if args.len() == 0 {
        Some(Ok(Seq::empty()))
    } else {
        match args_values(state, funcs, calls, args.drop_last()) {
            Some(Ok(values)) => match eval_expr(state, funcs, calls, args.last()) {
                Some(Ok(v)) => Some(Ok(values.push(v))),
                Some(Err(e)) => Some(Err(e)),
                None => None,
            },
            other => other,
        }
    }
}

impl Value {
    /// The type of this value.
    pub fn get_type(&self) -> (r: Type)
        ensures
            r == value_type(self@),
    {
        match self {
            Value::Bool(_) => Type::Bool,
            Value::U64(_) => Type::U64,
            Value::U128(_) => Type::U128,
            Value::I64(_) => Type::I64,
            Value::Address(_) => Type::Address,
        }
    }

    /// The truth of this value, for conditions; every value has one.
    pub fn to_bool(&self) -> (r: Result<bool, EvaluationError>)
        ensures
            r == Ok::<bool, EvaluationError>(truth(self@)),
    {
        match self {
            Value::Bool(b) => Ok(*b),
            Value::U64(n) => Ok(*n != 0),
            Value::U128(n) => Ok(*n != 0),
            Value::I64(n) => Ok(*n != 0),
            Value::Address(a) => Ok(!a.as_str().is_empty()),
        }
    }

    /// This value as a `u64`.
    fn as_u64(&self) -> (r: Result<u64, EvaluationError>)
        ensures
            match r {
                Ok(n) => u64_of(self@) == Ok::<u64, ErrorModel>(n),
                Err(e) => u64_of(self@) == Err::<u64, ErrorModel>(e@),
            },
    {
        match self {
            Value::U64(n) => Ok(*n),
            Value::U128(n) => {
                if *n <= 18446744073709551615u128 {
                    Ok(*n as u64)
                } else {
                    Err(EvaluationError::ConversionOverflow)
                }
            },
            Value::I64(n) => {
                if *n >= 0 {
                    Ok(*n as u64)
                } else {
                    Err(EvaluationError::ConversionOverflow)
                }
            },
            _ => Err(EvaluationError::TypeError),
        }
    }

    /// This value as an `i64`.
    fn as_i64(&self) -> (r: Result<i64, EvaluationError>)
        ensures
            match r {
                Ok(n) => i64_of(self@) == Ok::<i64, ErrorModel>(n),
                Err(e) => i64_of(self@) == Err::<i64, ErrorModel>(e@),
            },
    {
        match self {
            Value::I64(n) => Ok(*n),
            Value::U64(n) => {
                if *n <= 9223372036854775807u64 {
                    Ok(*n as i64)
                } else {
                    Err(EvaluationError::ConversionOverflow)
                }
            },
            _ => Err(EvaluationError::TypeError),
        }
    }

    /// The display text of this value.
    pub fn to_string(&self) -> (r: String)
        ensures
            r@ == value_text(self@),
    {
        let mut out = String::new();
        match self {
            Value::Bool(b) => {
                if *b {
                    push_str(&mut out, "true");
                } else {
                    push_str(&mut out, "false");
                }
            },
            Value::U64(n) => {
                push_u128(&mut out, *n as u128);
            },
            Value::U128(n) => {
                push_u128(&mut out, *n);
            },
            Value::I64(n) => {
                push_i128(&mut out, *n as i128);
            },
            Value::Address(a) => {
                push_str(&mut out, a.as_str());
            },
        }
        assert(out@ =~= value_text(self@));
        out
    }
}

/// The message of an evaluation error.
pub open spec fn evaluation_error_text(e: ErrorModel) -> Seq<char> {
    match e {
        ErrorModel::Overflow => "arithmetic overflow"@,
        ErrorModel::Underflow => "arithmetic underflow"@,
        ErrorModel::TypeError => "type error"@,
        ErrorModel::DivisionByZero => "division by zero"@,
        ErrorModel::UndefinedVariable(n) => "undefined variable '"@ + n + "'"@,
        ErrorModel::UndefinedFunction(n) => "undefined function '"@ + n + "'"@,
        ErrorModel::InvalidArgument(m) => "invalid argument: "@ + m,
        ErrorModel::ConversionOverflow => "conversion overflow"@,
        ErrorModel::Custom(m) => m,
    }
}

impl EvaluationError {
    /// The message of this error.
    pub fn to_string(&self) -> (r: String)
        ensures
            r@ == evaluation_error_text(self@),
    {
        let mut out = String::new();
        match self {
            EvaluationError::Overflow => push_str(&mut out, "arithmetic overflow"),
            EvaluationError::Underflow => push_str(&mut out, "arithmetic underflow"),
            EvaluationError::TypeError => push_str(&mut out, "type error"),
            EvaluationError::DivisionByZero => push_str(&mut out, "division by zero"),
            EvaluationError::UndefinedVariable(n) => {
                push_str(&mut out, "undefined variable '");
                push_str(&mut out, n.as_str());
                push_str(&mut out, "'");
            },
            EvaluationError::UndefinedFunction(n) => {
                push_str(&mut out, "undefined function '");
                push_str(&mut out, n.as_str());
                push_str(&mut out, "'");
            },
            EvaluationError::InvalidArgument(m) => {
                push_str(&mut out, "invalid argument: ");
                push_str(&mut out, m.as_str());
            },
            EvaluationError::ConversionOverflow => push_str(&mut out, "conversion overflow"),
            EvaluationError::Custom(m) => push_str(&mut out, m.as_str()),
        }
        assert(out@ =~= evaluation_error_text(self@));
        out
    }
}

/// A function that expressions may call by name; an application supplies
/// its own.
pub trait NativeFunction {
    /// What the function returns for arguments with these values.
    spec fn result_for(&self, args: Seq<ValueModel>) -> OutcomeModel;

    /// Applies the function to the evaluated arguments.
    fn call(&self, args: &[Value]) -> (r: EvalResult<Value>)
        ensures
            result_model(r) == self.result_for(args@.map_values(|v: Value| v@)),
    ;
}

/// Execution context for invariant evaluation.
pub struct ExecutionContext {
    /// Current state variable values.
    pub state_vars: StrMap<Value>,
    /// Function implementations.
    pub functions: StrMap<Box<dyn NativeFunction>>,
}

impl ExecutionContext {
    /// An empty context.
    pub fn new() -> (r: Self)
        ensures
            r.state_vars@ == Map::<Seq<char>, Value>::empty(),
            r.functions@ == Map::<Seq<char>, Box<dyn NativeFunction>>::empty(),
    {
        ExecutionContext { state_vars: StrMap::new(), functions: StrMap::new() }
    }

    /// Sets a state variable's value.
    pub fn set_state(&mut self, name: String, value: Value)
        ensures
            final(self).state_vars@ == old(self).state_vars@.insert(name@, value),
            final(self).functions@ == old(self).functions@,
    {
        self.state_vars.insert(name, value);
    }

    /// Registers a function under `name`.
    pub fn register_function(&mut self, name: String, func: Box<dyn NativeFunction>)
        ensures
            final(self).functions@ == old(self).functions@.insert(name@, func),
            final(self).state_vars@ == old(self).state_vars@,
    {
        self.functions.insert(name, func);
    }
}

impl Default for ExecutionContext {
    fn default() -> (r: Self)
        ensures
            r.state_vars@ == Map::<Seq<char>, Value>::empty(),
            r.functions@ == Map::<Seq<char>, Box<dyn NativeFunction>>::empty(),
    {
        Self::new()
    }
}

/// Deterministic invariant expression evaluator.
pub struct Evaluator {
    context: ExecutionContext,
}

/// Whether two values are the same value of the same variant.
fn same_value(a: &Value, b: &Value) -> (r: bool)
    ensures
        r == (a@ == b@),
{
    match (a, b) {
        (Value::Bool(x), Value::Bool(y)) => *x == *y,
        (Value::U64(x), Value::U64(y)) => *x == *y,
        (Value::U128(x), Value::U128(y)) => *x == *y,
        (Value::I64(x), Value::I64(y)) => *x == *y,
        (Value::Address(x), Value::Address(y)) => *x == *y,
        _ => false,
    }
}

/// `a::b`.
fn join2(a: &str, b: &str) -> (r: String)
    ensures
        r@ == qualified2(a@, b@),
{
    let mut s = String::new();
    push_str(&mut s, a);
    push_str(&mut s, "::");
    push_str(&mut s, b);
    assert(s@ =~= qualified2(a@, b@));
    s
}

/// `a::b::c`.
fn join3(a: &str, b: &str, c: &str) -> (r: String)
    ensures
        r@ == qualified3(a@, b@, c@),
{
    let mut s = join2(a, b);
    push_str(&mut s, "::");
    push_str(&mut s, c);
    assert(s@ =~= qualified3(a@, b@, c@));
    s
}

impl Evaluator {
    /// The state variables the evaluator reads.
    pub closed spec fn state(&self) -> Map<Seq<char>, Value> {
        self.context.state_vars@
    }

    /// The registered native functions, by name.
    pub closed spec fn natives(&self) -> Map<Seq<char>, Box<dyn NativeFunction>> {
        self.context.functions@
    }

    /// The names of the registered native functions.
    pub open spec fn function_names(&self) -> Set<Seq<char>> {
        self.natives().dom()
    }

    /// What the registered native functions return.
    pub open spec fn native_calls(&self) -> NativeCalls {
        native_results(self.natives())
    }

    /// An evaluator over `context`.
    pub fn new(context: ExecutionContext) -> (r: Self)
        ensures
            r.state() == context.state_vars@,
            r.natives() == context.functions@,
    {
        Evaluator { context }
    }

    /// Evaluates an expression against the context: the result is what
    /// `eval_expr` gives, with each native call's result the one that the
    /// registered function's `result_for` states.
    pub fn evaluate(&self, expr: &Expression) -> (r: EvalResult<Value>)
        ensures
            eval_expr(self.state(), self.function_names(), self.native_calls(), *expr) == Some(
                result_model(r),
            ),
        decreases expr, 1int,
    {
        match expr {
            Expression::Boolean(b) => Ok(Value::Bool(*b)),
            Expression::Int(val) => {
                if *val < 0 {
                    Ok(Value::I64(#[verifier::truncate] (*val as i64)))
                } else if *val <= 18446744073709551615i128 {
                    Ok(Value::U64(*val as u64))
                } else {
                    Ok(Value::U128(*val as u128))
                }
            },
            Expression::Var(_) => self.eval_variable(expr),
            Expression::LayerVar { .. } => self.eval_variable(expr),
            Expression::PhaseQualifiedVar { .. } => self.eval_variable(expr),
            Expression::PhaseConstraint { phase: _, constraint } => self.evaluate(constraint),
            Expression::CrossPhaseRelation { phase1: _, expr1, phase2: _, expr2, op } => {
                let l = self.evaluate(expr1)?;
                let r = self.evaluate(expr2)?;
                self.eval_binary_op(&l, op, &r)
            },
            Expression::BinaryOp { left, op, right } => {
                let l = self.evaluate(left)?;
                let r = self.evaluate(right)?;
                self.eval_binary_op(&l, op, &r)
            },
            Expression::Arithmetic { left, op, right } => {
                let l = self.evaluate(left)?;
                let r = self.evaluate(right)?;
                Self::eval_arith_op(&l, op, &r)
            },
            Expression::Logical { left, op, right } => {
                let lv = self.evaluate(left)?;
                let lb = lv.to_bool()?;
                match op {
                    LogicalOp::And => {
                        if !lb {
                            return Ok(Value::Bool(false));
                        }
                        let rv = self.evaluate(right)?;
                        let rb = rv.to_bool()?;
                        Ok(Value::Bool(rb))
                    },
                    LogicalOp::Or => {
                        if lb {
                            return Ok(Value::Bool(true));
                        }
                        let rv = self.evaluate(right)?;
                        let rb = rv.to_bool()?;
                        Ok(Value::Bool(rb))
                    },
                }
            },
            Expression::Not(inner) => {
                let v = self.evaluate(inner)?;
                let b = v.to_bool()?;
                Ok(Value::Bool(!b))
            },
            Expression::FunctionCall { .. } => self.eval_call(expr),
            Expression::Tuple(items) => {
                if items.len() == 0 {
                    Ok(Value::Bool(true))
                } else {
                    self.evaluate(&items[0])
                }
            },
        }
    }

    /// A variable reference: the qualified name first, then the shorter ones.
    fn eval_variable(&self, expr: &Expression) -> (r: EvalResult<Value>)
        requires
            expr is Var || expr is LayerVar || expr is PhaseQualifiedVar,
        ensures
            eval_expr(self.state(), self.function_names(), self.native_calls(), *expr) == Some(
                result_model(r),
            ),
    {
        match expr {
            Expression::LayerVar { layer, var } => {
                let q = join2(layer.as_str(), var.as_str());
                match self.context.state_vars.get(q.as_str()) {
                    Some(v) => Ok(v.clone()),
                    None => match self.context.state_vars.get(var.as_str()) {
                        Some(v) => Ok(v.clone()),
                        None => Err(EvaluationError::UndefinedVariable(q)),
                    },
                }
            },
            Expression::PhaseQualifiedVar { phase, layer, var } => {
                let q = join3(phase.as_str(), layer.as_str(), var.as_str());
                match self.context.state_vars.get(q.as_str()) {
                    Some(v) => Ok(v.clone()),
                    None => {
                        let lq = join2(layer.as_str(), var.as_str());
                        match self.context.state_vars.get(lq.as_str()) {
                            Some(v) => Ok(v.clone()),
                            None => match self.context.state_vars.get(var.as_str()) {
                                Some(v) => Ok(v.clone()),
                                None => Err(EvaluationError::UndefinedVariable(q)),
                            },
                        }
                    },
                }
            },
            Expression::Var(name) => {
                match self.context.state_vars.get(name.as_str()) {
                    Some(v) => Ok(v.clone()),
                    None => Err(EvaluationError::UndefinedVariable(name.clone())),
                }
            },
            _ => Err(EvaluationError::TypeError),
        }
    }

    /// A call of a native function: its arguments are evaluated left to
    /// right, the first error ends the call, and the function's result is
    /// the call's.
    fn eval_call(&self, expr: &Expression) -> (r: EvalResult<Value>)
        requires
            expr is FunctionCall,
        ensures
            eval_expr(self.state(), self.function_names(), self.native_calls(), *expr) == Some(
                result_model(r),
            ),
        decreases expr, 0int,
    {
        let (name, args) = match expr {
            Expression::FunctionCall { name, args } => (name, args),
            _ => {
                return Err(EvaluationError::TypeError);
            },
        };
        let func = match self.context.functions.get(name.as_str()) {
            Some(f) => f,
            None => {
                return Err(EvaluationError::UndefinedFunction(name.clone()));
            },
        };
        proof {
            assert(self.function_names().contains(name@));
            assert(args@.subrange(0, 0) =~= Seq::<Expression>::empty());
        }
        let ghost st = self.state();
        let ghost fs = self.function_names();
        let ghost cs = self.native_calls();
        let mut vals: Vec<Value> = Vec::new();
        proof {
            assert(vals@.map_values(|v: Value| v@) =~= Seq::<ValueModel>::empty());
            assert(args_values(st, fs, cs, args@.subrange(0, 0)) == Some(
                Ok::<Seq<ValueModel>, ErrorModel>(Seq::empty()),
            ));
        }
        let mut i: usize = 0;
        while i < args.len()
            invariant
                i <= args.len(),
                self.function_names().contains(name@),
                st == self.state(),
                fs == self.function_names(),
                cs == self.native_calls(),
                *expr == (Expression::FunctionCall { name: *name, args: *args }),
                args_values(st, fs, cs, args@.subrange(0, i as int)) == Some(
                    Ok::<Seq<ValueModel>, ErrorModel>(vals@.map_values(|v: Value| v@)),
                ),
            decreases args.len() - i,
        {
            proof {
                broadcast use vstd::std_specs::vec::axiom_vec_index_decreases;

                assert(decreases_to!(*args => args@[i as int]));
                assert(decreases_to!(*expr => args@[i as int]));
            }
            let v = match self.evaluate(&args[i]) {
                Ok(v) => v,
                Err(e) => {
                    proof {
                        let next = args@.subrange(0, i as int + 1);
                        assert(next.drop_last() =~= args@.subrange(0, i as int));
                        assert(next.last() == args@[i as int]);
                        assert(eval_expr(st, fs, cs, args@[i as int]) == Some(
                            Err::<ValueModel, ErrorModel>(e@),
                        ));
                        assert(args_values(st, fs, cs, next) == Some(
                            Err::<Seq<ValueModel>, ErrorModel>(e@),
                        ));
                        lemma_args_values_settled(st, fs, cs, args@, i as int + 1);
                        assert(args@.subrange(0, args@.len() as int) =~= args@);
                        assert(args_values(st, fs, cs, args@) == Some(
                            Err::<Seq<ValueModel>, ErrorModel>(e@),
                        ));
                    }
                    return Err(e);
                },
            };
            let ghost before = vals@;
            vals.push(v);
            proof {
                let next = args@.subrange(0, i as int + 1);
                assert(next.drop_last() =~= args@.subrange(0, i as int));
                assert(next.last() == args@[i as int]);
                assert(vals@.map_values(|x: Value| x@) =~= before.map_values(|x: Value| x@).push(v@));
            }
            i = i + 1;
        }
        proof {
            assert(args@.subrange(0, args@.len() as int) =~= args@);
        }
        let given = vals.as_slice();
        func.call(given)
    }

    /// `left op right` over numbers: `arith_value`.
    fn eval_arith_op(left: &Value, op: &ArithOp, right: &Value) -> (r: EvalResult<Value>)
        ensures
            result_model(r) == arith_value(left@, *op, right@),
    {
        let signed = match (left, right) {
            (Value::I64(_), _) => true,
            (_, Value::I64(_)) => true,
            _ => false,
        };
        if signed {
            let l = Self::signed_operand(left)?;
            let r = Self::signed_operand(right)?;
            let out: i128 = match op {
                ArithOp::Add => match l.checked_add(r) {
                    Some(x) => x,
                    None => {
                        return Err(EvaluationError::Overflow);
                    },
                },
                ArithOp::Sub => match l.checked_sub(r) {
                    Some(x) => x,
                    None => {
                        return Err(EvaluationError::Underflow);
                    },
                },
                ArithOp::Mul => match l.checked_mul(r) {
                    Some(x) => x,
                    None => {
                        return Err(EvaluationError::Overflow);
                    },
                },
                ArithOp::Div => {
                    if r == 0 {
                        return Err(EvaluationError::DivisionByZero);
                    }
                    match l.checked_div(r) {
                        Some(x) => x,
                        None => {
                            return Err(EvaluationError::Overflow);
                        },
                    }
                },
            };
            if out < -9223372036854775808i128 || out > 9223372036854775807i128 {
                return Err(EvaluationError::ConversionOverflow);
            }
            return Ok(Value::I64(out as i64));
        }
        let l = Self::unsigned_operand(left)?;
        let r = Self::unsigned_operand(right)?;
        let out: u128 = match op {
            ArithOp::Add => match l.checked_add(r) {
                Some(x) => x,
                None => {
                    return Err(EvaluationError::Overflow);
                },
            },
            ArithOp::Sub => match l.checked_sub(r) {
                Some(x) => x,
                None => {
                    return Err(EvaluationError::Underflow);
                },
            },
            ArithOp::Mul => match l.checked_mul(r) {
                Some(x) => x,
                None => {
                    return Err(EvaluationError::Overflow);
                },
            },
            ArithOp::Div => {
                if r == 0 {
                    return Err(EvaluationError::DivisionByZero);
                }
                l / r
            },
        };
        if out <= 18446744073709551615u128 {
            Ok(Value::U64(out as u64))
        } else {
            Ok(Value::U128(out))
        }
    }

    fn signed_operand(v: &Value) -> (r: EvalResult<i128>)
        ensures
            match r {
                Ok(x) => signed_operand(v@) == Ok::<int, ErrorModel>(x as int),
                Err(e) => signed_operand(v@) == Err::<int, ErrorModel>(e@),
            },
    {
        match v {
            Value::I64(x) => Ok(*x as i128),
            Value::U64(x) => Ok(*x as i128),
            Value::U128(x) => {
                if *x <= 170141183460469231731687303715884105727u128 {
                    Ok(*x as i128)
                } else {
                    Err(EvaluationError::ConversionOverflow)
                }
            },
            _ => Err(EvaluationError::TypeError),
        }
    }

    fn unsigned_operand(v: &Value) -> (r: EvalResult<u128>)
        ensures
            match r {
                Ok(x) => unsigned_operand(v@) == Ok::<int, ErrorModel>(x as int),
                Err(e) => unsigned_operand(v@) == Err::<int, ErrorModel>(e@),
            },
    {
        match v {
            Value::U64(x) => Ok(*x as u128),
            Value::U128(x) => Ok(*x),
            _ => Err(EvaluationError::TypeError),
        }
    }

    /// `left op right` as a comparison: `compare_value`.
    fn eval_binary_op(&self, left: &Value, op: &BinaryOp, right: &Value) -> (r: EvalResult<Value>)
        ensures
            result_model(r) == compare_value(left@, *op, right@),
    {
        match (Self::as_i256(left), Self::as_i256(right)) {
            (Some(l), Some(r)) => {
                let b = match op {
                    BinaryOp::Eq => l == r,
                    BinaryOp::Neq => l != r,
                    BinaryOp::Lt => l < r,
                    BinaryOp::Gt => l > r,
                    BinaryOp::Lte => l <= r,
                    BinaryOp::Gte => l >= r,
                };
                Ok(Value::Bool(b))
            },
            _ => match op {
                BinaryOp::Eq => Ok(Value::Bool(same_value(left, right))),
                BinaryOp::Neq => Ok(Value::Bool(!same_value(left, right))),
                _ => Err(EvaluationError::TypeError),
            },
        }
    }

    /// A number widened to `i128` for comparison; `None` for a value that is
    /// not a number or a `u128` above `i128::MAX`.
    fn as_i256(v: &Value) -> (r: Option<i128>)
        ensures
            match r {
                Some(x) => wide_of(v@) == Some(x as int),
                None => wide_of(v@) is None,
            },
    {
        match v {
            Value::U64(x) => Some(*x as i128),
            Value::I64(x) => Some(*x as i128),
            Value::U128(x) => {
                if *x <= 170141183460469231731687303715884105727u128 {
                    Some(*x as i128)
                } else {
                    None
                }
            },
            _ => None,
        }
    }
}


/// The number a value stands for, where it is a number.
pub open spec fn number(v: ValueModel) -> Option<int> {
    match v {
        ValueModel::U64(n) => Some(n as int),
        ValueModel::U128(n) => Some(n as int),
        ValueModel::I64(n) => Some(n as int),
        _ => None,
    }
}

/// The exact result of `l op r` on integers, division rounding toward zero.
pub open spec fn exact_arith(l: int, op: ArithOp, r: int) -> int {
    match op {
        ArithOp::Add => l + r,
        ArithOp::Sub => l - r,
        ArithOp::Mul => l * r,
        ArithOp::Div => trunc_div(l, r),
    }
}

/// Arithmetic is checked, never wrapped: whenever `left op right` evaluates
/// to a value, both operands are numbers and the value is the exact
/// mathematical result of the operation on them.
pub proof fn lemma_arithmetic_is_exact(left: ValueModel, op: ArithOp, right: ValueModel)
    ensures
        arith_value(left, op, right) is Ok ==> {
            &&& number(left) is Some
            &&& number(right) is Some
            &&& number(arith_value(left, op, right)->Ok_0) == Some(
                exact_arith(number(left)->0, op, number(right)->0),
            )
        },
{
}

/// Numbers are compared by value, whatever their widths, wherever both fit
/// in an `i128`: `U64(5) == U128(5)` and `U64(5) < U128(6)` hold.
pub proof fn lemma_compare_by_value(left: ValueModel, op: BinaryOp, right: ValueModel)
    requires
        number(left) is Some,
        number(right) is Some,
        number(left)->0 <= i128::MAX,
        number(right)->0 <= i128::MAX,
    ensures
        compare_value(left, op, right) == Ok::<ValueModel, ErrorModel>(
            ValueModel::Bool(compare_ints(number(left)->0, op, number(right)->0)),
        ),
        op == BinaryOp::Eq ==> compare_value(left, op, right) == Ok::<ValueModel, ErrorModel>(
            ValueModel::Bool(number(left)->0 == number(right)->0),
        ),
        op == BinaryOp::Neq ==> compare_value(left, op, right) == Ok::<ValueModel, ErrorModel>(
            ValueModel::Bool(number(left)->0 != number(right)->0),
        ),
        op == BinaryOp::Lt ==> compare_value(left, op, right) == Ok::<ValueModel, ErrorModel>(
            ValueModel::Bool(number(left)->0 < number(right)->0),
        ),
        op == BinaryOp::Lte ==> compare_value(left, op, right) == Ok::<ValueModel, ErrorModel>(
            ValueModel::Bool(number(left)->0 <= number(right)->0),
        ),
        op == BinaryOp::Gt ==> compare_value(left, op, right) == Ok::<ValueModel, ErrorModel>(
            ValueModel::Bool(number(left)->0 > number(right)->0),
        ),
        op == BinaryOp::Gte ==> compare_value(left, op, right) == Ok::<ValueModel, ErrorModel>(
            ValueModel::Bool(number(left)->0 >= number(right)->0),
        ),
{
}

/// A comparison of two expressions that evaluate to numbers within `i128`
/// evaluates to the integer relation its operator names: `==` equality,
/// `!=` inequality, `<`, `<=`, `>`, `>=` the orders; in particular
/// `x <= x` and `x >= x` hold and `x < x` does not.
pub proof fn lemma_comparison_operators(
    state: Map<Seq<char>, Value>,
    funcs: Set<Seq<char>>,
    calls: NativeCalls,
    left: Expression,
    op: BinaryOp,
    right: Expression,
    a: ValueModel,
    b: ValueModel,
)
    requires
        eval_expr(state, funcs, calls, left) == Some(Ok::<ValueModel, ErrorModel>(a)),
        eval_expr(state, funcs, calls, right) == Some(Ok::<ValueModel, ErrorModel>(b)),
        number(a) is Some,
        number(b) is Some,
        number(a)->0 <= i128::MAX,
        number(b)->0 <= i128::MAX,
    ensures
        ({
            let x = number(a)->0;
            let y = number(b)->0;
            let e = Expression::BinaryOp { left: Box::new(left), op, right: Box::new(right) };
            let v = eval_expr(state, funcs, calls, e);
            &&& op == BinaryOp::Eq ==> v == Some(Ok::<ValueModel, ErrorModel>(ValueModel::Bool(x == y)))
            &&& op == BinaryOp::Neq ==> v == Some(Ok::<ValueModel, ErrorModel>(ValueModel::Bool(x != y)))
            &&& op == BinaryOp::Lt ==> v == Some(Ok::<ValueModel, ErrorModel>(ValueModel::Bool(x < y)))
            &&& op == BinaryOp::Lte ==> v == Some(Ok::<ValueModel, ErrorModel>(ValueModel::Bool(x <= y)))
            &&& op == BinaryOp::Gt ==> v == Some(Ok::<ValueModel, ErrorModel>(ValueModel::Bool(x > y)))
            &&& op == BinaryOp::Gte ==> v == Some(Ok::<ValueModel, ErrorModel>(ValueModel::Bool(x >= y)))
        }),
{
    lemma_compare_by_value(a, op, b);
}

/// Once the arguments up to `i` end in an error, evaluating more arguments
/// keeps that error.
pub proof fn lemma_args_values_settled(
    state: Map<Seq<char>, Value>,
    funcs: Set<Seq<char>>,
    calls: NativeCalls,
    args: Seq<Expression>,
    i: int,
)
    requires
        0 <= i <= args.len(),
        args_values(state, funcs, calls, args.subrange(0, i)) matches Some(Err(_)),
    ensures
        args_values(state, funcs, calls, args) == args_values(state, funcs, calls, args.subrange(0, i)),
    decreases args.len() - i,
{
    if i < args.len() {
        let next = args.subrange(0, i + 1);
        assert(next.drop_last() =~= args.subrange(0, i));
        lemma_args_values_settled(state, funcs, calls, args, i + 1);
    } else {
        assert(args.subrange(0, i) =~= args);
    }
}

/// `&&` and `||` short-circuit: once the left side evaluates to a value whose
/// truth decides the result, the right side is not evaluated, so it may be
/// anything, an undefined variable included.
pub proof fn lemma_logical_short_circuit(
    state: Map<Seq<char>, Value>,
    funcs: Set<Seq<char>>,
    calls: NativeCalls,
    left: Expression,
    right: Expression,
)
    ensures
        (eval_expr(state, funcs, calls, left) matches Some(Ok(l)) && !truth(l)) ==> eval_expr(
            state,
            funcs,
            calls,
            Expression::Logical { left: Box::new(left), op: LogicalOp::And, right: Box::new(right) },
        ) == Some(Ok::<ValueModel, ErrorModel>(ValueModel::Bool(false))),
        (eval_expr(state, funcs, calls, left) matches Some(Ok(l)) && truth(l)) ==> eval_expr(
            state,
            funcs,
            calls,
            Expression::Logical { left: Box::new(left), op: LogicalOp::Or, right: Box::new(right) },
        ) == Some(Ok::<ValueModel, ErrorModel>(ValueModel::Bool(true))),
{
}

/// Evaluation looks only at what an expression says: two expressions that
/// are the same have the same outcome.
pub proof fn lemma_eval_same_expr(
    state: Map<Seq<char>, Value>,
    funcs: Set<Seq<char>>,
    calls: NativeCalls,
    a: Expression,
    b: Expression,
)
    requires
        same_expr(a, b),
    ensures
        eval_expr(state, funcs, calls, a) == eval_expr(state, funcs, calls, b),
    decreases a, 0int,
{
    match a {
        Expression::PhaseConstraint { phase: _, constraint } => {
            if let Expression::PhaseConstraint { phase: _, constraint: c2 } = b {
                lemma_eval_same_expr(state, funcs, calls, *constraint, *c2);
            }
        },
        Expression::CrossPhaseRelation { phase1: _, expr1, phase2: _, expr2, op: _ } => {
            if let Expression::CrossPhaseRelation { phase1: _, expr1: f1, phase2: _, expr2: f2, op: _ } = b {
                lemma_eval_same_expr(state, funcs, calls, *expr1, *f1);
                lemma_eval_same_expr(state, funcs, calls, *expr2, *f2);
            }
        },
        Expression::BinaryOp { left, op: _, right } => {
            if let Expression::BinaryOp { left: l2, op: _, right: r2 } = b {
                lemma_eval_same_expr(state, funcs, calls, *left, *l2);
                lemma_eval_same_expr(state, funcs, calls, *right, *r2);
            }
        },
        Expression::Arithmetic { left, op: _, right } => {
            if let Expression::Arithmetic { left: l2, op: _, right: r2 } = b {
                lemma_eval_same_expr(state, funcs, calls, *left, *l2);
                lemma_eval_same_expr(state, funcs, calls, *right, *r2);
            }
        },
        Expression::Logical { left, op: _, right } => {
            if let Expression::Logical { left: l2, op: _, right: r2 } = b {
                lemma_eval_same_expr(state, funcs, calls, *left, *l2);
                lemma_eval_same_expr(state, funcs, calls, *right, *r2);
            }
        },
        Expression::Not(inner) => {
            if let Expression::Not(i2) = b {
                lemma_eval_same_expr(state, funcs, calls, *inner, *i2);
            }
        },
        Expression::FunctionCall { name: _, args } => {
            if let Expression::FunctionCall { name: _, args: a2 } = b {
                lemma_same_exprs_from(args@, a2@, 0);
                lemma_args_same_values(state, funcs, calls, args@, a2@);
            }
        },
        Expression::Tuple(items) => {
            if let Expression::Tuple(i2) = b {
                lemma_same_exprs_from(items@, i2@, 0);
                if items@.len() > 0 {
                    assert(same_expr(items@[0], i2@[0]));
                    lemma_eval_same_expr(state, funcs, calls, items@[0], i2@[0]);
                }
            }
        },
        _ => {},
    }
}

proof fn lemma_args_same_values(
    state: Map<Seq<char>, Value>,
    funcs: Set<Seq<char>>,
    calls: NativeCalls,
    xs: Seq<Expression>,
    ys: Seq<Expression>,
)
    requires
        xs.len() == ys.len(),
        forall|j: int| 0 <= j < xs.len() ==> #[trigger] same_expr(xs[j], ys[j]),
    ensures
        args_values(state, funcs, calls, xs) == args_values(state, funcs, calls, ys),
    decreases xs, 1int,
{
    if xs.len() > 0 {
        let n = xs.len() - 1;
        assert(same_expr(xs[n], ys[n]));
        assert(decreases_to!(xs => xs[n]));
        lemma_eval_same_expr(state, funcs, calls, xs[n], ys[n]);
        assert forall|j: int| 0 <= j < xs.drop_last().len() implies #[trigger] same_expr(
            xs.drop_last()[j],
            ys.drop_last()[j],
        ) by {
            assert(same_expr(xs[j], ys[j]));
        }
        assert(decreases_to!(xs => xs.drop_last()));
        lemma_args_same_values(state, funcs, calls, xs.drop_last(), ys.drop_last());
    }
}

/// Without native functions the library decides every expression, whatever
/// native results are assumed: a call is then an undefined function.
pub proof fn lemma_eval_decided(state: Map<Seq<char>, Value>, calls: NativeCalls, e: Expression)
    ensures
        eval_expr(state, Set::empty(), calls, e) is Some,
        eval_expr(state, Set::empty(), calls, e) == eval_expr(state, Set::empty(), no_native_calls(), e),
    decreases e,
{
    match e {
        Expression::PhaseConstraint { phase: _, constraint } => {
            lemma_eval_decided(state, calls, *constraint);
        },
        Expression::CrossPhaseRelation { phase1: _, expr1, phase2: _, expr2, op: _ } => {
            lemma_eval_decided(state, calls, *expr1);
            lemma_eval_decided(state, calls, *expr2);
        },
        Expression::BinaryOp { left, op: _, right } => {
            lemma_eval_decided(state, calls, *left);
            lemma_eval_decided(state, calls, *right);
        },
        Expression::Arithmetic { left, op: _, right } => {
            lemma_eval_decided(state, calls, *left);
            lemma_eval_decided(state, calls, *right);
        },
        Expression::Logical { left, op: _, right } => {
            lemma_eval_decided(state, calls, *left);
            lemma_eval_decided(state, calls, *right);
        },
        Expression::Not(inner) => {
            lemma_eval_decided(state, calls, *inner);
        },
        Expression::Tuple(items) => {
            if items@.len() > 0 {
                lemma_eval_decided(state, calls, items@[0]);
            }
        },
        _ => {},
    }
}

/// Evaluation is deterministic: evaluators over the same state and the same
/// native functions give an expression the same result.
pub proof fn lemma_evaluation_deterministic(
    a: Evaluator,
    b: Evaluator,
    e: Expression,
    ra: EvalResult<Value>,
    rb: EvalResult<Value>,
)
    requires
        a.state() == b.state(),
        a.natives() == b.natives(),
        eval_expr(a.state(), a.function_names(), a.native_calls(), e) == Some(result_model(ra)),
        eval_expr(b.state(), b.function_names(), b.native_calls(), e) == Some(result_model(rb)),
    ensures
        result_model(ra) == result_model(rb),
{
}


/// `&&`, `||` and `!` on booleans are conjunction, disjunction and negation:
/// with operands that evaluate to `p` and `q`, `l && r` is `p && q`,
/// `l || r` is `p || q`, and `!l` is `!p`.
pub proof fn lemma_boolean_connectives(
    state: Map<Seq<char>, Value>,
    funcs: Set<Seq<char>>,
    calls: NativeCalls,
    left: Expression,
    right: Expression,
    p: bool,
    q: bool,
)
    requires
        eval_expr(state, funcs, calls, left) == Some(Ok::<ValueModel, ErrorModel>(ValueModel::Bool(p))),
        eval_expr(state, funcs, calls, right) == Some(Ok::<ValueModel, ErrorModel>(ValueModel::Bool(q))),
    ensures
        eval_expr(
            state,
            funcs,
            calls,
            Expression::Logical { left: Box::new(left), op: LogicalOp::And, right: Box::new(right) },
        ) == Some(Ok::<ValueModel, ErrorModel>(ValueModel::Bool(p && q))),
        eval_expr(
            state,
            funcs,
            calls,
            Expression::Logical { left: Box::new(left), op: LogicalOp::Or, right: Box::new(right) },
        ) == Some(Ok::<ValueModel, ErrorModel>(ValueModel::Bool(p || q))),
        eval_expr(state, funcs, calls, Expression::Not(Box::new(left))) == Some(
            Ok::<ValueModel, ErrorModel>(ValueModel::Bool(!p)),
        ),
{
}

/// Booleans compare only for equality: with operands that evaluate to `p`
/// and `q`, `==` is `p == q`, `!=` is `p != q`, and an order is a type
/// error.
pub proof fn lemma_boolean_comparisons(
    state: Map<Seq<char>, Value>,
    funcs: Set<Seq<char>>,
    calls: NativeCalls,
    left: Expression,
    op: BinaryOp,
    right: Expression,
    p: bool,
    q: bool,
)
    requires
        eval_expr(state, funcs, calls, left) == Some(Ok::<ValueModel, ErrorModel>(ValueModel::Bool(p))),
        eval_expr(state, funcs, calls, right) == Some(Ok::<ValueModel, ErrorModel>(ValueModel::Bool(q))),
    ensures
        ({
            let v = eval_expr(
                state,
                funcs,
                calls,
                Expression::BinaryOp { left: Box::new(left), op, right: Box::new(right) },
            );
            &&& op == BinaryOp::Eq ==> v == Some(Ok::<ValueModel, ErrorModel>(ValueModel::Bool(p == q)))
            &&& op == BinaryOp::Neq ==> v == Some(Ok::<ValueModel, ErrorModel>(ValueModel::Bool(p != q)))
            &&& (op != BinaryOp::Eq && op != BinaryOp::Neq) ==> v == Some(
                Err::<ValueModel, ErrorModel>(ErrorModel::TypeError),
            )
        }),
{
}


/// Unsigned arithmetic (no `i64` operand) succeeds exactly when the exact
/// result is a `u128` and no division is by zero: it is then that result, a
/// `u64` where it fits and a `u128` otherwise; division by zero, a negative
/// difference and a result above `u128::MAX` are the matching errors.
pub proof fn lemma_unsigned_arithmetic(left: ValueModel, op: ArithOp, right: ValueModel)
    requires
        left is U64 || left is U128,
        right is U64 || right is U128,
    ensures
        ({
            let x = number(left)->0;
            let y = number(right)->0;
            let e = exact_arith(x, op, y);
            let v = arith_value(left, op, right);
            &&& (op == ArithOp::Div && y == 0) ==> v == Err::<ValueModel, ErrorModel>(ErrorModel::DivisionByZero)
            &&& (op == ArithOp::Sub && x < y) ==> v == Err::<ValueModel, ErrorModel>(ErrorModel::Underflow)
            &&& ((op == ArithOp::Add || op == ArithOp::Mul) && e > u128::MAX) ==> v == Err::<
                ValueModel,
                ErrorModel,
            >(ErrorModel::Overflow)
            &&& ((op != ArithOp::Div || y != 0) && 0 <= e <= u64::MAX) ==> v == Ok::<ValueModel, ErrorModel>(
                ValueModel::U64(e as u64),
            )
            &&& ((op != ArithOp::Div || y != 0) && u64::MAX < e <= u128::MAX) ==> v == Ok::<
                ValueModel,
                ErrorModel,
            >(ValueModel::U128(e as u128))
        }),
{
    let x = number(left)->0;
    let y = number(right)->0;
    if op == ArithOp::Div && y != 0 {
        assert(x / y >= 0) by (nonlinear_arith)
            requires
                x >= 0,
                y > 0,
        ;
    }
    if op == ArithOp::Mul {
        assert(x * y >= 0) by (nonlinear_arith)
            requires
                x >= 0,
                y >= 0,
        ;
    }
}

/// Signed arithmetic (an `i64` operand) on operands that fit in an `i128`
/// gives the exact result as an `i64` wherever it fits one and no division
/// is by zero; division by zero is an error.
pub proof fn lemma_signed_arithmetic(left: ValueModel, op: ArithOp, right: ValueModel)
    requires
        left is I64 || right is I64,
        number(left) is Some,
        number(right) is Some,
        number(left)->0 <= i128::MAX,
        number(right)->0 <= i128::MAX,
    ensures
        ({
            let x = number(left)->0;
            let y = number(right)->0;
            let e = exact_arith(x, op, y);
            let v = arith_value(left, op, right);
            &&& (op == ArithOp::Div && y == 0) ==> v == Err::<ValueModel, ErrorModel>(ErrorModel::DivisionByZero)
            &&& ((op != ArithOp::Div || y != 0) && i64::MIN <= e <= i64::MAX) ==> v == Ok::<
                ValueModel,
                ErrorModel,
            >(ValueModel::I64(e as i64))
        }),
{
}

} // verus!
