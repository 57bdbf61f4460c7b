//! The type system of invariant expressions: strict, with no implicit
//! conversions, and with explicit errors.
use vstd::prelude::*;
use crate::model::Expression;
use crate::text::{dec_digits, push_str, push_u128, string_from};

verus! {

/// A type of the invariant language: deterministic, with no floating point
/// and no null.
#[derive(Debug, Clone, Copy, PartialEq, Eq, Structural, Hash)]
pub enum Type {
    /// Boolean type.
    Bool,
    /// 64-bit unsigned integer.
    U64,
    /// 128-bit unsigned integer.
    U128,
    /// 64-bit signed integer.
    I64,
    /// Address type (chain-specific representation).
    Address,
}

/// The numeric types.
pub open spec fn numeric(t: Type) -> bool {
    t == Type::U64 || t == Type::U128 || t == Type::I64
}

/// The name of a type.
pub open spec fn type_label(t: Type) -> Seq<char> {
    match t {
        Type::Bool => "bool"@,
        Type::U64 => "u64"@,
        Type::U128 => "u128"@,
        Type::I64 => "i64"@,
        Type::Address => "address"@,
    }
}

impl Type {
    /// Whether this type is numeric.
    pub fn is_numeric(self) -> (r: bool)
        ensures
            r == numeric(self),
    {
        match self {
            Type::U64 | Type::U128 | Type::I64 => true,
            _ => false,
        }
    }

    /// Whether this type is a primitive; every type of the language is.
    pub fn is_primitive(self) -> (r: bool)
        ensures
            r,
    {
        match self {
            Type::Bool | Type::U64 | Type::U128 | Type::I64 | Type::Address => true,
        }
    }

    /// A human-readable name for this type.
    pub fn name(self) -> (r: &'static str)
        ensures
            r@ == type_label(self),
    {
        match self {
            Type::Bool => "bool",
            Type::U64 => "u64",
            Type::U128 => "u128",
            Type::I64 => "i64",
            Type::Address => "address",
        }
    }

    /// The name of this type, as its display text.
    pub fn to_string(&self) -> (r: String)
        ensures
            r@ == type_label(*self),
    {
        string_from(self.name())
    }
}

/// A value with its static type information.
#[derive(Debug, Clone, PartialEq, Eq)]
pub struct TypedValue {
    /// The static type.
    pub ty: Type,
    /// Serialized value (for inspection/logging).
    pub value: String,
}

impl TypedValue {
    /// A typed value.
    pub fn new(ty: Type, value: String) -> (r: Self)
        ensures
            r.ty == ty,
            r.value == value,
    {
        TypedValue { ty, value }
    }
}

/// A typed expression after type checking.
#[derive(Debug, Clone)]
pub struct TypedExpr {
    /// The expression.
    pub expr: Expression,
    /// The verified type.
    pub ty: Type,
}

impl TypedExpr {
    /// A typed expression.
    pub fn new(expr: Expression, ty: Type) -> (r: Self)
        ensures
            r.expr == expr,
            r.ty == ty,
    {
        TypedExpr { expr, ty }
    }
}

/// Type checking errors.
#[derive(Debug, Clone, PartialEq, Eq)]
pub enum TypeError {
    /// Unknown identifier.
    UndefinedVariable(String),
    /// Unknown function.
    UndefinedFunction(String),
    /// Type mismatch in binary operation.
    BinaryOpTypeMismatch {
        /// Left operand type.
        left: Type,
        /// Operator.
        op: String,
        /// Right operand type.
        right: Type,
    },
    /// Type mismatch in unary operation.
    UnaryOpTypeMismatch {
        /// Operator.
        op: String,
        /// Operand type.
        operand: Type,
    },
    /// Function argument type mismatch.
    FunctionArgMismatch {
        /// Function name.
        function: String,
        /// Parameter index.
        param_idx: usize,
        /// Expected type.
        expected: Type,
        /// Actual type.
        actual: Type,
    },
    /// Logical operator requires boolean operand.
    LogicalOpRequiresBool {
        /// Operator.
        op: String,
        /// Actual type.
        actual: Type,
    },
    /// Comparison not allowed between types.
    IncomparableTypes {
        /// Left type.
        left: Type,
        /// Right type.
        right: Type,
    },
    /// Custom error message.
    Custom(String),
}

/// The message of a type error.
pub open spec fn type_error_text(e: TypeError) -> Seq<char> {
    match e {
        TypeError::UndefinedVariable(name) => "undefined variable '"@ + name@ + "'"@,
        TypeError::UndefinedFunction(name) => "undefined function '"@ + name@ + "'"@,
        TypeError::BinaryOpTypeMismatch { left, op, right } => "type mismatch in binary operation: "@
            + type_label(left) + " "@ + op@ + " "@ + type_label(right) + " is invalid"@,
        TypeError::UnaryOpTypeMismatch { op, operand } => "type mismatch in unary operation: "@
            + op@ + "("@ + type_label(operand) + ") is invalid"@,
        TypeError::FunctionArgMismatch { function, param_idx, expected, actual } => "function '"@
            + function@ + "' parameter "@ + dec_digits(param_idx as nat) + " expects "@ + type_label(
            expected,
        ) + " but got "@ + type_label(actual),
        TypeError::LogicalOpRequiresBool { op, actual } => "logical operator '"@ + op@
            + "' requires bool operand, got "@ + type_label(actual),
        TypeError::IncomparableTypes { left, right } => "cannot compare "@ + type_label(left)
            + " and "@ + type_label(right),
        TypeError::Custom(msg) => msg@,
    }
}

impl TypeError {
    /// The message of this error.
    pub fn to_string(&self) -> (r: String)
        ensures
            r@ == type_error_text(*self),
    {
        let mut out = String::new();
        match self {
            TypeError::UndefinedVariable(name) => {
                push_str(&mut out, "undefined variable '");
                push_str(&mut out, name.as_str());
                push_str(&mut out, "'");
            },
            TypeError::UndefinedFunction(name) => {
                push_str(&mut out, "undefined function '");
                push_str(&mut out, name.as_str());
                push_str(&mut out, "'");
            },
            TypeError::BinaryOpTypeMismatch { left, op, right } => {
                push_str(&mut out, "type mismatch in binary operation: ");
                push_str(&mut out, left.name());
                push_str(&mut out, " ");
                push_str(&mut out, op.as_str());
                push_str(&mut out, " ");
                push_str(&mut out, right.name());
                push_str(&mut out, " is invalid");
            },
            TypeError::UnaryOpTypeMismatch { op, operand } => {
                push_str(&mut out, "type mismatch in unary operation: ");
                push_str(&mut out, op.as_str());
                push_str(&mut out, "(");
                push_str(&mut out, operand.name());
                push_str(&mut out, ") is invalid");
            },
            TypeError::FunctionArgMismatch { function, param_idx, expected, actual } => {
                push_str(&mut out, "function '");
                push_str(&mut out, function.as_str());
                push_str(&mut out, "' parameter ");
                push_u128(&mut out, *param_idx as u128);
                push_str(&mut out, " expects ");
                push_str(&mut out, expected.name());
                push_str(&mut out, " but got ");
                push_str(&mut out, actual.name());
            },
            TypeError::LogicalOpRequiresBool { op, actual } => {
                push_str(&mut out, "logical operator '");
                push_str(&mut out, op.as_str());
                push_str(&mut out, "' requires bool operand, got ");
                push_str(&mut out, actual.name());
            },
            TypeError::IncomparableTypes { left, right } => {
                push_str(&mut out, "cannot compare ");
                push_str(&mut out, left.name());
                push_str(&mut out, " and ");
                push_str(&mut out, right.name());
            },
            TypeError::Custom(msg) => {
                push_str(&mut out, msg.as_str());
            },
        }
        assert(out@ =~= type_error_text(*self));
        out
    }
}

/// Result type for type checking operations.
pub type TypeResult<T> = Result<T, TypeError>;

} // verus!
