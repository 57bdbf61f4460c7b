//! Static type checking of invariant expressions before code generation:
//! strict, deterministic, with no implicit conversions.
use vstd::prelude::*;
use crate::model::{ArithOp, BinaryOp, Expression, LogicalOp, ProgramModel, StateVar, arith_symbol, same_expr};
use crate::strmap::StrMap;
use crate::text::{dec_digits, push_str, push_u128, string_from, to_lowercase, unicode_lowercase};
use crate::types::{Type, TypeError, TypeResult, TypedExpr, numeric};

verus! {

/// A function signature: parameter types and return type.
#[derive(Debug)]
pub struct FunctionSignature {
    /// Parameter types in order.
    pub params: Vec<Type>,
    /// Return type.
    pub return_type: Type,
}

impl Clone for FunctionSignature {
    fn clone(&self) -> (r: Self)
        ensures
            r.params@ == self.params@,
            r.return_type == self.return_type,
    {
        let mut params: Vec<Type> = Vec::new();
        let mut i: usize = 0;
        while i < self.params.len()
            invariant
                i <= self.params.len(),
                params@ == self.params@.subrange(0, i as int),
            decreases self.params.len() - i,
        {
            params.push(self.params[i]);
            i = i + 1;
        }
        assert(params@ =~= self.params@);
        FunctionSignature { params, return_type: self.return_type }
    }
}

/// What a `TypeError` is, with its texts taken as characters.
pub enum TypeErrorModel {
    UndefinedVariable(Seq<char>),
    UndefinedFunction(Seq<char>),
    BinaryOpTypeMismatch { left: Type, op: Seq<char>, right: Type },
    UnaryOpTypeMismatch { op: Seq<char>, operand: Type },
    FunctionArgMismatch { function: Seq<char>, param_idx: int, expected: Type, actual: Type },
    LogicalOpRequiresBool { op: Seq<char>, actual: Type },
    IncomparableTypes { left: Type, right: Type },
    Custom(Seq<char>),
}

impl View for TypeError {
    type V = TypeErrorModel;

    open spec fn view(&self) -> TypeErrorModel {
        match self {
            TypeError::UndefinedVariable(s) => TypeErrorModel::UndefinedVariable(s@),
            TypeError::UndefinedFunction(s) => TypeErrorModel::UndefinedFunction(s@),
            TypeError::BinaryOpTypeMismatch { left, op, right } =>
                TypeErrorModel::BinaryOpTypeMismatch { left: *left, op: op@, right: *right },
            TypeError::UnaryOpTypeMismatch { op, operand } => TypeErrorModel::UnaryOpTypeMismatch {
                op: op@,
                operand: *operand,
            },
            TypeError::FunctionArgMismatch { function, param_idx, expected, actual } =>
                TypeErrorModel::FunctionArgMismatch {
                function: function@,
                param_idx: *param_idx as int,
                expected: *expected,
                actual: *actual,
            },
            TypeError::LogicalOpRequiresBool { op, actual } =>
                TypeErrorModel::LogicalOpRequiresBool { op: op@, actual: *actual },
            TypeError::IncomparableTypes { left, right } => TypeErrorModel::IncomparableTypes {
                left: *left,
                right: *right,
            },
            TypeError::Custom(s) => TypeErrorModel::Custom(s@),
        }
    }
}

/// The model of a type checking result.
pub open spec fn type_result_model(r: TypeResult<Type>) -> Result<Type, TypeErrorModel> {
    match r {
        Ok(t) => Ok(t),
        Err(e) => Err(e@),
    }
}

/// The type of a comparison `l op r` of operands of types `lt` and `rt`:
/// equality needs equal types, ordering needs one numeric type.
pub open spec fn comparison_type(lt: Type, op: BinaryOp, rt: Type) -> Result<Type, TypeErrorModel> {
    if op == BinaryOp::Eq || op == BinaryOp::Neq {
        if lt != rt {
            Err(TypeErrorModel::IncomparableTypes { left: lt, right: rt })
        } else {
            Ok(Type::Bool)
        }
    } else if !numeric(lt) || !numeric(rt) {
        Err(TypeErrorModel::IncomparableTypes { left: lt, right: rt })
    } else if lt != rt {
        Err(TypeErrorModel::BinaryOpTypeMismatch { left: lt, op: relation_symbol(op), right: rt })
    } else {
        Ok(Type::Bool)
    }
}

/// The symbol of an ordering operator.
pub open spec fn relation_symbol(op: BinaryOp) -> Seq<char> {
    match op {
        BinaryOp::Lt => "<"@,
        BinaryOp::Gt => ">"@,
        BinaryOp::Lte => "<="@,
        BinaryOp::Gte => ">="@,
        _ => "unknown"@,
    }
}

/// The type of an arithmetic result: numbers only, widened to `u128` if
/// either side is, else to `i64` if either side is, else `u64`.
pub open spec fn arithmetic_type(lt: Type, op: ArithOp, rt: Type) -> Result<Type, TypeErrorModel> {
    if !numeric(lt) || !numeric(rt) {
        Err(TypeErrorModel::BinaryOpTypeMismatch { left: lt, op: arith_symbol(op), right: rt })
    } else if lt == Type::U128 || rt == Type::U128 {
        Ok(Type::U128)
    } else if lt == Type::I64 || rt == Type::I64 {
        Ok(Type::I64)
    } else {
        Ok(Type::U64)
    }
}

/// The symbol of a logical operator, as error messages show it.
pub open spec fn logical_name(op: LogicalOp) -> Seq<char> {
    match op {
        LogicalOp::And => "&&"@,
        LogicalOp::Or => "||"@,
    }
}

/// The type of `l op r` for a logical operator: both sides must be `bool`.
pub open spec fn logical_type(lt: Type, op: LogicalOp, rt: Type) -> Result<Type, TypeErrorModel> {
    if lt != Type::Bool {
        Err(TypeErrorModel::LogicalOpRequiresBool { op: logical_name(op), actual: lt })
    } else if rt != Type::Bool {
        Err(TypeErrorModel::LogicalOpRequiresBool { op: logical_name(op), actual: rt })
    } else {
        Ok(Type::Bool)
    }
}

/// The message for a call with the wrong number of arguments.
pub open spec fn arity_message(name: Seq<char>, expected: nat, got: nat) -> Seq<char> {
    "function '"@ + name + "' expects "@ + dec_digits(expected) + " arguments but got "@
        + dec_digits(got)
}

/// The type of `e` with state variables typed by `vars` and functions by
/// `funcs`, or the first error in evaluation order.
pub open spec fn infer(
    vars: Map<Seq<char>, Type>,
    funcs: Map<Seq<char>, FunctionSignature>,
    e: Expression,
) -> Result<Type, TypeErrorModel>
    decreases e, 0int,
{
    match e {
        Expression::Boolean(_) => Ok(Type::Bool),
        Expression::Int(v) => if v < 0 {
            Ok(Type::I64)
        } else if v <= u64::MAX {
            Ok(Type::U64)
        } else {
            Ok(Type::U128)
        },
        Expression::Var(name) => if vars.contains_key(name@) {
            Ok(vars[name@])
        } else {
            Err(TypeErrorModel::UndefinedVariable(name@))
        },
        Expression::LayerVar { layer, var } => if vars.contains_key(var@) {
            Ok(vars[var@])
        } else {
            Err(TypeErrorModel::UndefinedVariable(layer@ + "::"@ + var@))
        },
        Expression::PhaseQualifiedVar { phase: _, layer, var } => if vars.contains_key(var@) {
            Ok(vars[var@])
        } else {
            Err(TypeErrorModel::UndefinedVariable(layer@ + "::"@ + var@))
        },
        Expression::PhaseConstraint { phase: _, constraint } => infer(vars, funcs, *constraint),
        Expression::CrossPhaseRelation { phase1: _, expr1, phase2: _, expr2, op: _ } => {
            match infer(vars, funcs, *expr1) {
                Err(err) => Err(err),
                Ok(lt) => match infer(vars, funcs, *expr2) {
                    Err(err) => Err(err),
                    Ok(rt) => match comparison_type(lt, BinaryOp::Eq, rt) {
                        Err(err) => Err(err),
                        Ok(_) => Ok(Type::Bool),
                    },
                },
            }
        },
        Expression::BinaryOp { left, op, right } => match infer(vars, funcs, *left) {
            Err(err) => Err(err),
            Ok(lt) => match infer(vars, funcs, *right) {
                Err(err) => Err(err),
                Ok(rt) => comparison_type(lt, op, rt),
            },
        },
        Expression::Arithmetic { left, op, right } => match infer(vars, funcs, *left) {
            Err(err) => Err(err),
            Ok(lt) => match infer(vars, funcs, *right) {
                Err(err) => Err(err),
                Ok(rt) => arithmetic_type(lt, op, rt),
            },
        },
        Expression::Logical { left, op, right } => match infer(vars, funcs, *left) {
            Err(err) => Err(err),
            Ok(lt) => match infer(vars, funcs, *right) {
                Err(err) => Err(err),
                Ok(rt) => logical_type(lt, op, rt),
            },
        },
        Expression::Not(inner) => match infer(vars, funcs, *inner) {
            Err(err) => Err(err),
            Ok(t) => if t != Type::Bool {
                Err(TypeErrorModel::UnaryOpTypeMismatch { op: "!"@, operand: t })
            } else {
                Ok(Type::Bool)
            },
        },
        Expression::FunctionCall { name, args } => if !funcs.contains_key(name@) {
            Err(TypeErrorModel::UndefinedFunction(name@))
        } else if args.len() != funcs[name@].params.len() {
            Err(
                TypeErrorModel::Custom(
                    arity_message(name@, funcs[name@].params.len() as nat, args.len() as nat),
                ),
            )
        } else {
            match args_typed(vars, funcs, name@, args@, funcs[name@].params@, 0) {
                Err(err) => Err(err),
                Ok(_) => Ok(funcs[name@].return_type),
            }
        },
        Expression::Tuple(items) => if items.len() == 0 {
            Ok(Type::Bool)
        } else {
            match items_typed(vars, funcs, items@, 0) {
                Err(err) => Err(err),
                Ok(_) => infer(vars, funcs, items@[0]),
            }
        },
    }
}

/// The arguments from index `i` on have the parameter types, or the first
/// error.
pub open spec fn args_typed(
    vars: Map<Seq<char>, Type>,
    funcs: Map<Seq<char>, FunctionSignature>,
    fname: Seq<char>,
    args: Seq<Expression>,
    params: Seq<Type>,
    i: int,
) -> Result<(), TypeErrorModel>
    decreases args, args.len() - i,
{
    if i < 0 || i >= args.len() {
        Ok(())
    } else {
        match infer(vars, funcs, args[i]) {
            Err(err) => Err(err),
            Ok(t) => if t != params[i] {
                Err(
                    TypeErrorModel::FunctionArgMismatch {
                        function: fname,
                        param_idx: i,
                        expected: params[i],
                        actual: t,
                    },
                )
            } else {
                args_typed(vars, funcs, fname, args, params, i + 1)
            },
        }
    }
}

/// The items from index `i` on all have types, or the first error.
pub open spec fn items_typed(
    vars: Map<Seq<char>, Type>,
    funcs: Map<Seq<char>, FunctionSignature>,
    items: Seq<Expression>,
    i: int,
) -> Result<(), TypeErrorModel>
    decreases items, items.len() - i,
{
    if i < 0 || i >= items.len() {
        Ok(())
    } else {
        match infer(vars, funcs, items[i]) {
            Err(err) => Err(err),
            Ok(_) => items_typed(vars, funcs, items, i + 1),
        }
    }
}

/// The type a lowercased type name stands for; `u64` for any other name.
pub open spec fn type_for_name(l: Seq<char>) -> Type {
    if l == "bool"@ || l == "boolean"@ {
        Type::Bool
    } else if l == "u64"@ || l == "uint64"@ {
        Type::U64
    } else if l == "u128"@ || l == "uint128"@ {
        Type::U128
    } else if l == "i64"@ || l == "int64"@ {
        Type::I64
    } else if l == "address"@ {
        Type::Address
    } else {
        Type::U64
    }
}

/// The type a lowercased type name stands for; `u64` for any other name.
pub fn type_for_lowercase_name(l: &str) -> (r: Type)
    ensures
        r == type_for_name(l@),
{
    if crate::text::str_eq(l, "bool") || crate::text::str_eq(l, "boolean") {
        Type::Bool
    } else if crate::text::str_eq(l, "u64") || crate::text::str_eq(l, "uint64") {
        Type::U64
    } else if crate::text::str_eq(l, "u128") || crate::text::str_eq(l, "uint128") {
        Type::U128
    } else if crate::text::str_eq(l, "i64") || crate::text::str_eq(l, "int64") {
        Type::I64
    } else if crate::text::str_eq(l, "address") {
        Type::Address
    } else {
        Type::U64
    }
}

/// The functions every checker knows: `sum(u64) -> u64`,
/// `len(address) -> u64`, `min(u64, u64) -> u64`, `max(u64, u64) -> u64`.
pub open spec fn has_stdlib(funcs: Map<Seq<char>, FunctionSignature>) -> bool {
    &&& funcs.contains_key("sum"@) && funcs["sum"@].params@ == seq![Type::U64]
        && funcs["sum"@].return_type == Type::U64
    &&& funcs.contains_key("len"@) && funcs["len"@].params@ == seq![Type::Address]
        && funcs["len"@].return_type == Type::U64
    &&& funcs.contains_key("min"@) && funcs["min"@].params@ == seq![Type::U64, Type::U64]
        && funcs["min"@].return_type == Type::U64
    &&& funcs.contains_key("max"@) && funcs["max"@].params@ == seq![Type::U64, Type::U64]
        && funcs["max"@].return_type == Type::U64
}

/// Static type checker for invariant expressions.
pub struct TypeChecker {
    /// Known state variables and their types.
    state_vars: StrMap<Type>,
    /// Known functions and their signatures.
    functions: StrMap<FunctionSignature>,
}

impl TypeChecker {
    /// The types of the known state variables.
    pub closed spec fn var_types(&self) -> Map<Seq<char>, Type> {
        self.state_vars@
    }

    /// The signatures of the known functions.
    pub closed spec fn signatures(&self) -> Map<Seq<char>, FunctionSignature> {
        self.functions@
    }

    /// A checker that knows no variables and no functions.
    pub fn new() -> (r: Self)
        ensures
            r.var_types() == Map::<Seq<char>, Type>::empty(),
            r.signatures() == Map::<Seq<char>, FunctionSignature>::empty(),
    {
        TypeChecker { state_vars: StrMap::new(), functions: StrMap::new() }
    }

    /// Registers a state variable with its type.
    pub fn register_state_var(&mut self, name: String, ty: Type)
        ensures
            final(self).var_types() == old(self).var_types().insert(name@, ty),
            final(self).signatures() == old(self).signatures(),
    {
        self.state_vars.insert(name, ty);
    }

    /// Registers a function signature.
    pub fn register_function(&mut self, name: String, sig: FunctionSignature)
        ensures
            final(self).signatures() == old(self).signatures().insert(name@, sig),
            final(self).var_types() == old(self).var_types(),
    {
        self.functions.insert(name, sig);
    }

    /// Registers the program's state variables, each typed by its type name,
    /// then the standard functions.
    pub fn load_from_program(&mut self, program: &ProgramModel)
        ensures
            forall|k: Seq<char>| #[trigger]
                final(self).var_types().contains_key(k) <== old(self).var_types().contains_key(k),
            forall|k: Seq<char>|
                #![trigger final(self).var_types().contains_key(k)]
                final(self).var_types().contains_key(k) <==> (old(self).var_types().contains_key(
                    k,
                ) || program.state_vars@.contains_key(k)),
            forall|k: Seq<char>|
                #![trigger final(self).var_types()[k]]
                program.state_vars@.contains_key(k) ==> final(self).var_types()[k]
                    == type_for_name(unicode_lowercase(program.state_vars@[k].var_type@)),
            forall|k: Seq<char>|
                #![trigger final(self).var_types()[k]]
                !program.state_vars@.contains_key(k) && old(self).var_types().contains_key(k)
                    ==> final(self).var_types()[k] == old(self).var_types()[k],
            has_stdlib(final(self).signatures()),
            forall|k: Seq<char>|
                #![trigger final(self).signatures().contains_key(k)]
                k != "sum"@ && k != "len"@ && k != "min"@ && k != "max"@ ==> final(self).signatures().get(k) == old(self).signatures().get(k),
    {
        let n = program.state_vars.len();
        let ghost start = self.var_types();
        proof {
            crate::strmap::lemma_map_of_domain(program.state_vars.pairs());
            crate::strmap::lemma_map_of_value(program.state_vars.pairs());
        }
        let mut i: usize = 0;
        while i < n
            invariant
                i <= n,
                n == program.state_vars.pairs().len(),
                crate::strmap::keys_ascending(program.state_vars.pairs()),
                self.signatures() == old(self).signatures(),
                forall|k: Seq<char>|
                    #![trigger self.var_types().contains_key(k)]
                    self.var_types().contains_key(k) <==> (start.contains_key(k) || exists|j: int|
                        0 <= j < i && program.state_vars.pairs()[j].0 == k),
                forall|j: int|
                    #![trigger program.state_vars.pairs()[j]]
                    0 <= j < i ==> self.var_types()[program.state_vars.pairs()[j].0]
                        == type_for_name(
                        unicode_lowercase(program.state_vars.pairs()[j].1.var_type@),
                    ),
                forall|k: Seq<char>|
                    #![trigger self.var_types()[k]]
                    start.contains_key(k) && !(exists|j: int|
                        0 <= j < i && program.state_vars.pairs()[j].0 == k) ==> self.var_types()[k]
                        == start[k],
            decreases n - i,
        {
            let name = program.state_vars.key_at(i);
            let var: &StateVar = program.state_vars.value_at(i);
            let ty = self.infer_type_from_string(var.var_type.as_str());
            let ghost before = self.var_types();
            self.register_state_var(name.clone(), ty);
            proof {
                let p = program.state_vars.pairs();
                assert forall|j: int| 0 <= j < i + 1 implies #[trigger] self.var_types()[p[j].0]
                    == type_for_name(unicode_lowercase(p[j].1.var_type@)) by {
                    if j < i {
                        assert(crate::strmap::text_lt(p[j].0, p[i as int].0));
                        crate::strmap::lemma_lt_irreflexive(p[j].0, 0);
                    }
                }
                assert forall|k: Seq<char>| #[trigger]
                    self.var_types().contains_key(k) <==> (start.contains_key(k) || exists|j: int|
                        0 <= j < i + 1 && p[j].0 == k) by {
                    if k == p[i as int].0 {
                        assert(p[i as int].0 == k);
                    } else if exists|j: int| 0 <= j < i + 1 && p[j].0 == k {
                        let j = choose|j: int| 0 <= j < i + 1 && p[j].0 == k;
                        assert(j < i);
                    }
                }
                assert forall|k: Seq<char>|
                    start.contains_key(k) && !(exists|j: int| 0 <= j < i + 1 && p[j].0 == k)
                        implies #[trigger] self.var_types()[k] == start[k] by {
                    assert(k != p[i as int].0);
                    assert(!(exists|j: int| 0 <= j < i && p[j].0 == k)) by {
                        if exists|j: int| 0 <= j < i && p[j].0 == k {
                            let j = choose|j: int| 0 <= j < i && p[j].0 == k;
                            assert(0 <= j < i + 1 && p[j].0 == k);
                        }
                    }
                }
            }
            i = i + 1;
        }
        proof {
            let p = program.state_vars.pairs();
            assert forall|k: Seq<char>|
                #![trigger self.var_types()[k]]
                program.state_vars@.contains_key(k) implies self.var_types()[k] == type_for_name(
                    unicode_lowercase(program.state_vars@[k].var_type@),
                ) by {
                let j = choose|j: int| 0 <= j < p.len() && p[j].0 == k;
                assert(program.state_vars@[p[j].0] == p[j].1);
                assert(self.var_types()[p[j].0] == type_for_name(
                    unicode_lowercase(p[j].1.var_type@),
                ));
            }
        }
        self.register_stdlib_functions();
    }

    /// Type checks an expression: its type, or the first type error.
    pub fn check_expr(&self, expr: &Expression) -> (r: TypeResult<TypedExpr>)
        ensures
            match r {
                Ok(t) => infer(self.var_types(), self.signatures(), *expr) == Ok::<
                    Type,
                    TypeErrorModel,
                >(t.ty) && same_expr(*expr, t.expr),
                Err(e) => infer(self.var_types(), self.signatures(), *expr) == Err::<
                    Type,
                    TypeErrorModel,
                >(e@),
            },
    {
        let ty = self.infer_type(expr)?;
        Ok(TypedExpr::new(expr.clone(), ty))
    }

    /// The type of an expression, or the first type error.
    fn infer_type(&self, expr: &Expression) -> (r: TypeResult<Type>)
        ensures
            type_result_model(r) == infer(self.var_types(), self.signatures(), *expr),
        decreases expr, 1int,
    {
        match expr {
            Expression::Boolean(_) => Ok(Type::Bool),
            Expression::Int(val) => {
                if *val < 0 {
                    Ok(Type::I64)
                } else if *val <= 18446744073709551615i128 {
                    Ok(Type::U64)
                } else {
                    Ok(Type::U128)
                }
            },
            Expression::Var(name) => match self.state_vars.get(name.as_str()) {
                Some(t) => Ok(*t),
                None => Err(TypeError::UndefinedVariable(name.clone())),
            },
            Expression::LayerVar { layer, var } => match self.state_vars.get(var.as_str()) {
                Some(t) => Ok(*t),
                None => Err(TypeError::UndefinedVariable(qualified(layer.as_str(), var.as_str()))),
            },
            Expression::PhaseQualifiedVar { phase: _, layer, var } => match self.state_vars.get(
                var.as_str(),
            ) {
                Some(t) => Ok(*t),
                None => Err(TypeError::UndefinedVariable(qualified(layer.as_str(), var.as_str()))),
            },
            Expression::PhaseConstraint { phase: _, constraint } => self.infer_type(constraint),
            Expression::CrossPhaseRelation { phase1: _, expr1, phase2: _, expr2, op: _ } => {
                let lt = self.infer_type(expr1)?;
                let rt = self.infer_type(expr2)?;
                Self::check_binary_op(lt, &BinaryOp::Eq, rt)?;
                Ok(Type::Bool)
            },
            Expression::BinaryOp { left, op, right } => {
                let lt = self.infer_type(left)?;
                let rt = self.infer_type(right)?;
                Self::check_binary_op(lt, op, rt)
            },
            Expression::Arithmetic { left, op, right } => {
                let lt = self.infer_type(left)?;
                let rt = self.infer_type(right)?;
                if !lt.is_numeric() || !rt.is_numeric() {
                    return Err(
                        TypeError::BinaryOpTypeMismatch { op: op.to_string(), left: lt, right: rt },
                    );
                }
                if lt == Type::U128 || rt == Type::U128 {
                    Ok(Type::U128)
                } else if lt == Type::I64 || rt == Type::I64 {
                    Ok(Type::I64)
                } else {
                    Ok(Type::U64)
                }
            },
            Expression::Logical { left, op, right } => {
                let lt = self.infer_type(left)?;
                let rt = self.infer_type(right)?;
                Self::check_logical_op(lt, op, rt)
            },
            Expression::Not(inner) => {
                let t = self.infer_type(inner)?;
                if t != Type::Bool {
                    return Err(
                        TypeError::UnaryOpTypeMismatch { op: string_from("!"), operand: t },
                    );
                }
                Ok(Type::Bool)
            },
            Expression::FunctionCall { .. } => self.check_function_call(expr),
            Expression::Tuple(items) => {
                if items.len() == 0 {
                    Ok(Type::Bool)
                } else {
                    self.check_tuple(expr)
                }
            },
        }
    }

    /// The type of a comparison of operands of types `lt` and `rt`.
    fn check_binary_op(lt: Type, op: &BinaryOp, rt: Type) -> (r: TypeResult<Type>)
        ensures
            type_result_model(r) == comparison_type(lt, *op, rt),
    {
        match op {
            BinaryOp::Eq | BinaryOp::Neq => {
                if lt != rt {
                    return Err(TypeError::IncomparableTypes { left: lt, right: rt });
                }
                Ok(Type::Bool)
            },
            _ => {
                if !lt.is_numeric() || !rt.is_numeric() {
                    return Err(TypeError::IncomparableTypes { left: lt, right: rt });
                }
                if lt != rt {
                    let op_str = match op {
                        BinaryOp::Lt => "<",
                        BinaryOp::Gt => ">",
                        BinaryOp::Lte => "<=",
                        BinaryOp::Gte => ">=",
                        _ => "unknown",
                    };
                    return Err(
                        TypeError::BinaryOpTypeMismatch {
                            left: lt,
                            op: string_from(op_str),
                            right: rt,
                        },
                    );
                }
                Ok(Type::Bool)
            },
        }
    }

    /// The type of a logical operation on operands of types `lt` and `rt`.
    fn check_logical_op(lt: Type, op: &LogicalOp, rt: Type) -> (r: TypeResult<Type>)
        ensures
            type_result_model(r) == logical_type(lt, *op, rt),
    {
        let op_name = match op {
            LogicalOp::And => "&&",
            LogicalOp::Or => "||",
        };
        if lt != Type::Bool {
            return Err(TypeError::LogicalOpRequiresBool { op: string_from(op_name), actual: lt });
        }
        if rt != Type::Bool {
            return Err(TypeError::LogicalOpRequiresBool { op: string_from(op_name), actual: rt });
        }
        Ok(Type::Bool)
    }

    /// The type of a function call: its return type when the arguments match
    /// the parameters in number and type.
    fn check_function_call(&self, expr: &Expression) -> (r: TypeResult<Type>)
        requires
            expr is FunctionCall,
        ensures
            type_result_model(r) == infer(self.var_types(), self.signatures(), *expr),
        decreases expr, 0int,
    {
        let (name, args) = match expr {
            Expression::FunctionCall { name, args } => (name, args),
            _ => {
                return Err(TypeError::Custom(String::new()));
            },
        };
        let sig = match self.functions.get(name.as_str()) {
            Some(s) => s,
            None => {
                return Err(TypeError::UndefinedFunction(name.clone()));
            },
        };
        if args.len() != sig.params.len() {
            let mut msg = String::new();
            push_str(&mut msg, "function '");
            push_str(&mut msg, name.as_str());
            push_str(&mut msg, "' expects ");
            push_u128(&mut msg, sig.params.len() as u128);
            push_str(&mut msg, " arguments but got ");
            push_u128(&mut msg, args.len() as u128);
            assert(msg@ =~= arity_message(name@, sig.params@.len(), args@.len()));
            return Err(TypeError::Custom(msg));
        }
        let mut idx: usize = 0;
        while idx < args.len()
            invariant
                idx <= args.len(),
                args.len() == sig.params.len(),
                *expr == (Expression::FunctionCall { name: *name, args: *args }),
                self.signatures().contains_key(name@),
                *sig == self.signatures()[name@],
                args_typed(self.var_types(), self.signatures(), name@, args@, sig.params@, 0)
                    == args_typed(
                    self.var_types(),
                    self.signatures(),
                    name@,
                    args@,
                    sig.params@,
                    idx as int,
                ),
            decreases args.len() - idx,
        {
            proof {
                broadcast use vstd::std_specs::vec::axiom_vec_index_decreases;

                assert(decreases_to!(*expr => args@[idx as int]));
            }
            let actual = self.infer_type(&args[idx])?;
            let expected = sig.params[idx];
            if actual != expected {
                return Err(
                    TypeError::FunctionArgMismatch {
                        function: name.clone(),
                        param_idx: idx,
                        expected,
                        actual,
                    },
                );
            }
            idx = idx + 1;
        }
        Ok(sig.return_type)
    }

    /// The type of a non-empty tuple: that of its first item, once every
    /// item has a type.
    fn check_tuple(&self, expr: &Expression) -> (r: TypeResult<Type>)
        requires
            expr matches Expression::Tuple(items) && items.len() > 0,
        ensures
            type_result_model(r) == infer(self.var_types(), self.signatures(), *expr),
        decreases expr, 0int,
    {
        let items = match expr {
            Expression::Tuple(items) => items,
            _ => {
                return Err(TypeError::Custom(String::new()));
            },
        };
        let mut element_types: Vec<Type> = Vec::new();
        let mut i: usize = 0;
        while i < items.len()
            invariant
                i <= items.len(),
                items.len() > 0,
                *expr == Expression::Tuple(*items),
                element_types@.len() == i,
                i > 0 ==> infer(self.var_types(), self.signatures(), items@[0]) == Ok::<
                    Type,
                    TypeErrorModel,
                >(element_types@[0]),
                items_typed(self.var_types(), self.signatures(), items@, 0) == items_typed(
                    self.var_types(),
                    self.signatures(),
                    items@,
                    i as int,
                ),
            decreases items.len() - i,
        {
            proof {
                broadcast use vstd::std_specs::vec::axiom_vec_index_decreases;

                assert(decreases_to!(*expr => items@[i as int]));
            }
            let ty = self.infer_type(&items[i])?;
            element_types.push(ty);
            i = i + 1;
        }
        Ok(element_types[0])
    }

    /// Registers the standard functions.
    fn register_stdlib_functions(&mut self)
        ensures
            has_stdlib(final(self).signatures()),
            final(self).var_types() == old(self).var_types(),
            forall|k: Seq<char>|
                #![trigger final(self).signatures().contains_key(k)]
                k != "sum"@ && k != "len"@ && k != "min"@ && k != "max"@ ==> final(self).signatures().get(k) == old(self).signatures().get(k),
    {
        proof {
            reveal_strlit("sum");
            reveal_strlit("len");
            reveal_strlit("min");
            reveal_strlit("max");
            assert("sum"@[0] != "len"@[0] && "sum"@[0] != "min"@[0] && "sum"@[0] != "max"@[0]);
            assert("len"@[0] != "min"@[0] && "len"@[0] != "max"@[0] && "min"@[1] != "max"@[1]);
        }
        let p_sum = vec![Type::U64];
        assert(p_sum@ =~= seq![Type::U64]);
        self.register_function(
            string_from("sum"),
            FunctionSignature { params: p_sum, return_type: Type::U64 },
        );
        let p_len = vec![Type::Address];
        assert(p_len@ =~= seq![Type::Address]);
        self.register_function(
            string_from("len"),
            FunctionSignature { params: p_len, return_type: Type::U64 },
        );
        let p_min = vec![Type::U64, Type::U64];
        assert(p_min@ =~= seq![Type::U64, Type::U64]);
        self.register_function(
            string_from("min"),
            FunctionSignature { params: p_min, return_type: Type::U64 },
        );
        let p_max = vec![Type::U64, Type::U64];
        assert(p_max@ =~= seq![Type::U64, Type::U64]);
        self.register_function(
            string_from("max"),
            FunctionSignature { params: p_max, return_type: Type::U64 },
        );
    }

    /// The type a type name stands for, compared without regard to case.
    fn infer_type_from_string(&self, type_str: &str) -> (r: Type)
        ensures
            r == type_for_name(unicode_lowercase(type_str@)),
    {
        let lower = to_lowercase(type_str);
        type_for_lowercase_name(lower.as_str())
    }
}

/// `layer::var`.
fn qualified(layer: &str, var: &str) -> (r: String)
    ensures
        r@ == layer@ + "::"@ + var@,
{
    let mut s = String::new();
    push_str(&mut s, layer);
    push_str(&mut s, "::");
    push_str(&mut s, var);
    assert(s@ =~= layer@ + "::"@ + var@);
    s
}

impl Default for TypeChecker {
    fn default() -> (r: Self)
        ensures
            r.var_types() == Map::<Seq<char>, Type>::empty(),
            r.signatures() == Map::<Seq<char>, FunctionSignature>::empty(),
    {
        Self::new()
    }
}

/// Type checking is deterministic: checkers with the same variables and
/// function signatures give an expression the same type, or the same error.
pub proof fn lemma_type_checking_deterministic(
    a: TypeChecker,
    b: TypeChecker,
    e: Expression,
    ra: TypeResult<TypedExpr>,
    rb: TypeResult<TypedExpr>,
)
    requires
        a.var_types() == b.var_types(),
        a.signatures() == b.signatures(),
        match ra {
            Ok(t) => infer(a.var_types(), a.signatures(), e) == Ok::<Type, TypeErrorModel>(t.ty),
            Err(x) => infer(a.var_types(), a.signatures(), e) == Err::<Type, TypeErrorModel>(x@),
        },
        match rb {
            Ok(t) => infer(b.var_types(), b.signatures(), e) == Ok::<Type, TypeErrorModel>(t.ty),
            Err(x) => infer(b.var_types(), b.signatures(), e) == Err::<Type, TypeErrorModel>(x@),
        },
    ensures
        ra is Ok <==> rb is Ok,
        ra matches Ok(t) ==> (rb matches Ok(u) && t.ty == u.ty),
        ra matches Err(x) ==> (rb matches Err(y) && x@ == y@),
{
}


/// `&&` and `||` take only booleans: a logical expression type-checks only
/// when both operands are `bool`, and then is `bool`; a non-boolean operand
/// (the left one first) is reported as `LogicalOpRequiresBool` with the
/// operator's symbol and that operand's type.
pub proof fn lemma_logical_operands_are_bool(
    vars: Map<Seq<char>, Type>,
    funcs: Map<Seq<char>, FunctionSignature>,
    left: Expression,
    op: LogicalOp,
    right: Expression,
)
    ensures
        ({
            let v = infer(vars, funcs, Expression::Logical { left: Box::new(left), op, right: Box::new(right) });
            let sym = if op == LogicalOp::And {
                "&&"@
            } else {
                "||"@
            };
            &&& v is Ok ==> infer(vars, funcs, left) == Ok::<Type, TypeErrorModel>(Type::Bool) && infer(
                vars,
                funcs,
                right,
            ) == Ok::<Type, TypeErrorModel>(Type::Bool) && v == Ok::<Type, TypeErrorModel>(Type::Bool)
            &&& (infer(vars, funcs, left) == Ok::<Type, TypeErrorModel>(Type::Bool) && infer(
                vars,
                funcs,
                right,
            ) == Ok::<Type, TypeErrorModel>(Type::Bool)) ==> v == Ok::<Type, TypeErrorModel>(Type::Bool)
            &&& (infer(vars, funcs, left) is Ok && infer(vars, funcs, left)->Ok_0 != Type::Bool && infer(
                vars,
                funcs,
                right,
            ) is Ok) ==> v == Err::<Type, TypeErrorModel>(
                TypeErrorModel::LogicalOpRequiresBool { op: sym, actual: infer(vars, funcs, left)->Ok_0 },
            )
            &&& (infer(vars, funcs, left) == Ok::<Type, TypeErrorModel>(Type::Bool) && infer(
                vars,
                funcs,
                right,
            ) is Ok && infer(vars, funcs, right)->Ok_0 != Type::Bool) ==> v == Err::<Type, TypeErrorModel>(
                TypeErrorModel::LogicalOpRequiresBool { op: sym, actual: infer(vars, funcs, right)->Ok_0 },
            )
        }),
{
}


/// A comparison type-checks only between operands of one type, and is then
/// `bool`; `<`, `<=`, `>`, `>=` further need a number type (`u64`, `u128`,
/// `i64`), while `==` and `!=` take any type.
pub proof fn lemma_comparison_typing(
    vars: Map<Seq<char>, Type>,
    funcs: Map<Seq<char>, FunctionSignature>,
    left: Expression,
    op: BinaryOp,
    right: Expression,
)
    ensures
        ({
            let v = infer(vars, funcs, Expression::BinaryOp { left: Box::new(left), op, right: Box::new(right) });
            let lt = infer(vars, funcs, left);
            let rt = infer(vars, funcs, right);
            let order = op == BinaryOp::Lt || op == BinaryOp::Lte || op == BinaryOp::Gt || op == BinaryOp::Gte;
            &&& v is Ok ==> lt is Ok && rt == lt && v == Ok::<Type, TypeErrorModel>(Type::Bool)
            &&& (v is Ok && order) ==> (lt == Ok::<Type, TypeErrorModel>(Type::U64) || lt == Ok::<
                Type,
                TypeErrorModel,
            >(Type::U128) || lt == Ok::<Type, TypeErrorModel>(Type::I64))
            &&& (lt is Ok && rt == lt && !order) ==> v == Ok::<Type, TypeErrorModel>(Type::Bool)
            &&& (rt == lt && order && (lt == Ok::<Type, TypeErrorModel>(Type::U64) || lt == Ok::<
                Type,
                TypeErrorModel,
            >(Type::U128) || lt == Ok::<Type, TypeErrorModel>(Type::I64))) ==> v == Ok::<
                Type,
                TypeErrorModel,
            >(Type::Bool)
        }),
{
}

/// Arithmetic type-checks only on numbers, and its type is the widest of
/// the operands': `u128` if either is, else `i64` if either is, else `u64`.
pub proof fn lemma_arithmetic_typing(
    vars: Map<Seq<char>, Type>,
    funcs: Map<Seq<char>, FunctionSignature>,
    left: Expression,
    op: ArithOp,
    right: Expression,
)
    ensures
        ({
            let v = infer(vars, funcs, Expression::Arithmetic { left: Box::new(left), op, right: Box::new(right) });
            let lt = infer(vars, funcs, left);
            let rt = infer(vars, funcs, right);
            &&& v is Ok ==> lt is Ok && rt is Ok && lt->Ok_0 != Type::Bool && lt->Ok_0 != Type::Address
                && rt->Ok_0 != Type::Bool && rt->Ok_0 != Type::Address
            &&& (v is Ok && (lt == Ok::<Type, TypeErrorModel>(Type::U128) || rt == Ok::<Type, TypeErrorModel>(Type::U128)))
                ==> v == Ok::<Type, TypeErrorModel>(Type::U128)
            &&& (v is Ok && lt == Ok::<Type, TypeErrorModel>(Type::U64) && rt == Ok::<Type, TypeErrorModel>(Type::U64))
                ==> v == Ok::<Type, TypeErrorModel>(Type::U64)
            &&& (v is Ok && lt != Ok::<Type, TypeErrorModel>(Type::U128) && rt != Ok::<Type, TypeErrorModel>(Type::U128)
                && (lt == Ok::<Type, TypeErrorModel>(Type::I64) || rt == Ok::<Type, TypeErrorModel>(Type::I64)))
                ==> v == Ok::<Type, TypeErrorModel>(Type::I64)
        }),
{
}

} // verus!
