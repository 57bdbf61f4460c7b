//! Core domain models for invariant analysis: invariant expressions, the
//! operators they use, and the program model extracted from source.
use vstd::prelude::*;
use crate::strmap::{StrMap, StrSet};
use crate::text::{int_text, push_i128, push_str};

verus! {

/// A compiled invariant expression with metadata.
#[derive(Debug, Clone)]
pub struct Invariant {
    /// Unique identifier for the invariant.
    pub name: String,
    /// Human-readable description.
    pub description: Option<String>,
    /// The invariant expression in IR form.
    pub expression: Expression,
    /// Severity level: "critical", "high", "medium", "low".
    pub severity: String,
    /// Category: "core", "defi", "bridge", "governance", "account-abstraction", etc.
    pub category: String,
    /// Whether this invariant should always hold.
    pub is_always_true: bool,
    /// Layer scopes for cross-layer analysis; empty means every layer.
    pub layers: Vec<String>,
    /// Execution phases the invariant must hold at; empty means every phase.
    pub phases: Vec<String>,
}

/// An expression tree representing invariant conditions.
#[derive(Debug, PartialEq, Eq)]
#[allow(inconsistent_fields)]
pub enum Expression {
    /// Boolean literal.
    Boolean(bool),
    /// Variable reference.
    Var(String),
    /// Layer-qualified variable reference (e.g., bundler::nonce).
    LayerVar {
        /// Layer name (bundler, account, paymaster, protocol, entrypoint).
        layer: String,
        /// Variable name within the layer.
        var: String,
    },
    /// Phase-qualified variable reference (e.g., validation::account::balance).
    PhaseQualifiedVar {
        /// Execution phase: "validation", "execution", or "settlement".
        phase: String,
        /// Layer name within that phase.
        layer: String,
        /// Variable name within the layer.
        var: String,
    },
    /// A condition that must hold during a specific phase.
    PhaseConstraint {
        /// Phase to enforce the constraint in.
        phase: String,
        /// The constraint expression to hold in this phase.
        constraint: Box<Expression>,
    },
    /// Relates values across two phases.
    CrossPhaseRelation {
        /// First phase.
        phase1: String,
        /// First phase expression.
        expr1: Box<Expression>,
        /// Second phase.
        phase2: String,
        /// Second phase expression.
        expr2: Box<Expression>,
        /// Relation operator.
        op: BinaryOp,
    },
    /// Integer constant.
    Int(i128),
    /// Comparison: left op right.
    BinaryOp {
        /// Left operand.
        left: Box<Expression>,
        /// Operator: ==, !=, <, >, <=, >=.
        op: BinaryOp,
        /// Right operand.
        right: Box<Expression>,
    },
    /// Arithmetic: left op right, yielding a number.
    Arithmetic {
        /// Left operand.
        left: Box<Expression>,
        /// Operator: +, -, *, /.
        op: ArithOp,
        /// Right operand.
        right: Box<Expression>,
    },
    /// Logical operation: &&, ||.
    Logical {
        /// Left operand.
        left: Box<Expression>,
        /// Operator: And, Or.
        op: LogicalOp,
        /// Right operand.
        right: Box<Expression>,
    },
    /// Logical negation.
    Not(Box<Expression>),
    /// Function call.
    FunctionCall {
        /// Function name.
        name: String,
        /// Arguments.
        args: Vec<Expression>,
    },
    /// Tuple of expressions.
    Tuple(Vec<Expression>),
}

/// Arithmetic operators for numeric expressions.
#[derive(Debug, Clone, Copy, PartialEq, Eq, Structural)]
pub enum ArithOp {
    /// Addition.
    Add,
    /// Subtraction.
    Sub,
    /// Multiplication.
    Mul,
    /// Division (integer, truncating, as on the EVM).
    Div,
}

/// Binary (comparison) operators for expressions.
#[derive(Debug, Clone, Copy, PartialEq, Eq, Structural)]
pub enum BinaryOp {
    /// Equality.
    Eq,
    /// Not equal.
    Neq,
    /// Less than.
    Lt,
    /// Greater than.
    Gt,
    /// Less than or equal.
    Lte,
    /// Greater than or equal.
    Gte,
}

/// Logical operators.
#[derive(Debug, Clone, Copy, PartialEq, Eq, Structural)]
pub enum LogicalOp {
    /// Logical AND.
    And,
    /// Logical OR.
    Or,
}

/// The symbol of an arithmetic operator.
pub open spec fn arith_symbol(op: ArithOp) -> Seq<char> {
    match op {
        ArithOp::Add => seq!['+'],
        ArithOp::Sub => seq!['-'],
        ArithOp::Mul => seq!['*'],
        ArithOp::Div => seq!['/'],
    }
}

/// The symbol of a comparison operator.
pub open spec fn binary_symbol(op: BinaryOp) -> Seq<char> {
    match op {
        BinaryOp::Eq => seq!['=', '='],
        BinaryOp::Neq => seq!['!', '='],
        BinaryOp::Lt => seq!['<'],
        BinaryOp::Gt => seq!['>'],
        BinaryOp::Lte => seq!['<', '='],
        BinaryOp::Gte => seq!['>', '='],
    }
}

/// The symbol of a logical operator.
pub open spec fn logical_symbol(op: LogicalOp) -> Seq<char> {
    match op {
        LogicalOp::And => seq!['&', '&'],
        LogicalOp::Or => seq!['|', '|'],
    }
}

impl ArithOp {
    /// The operator's symbol.
    pub fn to_string(&self) -> (r: String)
        ensures
            r@ == arith_symbol(*self),
    {
        let s = match self {
            ArithOp::Add => "+",
            ArithOp::Sub => "-",
            ArithOp::Mul => "*",
            ArithOp::Div => "/",
        };
        proof {
            reveal_strlit("+");
            reveal_strlit("-");
            reveal_strlit("*");
            reveal_strlit("/");
        }
        crate::text::string_from(s)
    }
}

impl BinaryOp {
    /// The operator's symbol.
    pub fn to_string(&self) -> (r: String)
        ensures
            r@ == binary_symbol(*self),
    {
        let s = match self {
            BinaryOp::Eq => "==",
            BinaryOp::Neq => "!=",
            BinaryOp::Lt => "<",
            BinaryOp::Gt => ">",
            BinaryOp::Lte => "<=",
            BinaryOp::Gte => ">=",
        };
        proof {
            reveal_strlit("==");
            reveal_strlit("!=");
            reveal_strlit("<");
            reveal_strlit(">");
            reveal_strlit("<=");
            reveal_strlit(">=");
        }
        crate::text::string_from(s)
    }
}

impl LogicalOp {
    /// The operator's symbol.
    pub fn to_string(&self) -> (r: String)
        ensures
            r@ == logical_symbol(*self),
    {
        let s = match self {
            LogicalOp::And => "&&",
            LogicalOp::Or => "||",
        };
        proof {
            reveal_strlit("&&");
            reveal_strlit("||");
        }
        crate::text::string_from(s)
    }
}

/// `"(" + a + " " + op + " " + b + ")"`.
pub open spec fn infix_text(a: Seq<char>, op: Seq<char>, b: Seq<char>) -> Seq<char> {
    seq!['('] + a + seq![' '] + op + seq![' '] + b + seq![')']
}

/// The display text of an expression.
pub open spec fn expr_text(e: Expression) -> Seq<char>
    decreases e,
{
    match e {
        Expression::Boolean(b) => if b {
            seq!['t', 'r', 'u', 'e']
        } else {
            seq!['f', 'a', 'l', 's', 'e']
        },
        Expression::Var(v) => v@,
        Expression::LayerVar { layer, var } => layer@ + seq![':', ':'] + var@,
        Expression::PhaseQualifiedVar { phase, layer, var } => phase@ + seq![':', ':'] + layer@
            + seq![':', ':'] + var@,
        Expression::PhaseConstraint { phase, constraint } => seq!['('] + expr_text(*constraint)
            + seq![' ', '@', ' '] + phase@ + seq![')'],
        Expression::CrossPhaseRelation { phase1, expr1, phase2, expr2, op } => seq!['(']
            + expr_text(*expr1) + seq!['['] + phase1@ + seq![']', ' '] + binary_symbol(op) + seq![
            ' ',
        ] + expr_text(*expr2) + seq!['['] + phase2@ + seq![']', ')'],
        Expression::Int(i) => int_text(i as int),
        Expression::BinaryOp { left, op, right } => infix_text(
            expr_text(*left),
            binary_symbol(op),
            expr_text(*right),
        ),
        Expression::Arithmetic { left, op, right } => infix_text(
            expr_text(*left),
            arith_symbol(op),
            expr_text(*right),
        ),
        Expression::Logical { left, op, right } => infix_text(
            expr_text(*left),
            logical_symbol(op),
            expr_text(*right),
        ),
        Expression::Not(inner) => seq!['!', '('] + expr_text(*inner) + seq![')'],
        Expression::FunctionCall { name, args } => name@ + seq!['('] + list_text(args@) + seq![')'],
        Expression::Tuple(items) => seq!['('] + list_text(items@) + seq![')'],
    }
}

/// The display texts of `items`, separated by `", "`.
pub open spec fn list_text(items: Seq<Expression>) -> Seq<char>
    decreases items,
{
    if items.len() == 0 {
        Seq::empty()
    } else if items.len() == 1 {
        expr_text(items[0])
    } else {
        list_text(items.drop_last()) + seq![',', ' '] + expr_text(items.last())
    }
}

impl Expression {
    /// Appends the display text of this expression to `out`.
    #[verifier::rlimit(60)]
    #[verifier::spinoff_prover]
    pub fn write_to(&self, out: &mut String)
        ensures
            final(out)@ == old(out)@ + expr_text(*self),
        decreases self,
    {
        proof {
            reveal_strlit("true");
            reveal_strlit("false");
            reveal_strlit("::");
            reveal_strlit("(");
            reveal_strlit(")");
            reveal_strlit(" @ ");
            reveal_strlit("[");
            reveal_strlit("] ");
            reveal_strlit(" ");
            reveal_strlit("])");
            reveal_strlit("!(");
        }
        match self {
            Expression::Boolean(b) => {
                if *b {
                    push_str(out, "true");
                } else {
                    push_str(out, "false");
                }
            },
            Expression::Var(v) => {
                push_str(out, v.as_str());
            },
            Expression::LayerVar { layer, var } => {
                push_str(out, layer.as_str());
                push_str(out, "::");
                push_str(out, var.as_str());
                assert(final(out)@ =~= old(out)@ + expr_text(*self));
            },
            Expression::PhaseQualifiedVar { phase, layer, var } => {
                push_str(out, phase.as_str());
                push_str(out, "::");
                push_str(out, layer.as_str());
                push_str(out, "::");
                push_str(out, var.as_str());
                assert(final(out)@ =~= old(out)@ + expr_text(*self));
            },
            Expression::PhaseConstraint { phase, constraint } => {
                push_str(out, "(");
                constraint.write_to(out);
                push_str(out, " @ ");
                push_str(out, phase.as_str());
                push_str(out, ")");
                assert(final(out)@ =~= old(out)@ + expr_text(*self));
            },
            Expression::CrossPhaseRelation { phase1, expr1, phase2, expr2, op } => {
                push_str(out, "(");
                expr1.write_to(out);
                push_str(out, "[");
                push_str(out, phase1.as_str());
                push_str(out, "] ");
                let o = op.to_string();
                push_str(out, o.as_str());
                push_str(out, " ");
                expr2.write_to(out);
                push_str(out, "[");
                push_str(out, phase2.as_str());
                push_str(out, "])");
                assert(final(out)@ =~= old(out)@ + expr_text(*self));
            },
            Expression::Int(i) => {
                push_i128(out, *i);
            },
            Expression::BinaryOp { left, op, right } => {
                let o = op.to_string();
                push_str(out, "(");
                left.write_to(out);
                push_str(out, " ");
                push_str(out, o.as_str());
                push_str(out, " ");
                right.write_to(out);
                push_str(out, ")");
                assert(final(out)@ =~= old(out)@ + expr_text(*self));
            },
            Expression::Arithmetic { left, op, right } => {
                let o = op.to_string();
                push_str(out, "(");
                left.write_to(out);
                push_str(out, " ");
                push_str(out, o.as_str());
                push_str(out, " ");
                right.write_to(out);
                push_str(out, ")");
                assert(final(out)@ =~= old(out)@ + expr_text(*self));
            },
            Expression::Logical { left, op, right } => {
                let o = op.to_string();
                push_str(out, "(");
                left.write_to(out);
                push_str(out, " ");
                push_str(out, o.as_str());
                push_str(out, " ");
                right.write_to(out);
                push_str(out, ")");
                assert(final(out)@ =~= old(out)@ + expr_text(*self));
            },
            Expression::Not(inner) => {
                push_str(out, "!(");
                inner.write_to(out);
                push_str(out, ")");
                assert(final(out)@ =~= old(out)@ + expr_text(*self));
            },
            Expression::FunctionCall { name, args } => {
                push_str(out, name.as_str());
                push_str(out, "(");
                Self::write_list(out, args);
                push_str(out, ")");
                assert(final(out)@ =~= old(out)@ + expr_text(*self));
            },
            Expression::Tuple(items) => {
                push_str(out, "(");
                Self::write_list(out, items);
                push_str(out, ")");
                assert(final(out)@ =~= old(out)@ + expr_text(*self));
            },
        }
    }

    fn write_list(out: &mut String, items: &Vec<Expression>)
        ensures
            final(out)@ == old(out)@ + list_text(items@),
        decreases items,
    {
        proof {
            reveal_strlit(", ");
        }
        let ghost start = out@;
        let mut i: usize = 0;
        while i < items.len()
            invariant
                i <= items.len(),
                out@ == start + list_text(items@.subrange(0, i as int)),
            decreases items.len() - i,
        {
            let ghost before = out@;
            if i > 0 {
                proof {
                    reveal_strlit(", ");
                }
                push_str(out, ", ");
                assert(out@ == before + seq![',', ' ']);
            }
            let ghost mid = out@;
            items[i].write_to(out);
            assert(out@ == mid + expr_text(items@[i as int]));
            proof {
                let sub = items@.subrange(0, i as int + 1);
                assert(sub.drop_last() =~= items@.subrange(0, i as int));
                assert(sub.last() == items@[i as int]);
                if i == 0 {
                    assert(sub.len() == 1);
                    assert(items@.subrange(0, 0) =~= Seq::<Expression>::empty());
                }
                assert(out@ =~= start + list_text(sub));
            }
            i = i + 1;
        }
        assert(items@.subrange(0, items.len() as int) =~= items@);
    }

    /// The display text of this expression.
    pub fn to_string(&self) -> (r: String)
        ensures
            r@ == expr_text(*self),
    {
        let mut out = String::new();
        self.write_to(&mut out);
        assert(out@ =~= expr_text(*self));
        out
    }
}

/// `a` and `b` are the same expression: the same shape, operators and
/// literals, and names with the same characters.
pub open spec fn same_expr(a: Expression, b: Expression) -> bool
    decreases a, 0int,
{
    match a {
        Expression::Boolean(x) => b == Expression::Boolean(x),
        Expression::Int(x) => b == Expression::Int(x),
        Expression::Var(n) => b matches Expression::Var(m) && m@ == n@,
        Expression::LayerVar { layer, var } => b matches Expression::LayerVar { layer: l2, var: v2 }
            && l2@ == layer@ && v2@ == var@,
        Expression::PhaseQualifiedVar { phase, layer, var } => b matches Expression::PhaseQualifiedVar {
            phase: p2,
            layer: l2,
            var: v2,
        } && p2@ == phase@ && l2@ == layer@ && v2@ == var@,
        Expression::PhaseConstraint { phase, constraint } => b matches Expression::PhaseConstraint {
            phase: p2,
            constraint: c2,
        } && p2@ == phase@ && same_expr(*constraint, *c2),
        Expression::CrossPhaseRelation { phase1, expr1, phase2, expr2, op } => b matches Expression::CrossPhaseRelation {
            phase1: q1,
            expr1: f1,
            phase2: q2,
            expr2: f2,
            op: o2,
        } && q1@ == phase1@ && q2@ == phase2@ && o2 == op && same_expr(*expr1, *f1) && same_expr(
            *expr2,
            *f2,
        ),
        Expression::BinaryOp { left, op, right } => b matches Expression::BinaryOp {
            left: l2,
            op: o2,
            right: r2,
        } && o2 == op && same_expr(*left, *l2) && same_expr(*right, *r2),
        Expression::Arithmetic { left, op, right } => b matches Expression::Arithmetic {
            left: l2,
            op: o2,
            right: r2,
        } && o2 == op && same_expr(*left, *l2) && same_expr(*right, *r2),
        Expression::Logical { left, op, right } => b matches Expression::Logical {
            left: l2,
            op: o2,
            right: r2,
        } && o2 == op && same_expr(*left, *l2) && same_expr(*right, *r2),
        Expression::Not(inner) => b matches Expression::Not(i2) && same_expr(*inner, *i2),
        Expression::FunctionCall { name, args } => b matches Expression::FunctionCall {
            name: n2,
            args: a2,
        } && n2@ == name@ && args@.len() == a2@.len() && same_exprs_from(args@, a2@, 0),
        Expression::Tuple(items) => b matches Expression::Tuple(i2) && items@.len() == i2@.len()
            && same_exprs_from(items@, i2@, 0),
    }
}

/// From index `i` on, each of `a` is the same expression as the one at its
/// index in `b`.
pub open spec fn same_exprs_from(a: Seq<Expression>, b: Seq<Expression>, i: int) -> bool
    decreases a, a.len() - i,
{
    if i < 0 || i >= a.len() {
        true
    } else {
        same_expr(a[i], b[i]) && same_exprs_from(a, b, i + 1)
    }
}

/// `same_exprs_from` holds exactly when each entry from `i` on is the same.
pub proof fn lemma_same_exprs_from(a: Seq<Expression>, b: Seq<Expression>, i: int)
    requires
        0 <= i <= a.len(),
    ensures
        same_exprs_from(a, b, i) <==> forall|j: int| i <= j < a.len() ==> #[trigger] same_expr(
            a[j],
            b[j],
        ),
    decreases a.len() - i,
{
    if i < a.len() {
        lemma_same_exprs_from(a, b, i + 1);
        if forall|j: int| i <= j < a.len() ==> #[trigger] same_expr(a[j], b[j]) {
            assert(same_expr(a[i], b[i]));
        }
    }
}

impl Clone for Expression {
    fn clone(&self) -> (r: Self)
        ensures
            same_expr(*self, r),
        decreases self,
    {
        match self {
            Expression::Boolean(b) => Expression::Boolean(*b),
            Expression::Var(v) => Expression::Var(v.clone()),
            Expression::LayerVar { layer, var } => Expression::LayerVar {
                layer: layer.clone(),
                var: var.clone(),
            },
            Expression::PhaseQualifiedVar { phase, layer, var } => Expression::PhaseQualifiedVar {
                phase: phase.clone(),
                layer: layer.clone(),
                var: var.clone(),
            },
            Expression::PhaseConstraint { phase, constraint } => Expression::PhaseConstraint {
                phase: phase.clone(),
                constraint: Box::new((**constraint).clone()),
            },
            Expression::CrossPhaseRelation { phase1, expr1, phase2, expr2, op } => {
                Expression::CrossPhaseRelation {
                    phase1: phase1.clone(),
                    expr1: Box::new((**expr1).clone()),
                    phase2: phase2.clone(),
                    expr2: Box::new((**expr2).clone()),
                    op: *op,
                }
            },
            Expression::Int(i) => Expression::Int(*i),
            Expression::BinaryOp { left, op, right } => Expression::BinaryOp {
                left: Box::new((**left).clone()),
                op: *op,
                right: Box::new((**right).clone()),
            },
            Expression::Arithmetic { left, op, right } => Expression::Arithmetic {
                left: Box::new((**left).clone()),
                op: *op,
                right: Box::new((**right).clone()),
            },
            Expression::Logical { left, op, right } => Expression::Logical {
                left: Box::new((**left).clone()),
                op: *op,
                right: Box::new((**right).clone()),
            },
            Expression::Not(inner) => Expression::Not(Box::new((**inner).clone())),
            Expression::FunctionCall { name, args } => Expression::FunctionCall {
                name: name.clone(),
                args: clone_list(args),
            },
            Expression::Tuple(items) => Expression::Tuple(clone_list(items)),
        }
    }
}

fn clone_list(items: &Vec<Expression>) -> (r: Vec<Expression>)
    ensures
        r@.len() == items@.len(),
        same_exprs_from(items@, r@, 0),
    decreases items,
{
    let mut out: Vec<Expression> = Vec::new();
    let mut i: usize = 0;
    while i < items.len()
        invariant
            i <= items.len(),
            out@.len() == i,
            forall|j: int| 0 <= j < i ==> #[trigger] same_expr(items@[j], out@[j]),
        decreases items.len() - i,
    {
        out.push(items[i].clone());
        i = i + 1;
    }
    proof {
        lemma_same_exprs_from(items@, out@, 0);
    }
    out
}

/// A state variable in a program.
#[derive(Debug, Clone)]
pub struct StateVar {
    /// Variable name.
    pub name: String,
    /// Data type (chain-specific).
    pub var_type: String,
    /// Whether it's mutable.
    pub is_mutable: bool,
    /// Visibility: "public", "private", "internal", etc.
    pub visibility: Option<String>,
}

/// A function or entry point in a program.
#[derive(Debug, Clone)]
pub struct FunctionModel {
    /// Function name.
    pub name: String,
    /// Function signature/parameters.
    pub parameters: Vec<String>,
    /// Return type.
    pub return_type: Option<String>,
    /// State variables this function mutates.
    pub mutates: StrSet,
    /// State variables this function reads.
    pub reads: StrSet,
    /// Whether this is an entry point.
    pub is_entry_point: bool,
    /// Whether it's pure/view (doesn't mutate state).
    pub is_pure: bool,
}

/// A complete program model extracted from source code.
#[derive(Debug)]
pub struct ProgramModel {
    /// Program/contract/module name.
    pub name: String,
    /// State variables by name.
    pub state_vars: StrMap<StateVar>,
    /// Functions/entry points by name.
    pub functions: StrMap<FunctionModel>,
    /// Function name to the state variables it mutates.
    pub mutation_graph: StrMap<StrSet>,
    /// Chain: "solana", "evm", "move", ...
    pub chain: String,
    /// Source file path.
    pub source_path: String,
}

impl ProgramModel {
    /// A program model with no state variables and no functions.
    pub fn new(name: String, chain: String, source_path: String) -> (r: Self)
        ensures
            r.name == name,
            r.chain == chain,
            r.source_path == source_path,
            r.state_vars@ == Map::<Seq<char>, StateVar>::empty(),
            r.functions@ == Map::<Seq<char>, FunctionModel>::empty(),
            r.mutation_graph@ == Map::<Seq<char>, StrSet>::empty(),
    {
        ProgramModel {
            name,
            chain,
            source_path,
            state_vars: StrMap::new(),
            functions: StrMap::new(),
            mutation_graph: StrMap::new(),
        }
    }

    /// Adds a state variable under its own name, replacing any earlier one.
    pub fn add_state_var(&mut self, var: StateVar)
        ensures
            final(self).state_vars@ == old(self).state_vars@.insert(var.name@, var),
            final(self).functions@ == old(self).functions@,
            final(self).mutation_graph@ == old(self).mutation_graph@,
            final(self).name == old(self).name,
            final(self).chain == old(self).chain,
            final(self).source_path == old(self).source_path,
    {
        let key = var.name.clone();
        self.state_vars.insert(key, var);
    }

    /// Adds a function under its own name, and records what it mutates.
    pub fn add_function(&mut self, func: FunctionModel)
        ensures
            final(self).functions@ == old(self).functions@.insert(func.name@, func),
            final(self).mutation_graph@.dom() == old(self).mutation_graph@.dom().insert(
                func.name@,
            ),
            final(self).mutation_graph@[func.name@]@ == func.mutates@,
            forall|k: Seq<char>|
                k != func.name@ ==> #[trigger] final(self).mutation_graph@.get(k) == old(
                    self,
                ).mutation_graph@.get(k),
            final(self).state_vars@ == old(self).state_vars@,
            final(self).name == old(self).name,
            final(self).chain == old(self).chain,
            final(self).source_path == old(self).source_path,
    {
        let key = func.name.clone();
        let muts = func.mutates.clone();
        self.mutation_graph.insert(key, muts);
        let key2 = func.name.clone();
        self.functions.insert(key2, func);
    }
}

/// Output from code generation.
#[derive(Debug, Clone)]
pub struct GenerationOutput {
    /// The generated code.
    pub code: String,
    /// Assertions injected.
    pub assertions: Vec<String>,
    /// Generated tests (if any).
    pub tests: Option<String>,
    /// Coverage percentage (0-100).
    pub coverage_percent: u8,
}

} // verus!
