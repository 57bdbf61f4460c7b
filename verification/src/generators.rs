//! Code generators that turn invariants into assertions for a target chain.
use vstd::prelude::*;
use crate::error::InvarError;
use crate::model::{expr_text, FunctionModel, GenerationOutput, Invariant, ProgramModel};
use crate::strmap::string_views;
use crate::text::{dec_digits, push_str, push_u128, string_from, to_uppercase, unicode_uppercase};

verus! {

/// The assertion a Move module gets for an invariant.
pub open spec fn move_assertion(inv: Invariant) -> Seq<char> {
    "assert!("@ + expr_text(inv.expression) + ", E_INVARIANT_"@ + unicode_uppercase(inv.name@)
        + ");"@
}

/// The assertion a Solana program gets for an invariant.
pub open spec fn solana_assertion(inv: Invariant) -> Seq<char> {
    "assert!("@ + expr_text(inv.expression) + ", \"Invariant "@ + inv.name@ + " violated\");"@
}

/// The header of generated Move code.
pub open spec fn move_code(program: Seq<char>, n: nat) -> Seq<char> {
    "// Generated Move invariant checks for "@ + program + "\n// "@ + dec_digits(n)
        + " assertions\n"@
}

/// The header of generated Solana code.
pub open spec fn solana_code(program: Seq<char>, n: nat) -> Seq<char> {
    "// Generated invariant checks for "@ + program + "\n// "@ + dec_digits(n)
        + " invariants injected\n"@
}

/// The coverage a Solana program is credited with: none without functions,
/// else the number of assertions as a byte (`as u8`), at most 100.
pub open spec fn solana_coverage(has_functions: bool, n: nat) -> u8 {
    if !has_functions {
        0
    } else if n % 256 < 100 {
        (n % 256) as u8
    } else {
        100
    }
}

/// Generates assertions for Move modules.
pub struct MoveGenerator;

/// Generates assertions for Solana programs.
pub struct SolanaGenerator;

impl MoveGenerator {
    /// One `assert!` per invariant, aborting with the invariant's upper-cased
    /// name as error constant, and a header naming the program.
    pub fn generate(&self, program: &ProgramModel, invariants: &[Invariant]) -> (r: Result<
        GenerationOutput,
        InvarError,
    >)
        ensures
            r matches Ok(out) && string_views(out.assertions@) == invariants@.map_values(
                |inv: Invariant| move_assertion(inv),
            ) && out.code@ == move_code(program.name@, invariants@.len()) && out.tests is None
                && out.coverage_percent == 0,
    {
        let mut assertions: Vec<String> = Vec::new();
        let mut i: usize = 0;
        while i < invariants.len()
            invariant
                i <= invariants.len(),
                assertions@.len() == i,
                forall|j: int|
                    0 <= j < i ==> #[trigger] assertions@[j]@ == move_assertion(invariants@[j]),
            decreases invariants.len() - i,
        {
            let inv = &invariants[i];
            let mut a = string_from("assert!(");
            inv.expression.write_to(&mut a);
            push_str(&mut a, ", E_INVARIANT_");
            let up = to_uppercase(inv.name.as_str());
            push_str(&mut a, up.as_str());
            push_str(&mut a, ");");
            assertions.push(a);
            i = i + 1;
        }
        let mut code = string_from("// Generated Move invariant checks for ");
        push_str(&mut code, program.name.as_str());
        push_str(&mut code, "\n// ");
        push_u128(&mut code, assertions.len() as u128);
        push_str(&mut code, " assertions\n");
        assert(string_views(assertions@) =~= invariants@.map_values(
            |inv: Invariant| move_assertion(inv),
        ));
        Ok(GenerationOutput { code, assertions, tests: None, coverage_percent: 0 })
    }

    /// The chain this generator targets.
    pub fn chain(&self) -> (r: &'static str)
        ensures
            r@ == "move"@,
    {
        "move"
    }
}

impl SolanaGenerator {
    /// One `assert!` per invariant, naming it in the panic message, and a
    /// header naming the program; coverage is the number of assertions,
    /// capped at 100, or 0 for a program without functions.
    pub fn generate(&self, program: &ProgramModel, invariants: &[Invariant]) -> (r: Result<
        GenerationOutput,
        InvarError,
    >)
        ensures
            r matches Ok(out) && string_views(out.assertions@) == invariants@.map_values(
                |inv: Invariant| solana_assertion(inv),
            ) && out.code@ == solana_code(program.name@, invariants@.len()) && out.tests is None
                && out.coverage_percent == solana_coverage(
                program.functions@ != Map::<Seq<char>, FunctionModel>::empty(),
                invariants@.len(),
            ),
    {
        let mut assertions: Vec<String> = Vec::new();
        let mut i: usize = 0;
        while i < invariants.len()
            invariant
                i <= invariants.len(),
                assertions@.len() == i,
                forall|j: int|
                    0 <= j < i ==> #[trigger] assertions@[j]@ == solana_assertion(invariants@[j]),
            decreases invariants.len() - i,
        {
            let inv = &invariants[i];
            let mut a = string_from("assert!(");
            inv.expression.write_to(&mut a);
            push_str(&mut a, ", \"Invariant ");
            push_str(&mut a, inv.name.as_str());
            push_str(&mut a, " violated\");");
            assertions.push(a);
            i = i + 1;
        }
        let mut code = string_from("// Generated invariant checks for ");
        push_str(&mut code, program.name.as_str());
        push_str(&mut code, "\n// ");
        push_u128(&mut code, assertions.len() as u128);
        push_str(&mut code, " invariants injected\n");
        let n = assertions.len();
        let coverage_percent: u8 = if program.functions.is_empty() {
            0
        } else if n % 256 < 100 {
            (n % 256) as u8
        } else {
            100
        };
        assert(string_views(assertions@) =~= invariants@.map_values(
            |inv: Invariant| solana_assertion(inv),
        ));
        Ok(GenerationOutput { code, assertions, tests: None, coverage_percent })
    }

    /// The chain this generator targets.
    pub fn chain(&self) -> (r: &'static str)
        ensures
            r@ == "solana"@,
    {
        "solana"
    }
}

} // verus!
