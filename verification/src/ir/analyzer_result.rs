//! What the analysis phase hands on: the program model, whether the
//! analysis completed, and its warnings.
use vstd::prelude::*;
use crate::model::ProgramModel;

verus! {

/// Context information from the analysis phase.
#[derive(Debug)]
pub struct AnalysisContext {
    /// The analyzed program model.
    pub program: ProgramModel,
    /// Whether analysis completed successfully.
    pub is_valid: bool,
    /// Any warnings encountered during analysis.
    pub warnings: Vec<String>,
}

impl AnalysisContext {
    /// A valid context with no warnings.
    pub fn new(program: ProgramModel) -> (r: Self)
        ensures
            r.program == program,
            r.is_valid,
            r.warnings@.len() == 0,
    {
        AnalysisContext { program, is_valid: true, warnings: Vec::new() }
    }

    /// Records a warning.
    pub fn add_warning(&mut self, warning: String)
        ensures
            final(self).warnings@ == old(self).warnings@.push(warning),
            final(self).is_valid == old(self).is_valid,
            final(self).program == old(self).program,
    {
        self.warnings.push(warning);
    }

    /// Marks the analysis as invalid.
    pub fn mark_invalid(&mut self)
        ensures
            !final(self).is_valid,
            final(self).warnings@ == old(self).warnings@,
            final(self).program == old(self).program,
    {
        self.is_valid = false;
    }
}

} // verus!
