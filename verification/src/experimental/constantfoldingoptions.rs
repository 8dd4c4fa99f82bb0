use vstd::prelude::*;

verus! {

/// Settings to use when constant folding.
#[derive(Debug, Clone, Copy, PartialEq, Eq, Hash, Structural)]
pub struct ConstantFoldingOptions {
    /// Whether numbers are read out of strings when folding arithmetic.
    pub extract_numbers_from_strings: bool,
}

impl ConstantFoldingOptions {
    /// The default, most conservative, preset.
    pub fn default_preset() -> (r: Self)
        ensures
            !r.extract_numbers_from_strings,
    {
        ConstantFoldingOptions { extract_numbers_from_strings: false }
    }

    /// The preset with everything set to true.
    pub fn all() -> (r: Self)
        ensures
            r.extract_numbers_from_strings,
    {
        ConstantFoldingOptions { extract_numbers_from_strings: true }
    }
}

} // verus!
