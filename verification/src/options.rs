//! Which optional facts an analysis retains.

use vstd::prelude::*;

verus! {

/// Controls optional semantic retention. The default checks all supported C code
/// without retaining anything optional.
#[derive(Clone, Copy, Debug, PartialEq, Eq, Structural)]
pub struct AnalysisOptions {
    /// Retain checked expressions, statements, initializers, and their bindings.
    pub retain_code: bool,
    /// Retain file-scope declaration locations without retaining bodies or expressions.
    pub retain_declaration_origins: bool,
    /// Retain file object occurrences and checked scalar initializer values.
    pub retain_object_values: bool,
    /// Retain declaration starts, member locations, and containing declaration locations.
    pub retain_documentation_origins: bool,
    /// Retain source typedef dependencies erased by array-parameter adjustment.
    pub retain_parameter_type_dependencies: bool,
}

impl Default for AnalysisOptions {
    fn default() -> (r: Self)
        ensures
            !r.retain_code && !r.retain_declaration_origins && !r.retain_object_values
                && !r.retain_documentation_origins && !r.retain_parameter_type_dependencies,
    {
        AnalysisOptions {
            retain_code: false,
            retain_declaration_origins: false,
            retain_object_values: false,
            retain_documentation_origins: false,
            retain_parameter_type_dependencies: false,
        }
    }
}

} // verus!
