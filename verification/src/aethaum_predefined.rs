//! Items every generated project is given before its own modules: the
//! `Describe` trait that generated component types implement to expose their
//! schema descriptions to tooling.

use vstd::prelude::*;

verus! {

/// Human-readable descriptions of a generated type and its fields. The
/// defaults say nothing; generated impls override them with the schema's
/// description strings.
pub trait Describe {
    /// Describes the type itself.
    fn describe(&self) -> &'static str {
        ""
    }

    /// Describes one field by name.
    fn describe_field(&self, field_name: &str) -> &'static str {
        ""
    }
}

} // verus!
