//! The closed error taxonomy shared by every conversion in this crate.

use vstd::prelude::*;

verus! {

/// Every fallible conversion in this crate reports one of these kinds;
/// composite conversions short-circuit on the first error and propagate it
/// unchanged.
#[derive(Debug, Clone, Copy, PartialEq, Eq, Structural)]
pub enum ScimError {
    /// An entry's schema list does not contain the URN required by the
    /// target resource type.
    EntryMissingSchema,
    /// A value expected to be a complex (object) attribute is not an object.
    InconsistentMultiValue,
    /// A multi-valued wire attribute is an empty array.
    EmptyMultiValue,
    /// A multi-valued wire attribute's first element is itself an array.
    NestedMultiValue,
    /// A scalar-position wire value is null, an object, or an array.
    InvalidSingleValue,
    /// A required field's key is absent from the attribute map.
    MissingRequiredAttribute,
    /// A present attribute has the wrong shape for the field, or a
    /// timestamp, URI, UUID or identifier fails to parse.
    InvalidAttribute,
    /// A textual locale value is not in the closed recognized set.
    UnknownLocale,
    /// A textual timezone value is not in the closed recognized set.
    UnknownTimezone,
}

} // verus!
