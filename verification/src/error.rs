//! Typed, inspectable errors: schema validation failures, binder failures,
//! and the distinguished empty-result outcome for point lookups.

use vstd::prelude::*;

verus! {

/// An error raised while registering a schema.
#[derive(Debug, PartialEq, Eq, Clone)]
pub enum SchemaError {
    /// The declared field list contains no primary-key field.
    NoPrimaryKey,
}

/// An error raised while adding one value to a [`crate::values::SerializedValues`]
/// container.
#[derive(Debug, PartialEq, Eq, Clone, Copy)]
pub enum SerializeValuesError {
    /// The container already holds as many values as the transport can count.
    TooManyValues,
    /// Named and positional values were mixed within one container.
    MixingNamedAndNotNamedValues,
    /// The encoded value exceeds the transport's maximum size.
    ValueTooBig,
}

/// An error when building the bound values of an upsert query.
#[derive(Debug, PartialEq, Eq, Clone)]
pub enum BuildUpsertQueryError {
    /// There were too many values.
    TooManyValues {
        /// The field being added when the error was raised.
        field: String,
    },
    /// Named and positional values cannot be mixed within one call.
    MixingNamedAndNotNamedValues,
    /// The encoded value for a field was too big for the transport.
    ValueTooBig {
        /// The field being added when the error was raised.
        field: String,
    },
    /// A field's type-specific encoder failed.
    ParseError {
        /// The field being added when the error was raised.
        field: String,
    },
}

/// Mathematical image of [`BuildUpsertQueryError`]: field names as character
/// sequences.
pub enum BuildUpsertQueryErrorV {
    TooManyValues { field: Seq<char> },
    MixingNamedAndNotNamedValues,
    ValueTooBig { field: Seq<char> },
    ParseError { field: Seq<char> },
}

impl View for BuildUpsertQueryError {
    type V = BuildUpsertQueryErrorV;

    open spec fn view(&self) -> BuildUpsertQueryErrorV {
        match self {
            BuildUpsertQueryError::TooManyValues { field } => (BuildUpsertQueryErrorV::TooManyValues { field: field@ }),
            BuildUpsertQueryError::MixingNamedAndNotNamedValues => BuildUpsertQueryErrorV::MixingNamedAndNotNamedValues,
            BuildUpsertQueryError::ValueTooBig { field } => (BuildUpsertQueryErrorV::ValueTooBig { field: field@ }),
            BuildUpsertQueryError::ParseError { field } => (BuildUpsertQueryErrorV::ParseError { field: field@ }),
        }
    }
}

/// Attaches the name of the field being bound to a container error.
pub fn attach_field(e: SerializeValuesError, field: String) -> (r: BuildUpsertQueryError)
    ensures
        (match e {
            SerializeValuesError::TooManyValues => r@ == (BuildUpsertQueryErrorV::TooManyValues { field: field@ }),
            SerializeValuesError::MixingNamedAndNotNamedValues => r@
                == BuildUpsertQueryErrorV::MixingNamedAndNotNamedValues,
            SerializeValuesError::ValueTooBig => r@ == (BuildUpsertQueryErrorV::ValueTooBig { field: field@ }),
        }),
{
    match e {
        SerializeValuesError::TooManyValues => BuildUpsertQueryError::TooManyValues { field },
        SerializeValuesError::MixingNamedAndNotNamedValues => BuildUpsertQueryError::MixingNamedAndNotNamedValues,
        SerializeValuesError::ValueTooBig => BuildUpsertQueryError::ValueTooBig { field },
    }
}

/// A call-time error surfaced to the immediate caller.
#[derive(Debug, PartialEq, Eq, Clone)]
pub enum ScyllaxError {
    /// No rows were found when a single row was asked for: a distinguished
    /// empty-result outcome, not an exceptional control-flow shortcut.
    NoRowsFound,
    /// There was an error when building an upsert query.
    BuildUpsertQueryError(BuildUpsertQueryError),
}

} // verus!
