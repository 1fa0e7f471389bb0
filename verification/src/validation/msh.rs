//! The header pass: which version of the standard a message is validated
//! against, and the finding for a version the catalog does not know.

use super::{push_finding, Finding, FindingCode, ValidationCode, ValidationError};
use crate::diagnostics::Severity;
use crate::message::{Field, Message};
use crate::spec::{is_valid_version, Catalog};
use vstd::prelude::*;

verus! {

/// The version used where the header names none, or one the catalog does not
/// know.
pub open spec fn fallback_version() -> Seq<char> {
    "2.7.1"@
}

/// The header field that holds the version.
pub open spec fn version_field(message: Message) -> Option<Field> {
    message.spec_header_field(12)
}

/// The version a message is validated against: the one its header names where
/// the catalog knows it, the fallback otherwise.
pub open spec fn resolved_version(message: Message, catalog: Catalog) -> Seq<char> {
    match version_field(message) {
        Some(field) => if catalog.knows_version(field.value@) {
            field.value@
        } else {
            fallback_version()
        },
        None => fallback_version(),
    }
}

/// The finding for a version field that holds an unknown version.
pub open spec fn unknown_version(field: Field) -> Finding {
    Finding {
        code: FindingCode::InvalidTableValue,
        message: "Unknown HL7 version `"@ + field.value@ + "`"@,
        range: field.range,
        severity: Severity::Warning,
    }
}

/// The findings of the header pass.
pub open spec fn findings(message: Message, catalog: Catalog) -> Seq<Finding> {
    match version_field(message) {
        Some(field) => if catalog.knows_version(field.value@) {
            Seq::empty()
        } else {
            seq![unknown_version(field)]
        },
        None => Seq::empty(),
    }
}

/// Resolves the version of a message and reports a version the catalog does
/// not know.
pub fn validate_message<'m>(message: &'m Message, catalog: &Catalog) -> (r: (
    &'m str,
    Vec<ValidationError>,
))
    ensures
        r.0@ == resolved_version(*message, *catalog),
        r.1.deep_view() == findings(*message, *catalog),
{
    let mut errors: Vec<ValidationError> = Vec::new();
    assert(errors.deep_view() =~= Seq::<Finding>::empty());
    match message.header_field(12) {
        Some(field) => {
            let version = field.value.as_str();
            if is_valid_version(catalog, version) {
                (version, errors)
            } else {
                let mut text = String::from_str("Unknown HL7 version `");
                text.append(version);
                text.append("`");
                push_finding(
                    &mut errors,
                    ValidationError::new(
                        ValidationCode::InvalidTableValue,
                        text,
                        field.range,
                        Severity::Warning,
                    ),
                );
                assert(errors.deep_view() =~= seq![unknown_version(*field)]);
                ("2.7.1", errors)
            }
        },
        None => ("2.7.1", errors),
    }
}

} // verus!
