//! Validation of HL7 v2 messages against a versioned standard catalog and
//! directory-scoped workspace overrides, with the text position mapping that
//! turns byte ranges into line and column positions.

pub mod cli;
pub mod code_actions;
pub mod codelens;
pub mod commands;
pub mod completion;
pub mod datetime;
pub mod diagnostics;
pub mod document_symbols;
pub mod hover;
pub mod lookup;
pub mod message;
pub mod numeric;
pub mod order;
pub mod selection_range;
pub mod signature_help;
pub mod spec;
pub mod text;
pub mod utils;
pub mod validation;
pub mod versions;
pub mod workspace;
