//! Encoders for the EAN barcode family.
//!
//! The `sym` module holds the symbologies: EAN-8 and the EAN-2 / EAN-5
//! supplementals, together with the shared digit tables, guard patterns and
//! the validation contract they are built on. Each encoder turns a validated
//! digit string into the flat sequence of bar/space bits that a renderer
//! consumes.

pub mod sym;
