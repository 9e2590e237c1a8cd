//! A composable value-validation engine.
//!
//! A [`value::Value`] is a tagged scalar. A rule ([`check::Checker`]) turns a
//! value into a [`notice::Notice`], the three-state severity of the outcome.
//! Rules are wrapped to remap their severity, merged into one rule per field,
//! and gathered into a registry that answers one `(field, value)` pair with
//! one commit record.
pub mod check;
pub mod commit;
pub mod decimal;
pub mod notice;
pub mod pattern;
pub mod value;
