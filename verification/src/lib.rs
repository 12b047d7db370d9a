//! Parameterised SQL clause fragments built from typed filter, sort and
//! pagination instructions.
//!
//! A [`sql_generator::Table`] registers the columns that callers may refer to
//! and the alias under which each is known. Its three builders turn a list of
//! [`sql_generator::Query`] values into clause text and the values to bind to
//! the placeholders of that text. The text is made of registered column
//! names and fixed tokens only: what a query carries is bound, never written.
//!
//! [`semantics`] says what each builder produces; [`laws`] and
//! [`placeholders`] state what follows from it.

pub mod laws;
pub mod placeholders;
pub mod registry;
pub mod selection;
pub mod semantics;
pub mod sql_generator;
pub mod text;
