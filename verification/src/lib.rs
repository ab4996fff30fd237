//! A résumé toolkit: renders a structured résumé record into Markdown and
//! formats derived from it (plain text, HTML), and scores how well a résumé
//! matches a job description, with improvement suggestions.
#![verifier::loop_isolation(false)]

pub mod collections;
pub mod convert;
pub mod date;
pub mod formatter;
pub mod model;
pub mod optimizer;
pub mod text;
