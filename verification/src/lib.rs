//! A small template-rendering library for listing terminal multiplexer
//! sessions and tabs.
//!
//! A template is a text with mustache-like tags: `{{path}}` interpolates a
//! dotted field path from the render context, `{{name arg ...}}` invokes one
//! of a fixed set of helpers (arithmetic, text styling, sequence joining),
//! and `{{#name}}...{{/name}}` block constructs render as empty text. The
//! dispatcher selects a data view per request, renders a template once per
//! record, and either joins the lines or reports the first failure as a
//! positional diagnostic.

use vstd::prelude::*;

pub mod colorize;
pub mod dispatch;
pub mod engine;
pub mod formatter;
pub mod report;
pub mod style;
pub mod text;
pub mod value;
pub mod views;

verus! {

} // verus!
