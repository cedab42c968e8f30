//! Semantic analysis for a small language that describes arithmetic circuits
//! over a prime field, together with the synthesis of the built-in flat
//! functions the language cannot express itself.
//!
//! The checker walks an untyped positioned syntax tree and produces either a
//! typed tree or a list of positioned errors. Every executable function is
//! proved against a mathematical model of the data it handles: `rules` says
//! what the checker answers, `laws` and `names` say what holds of those
//! answers whatever the program.

pub mod absy;
pub mod absy_text;
pub mod conversions;
pub mod expressions;
pub mod field;
pub mod flat_absy;
pub mod laws;
pub mod messages;
pub mod names;
pub mod position;
pub mod programs;
pub mod rules;
pub mod semantics;
pub mod statements;
pub mod text;
pub mod typed_absy;
pub mod typed_text;
pub mod types;
pub mod well_formed;
