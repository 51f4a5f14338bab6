//! Generates packet-dissector scripts from analyzed packet descriptions.
//!
//! The library lowers an analyzed declaration file into a dissector model and
//! renders that model as script text. Every function carries a contract over
//! the mathematical model of its arguments: text is a `Seq<char>`, lengths are
//! natural numbers, and each model type has a view.

pub mod ast;
pub mod comments;
pub mod dissect;
pub mod dissector_info;
pub mod driver;
pub mod error;
pub mod laws;
pub mod len_info;
pub mod lower;
pub mod model;
pub mod proto_fields;
pub mod rules;
pub mod stability;
pub mod text;
pub mod utils;

pub use driver::{run, Args};
