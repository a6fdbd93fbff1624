//! Command-line argument tokenizer and typed-value binder.
//!
//! Raw tokens are grouped into (flag, values) pairs, collected into a table
//! keyed by the flag as written, and each declared field is then coerced from
//! its short and long alias and the two results reconciled into one value.
pub mod error;
pub mod name;
pub mod value;
pub mod table;
pub mod parse;
pub mod coerce;
pub mod fields;

pub use coerce::ToType;
pub use error::ArgError;
pub use fields::{parse_args, FieldSpec};
pub use table::collect_args;
pub use value::ArgValue;
