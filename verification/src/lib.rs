//! Binding of query parameters: walking the server's input type descriptor
//! and assembling the value that answers it, one prompted field at a time.
//!
//! - [`descriptor`] and [`protocol`] hold the table as it was received.
//! - [`capability`] resolves a position of the table to what the user is
//!   asked for there; [`nesting`] shows that its limit on nesting loses
//!   nothing.
//! - [`variables`] decides, prompt by prompt, what to ask next and what
//!   the responses come to; [`value`] holds what passes through it, and
//!   [`laws`] what holds of every binding.
//! - [`parse`] reads integers and arrays of them from text.
//! - [`analyze`] builds the statement of the `analyze` command.

pub mod analyze;
pub mod capability;
pub mod descriptor;
pub mod error;
pub mod laws;
pub mod nesting;
pub mod parse;
pub mod protocol;
pub mod text;
pub mod value;
pub mod variables;

pub use capability::{make_variable_input, scalar_kind, Capability, ScalarKind};
pub use descriptor::{Cardinality, Descriptor, InputTypedesc, ShapeElement, TupleElement, TypePos};
pub use error::{BindError, Canceled};
pub use parse::ParseError;
pub use protocol::ProtocolVersion;
pub use value::{Bound, BoundValue, Input, Prompt, PromptView, ShapeKind};
pub use variables::{assemble, begin, input_item, input_variables, Binder, Step, Transcript};
