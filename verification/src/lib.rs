pub mod error;
pub mod execution;
pub mod interpreter;
pub mod mock;
mod render;
pub mod syntax;

pub use error::{Error, ErrorNote, ErrorReason, Label};
pub use execution::frontend::{Dialog, FrontendRequest};
pub use execution::measurement::{FailedTest, Measurement, MeasurementTest};
pub use execution::transaction::{Device, Transaction, TransactionStatus};
pub use interpreter::Interpreter;
pub use mock::{tcu_decode_byte, tcu_format_measurement, MockTCUPort};
pub use syntax::evaluate::{evaluate, tcu_format_byte, EvalState, TimeFields};
pub use syntax::expression::{Expr, ExprKind, ParsedExpr, Span};
pub use syntax::parse::parse_from_str;
