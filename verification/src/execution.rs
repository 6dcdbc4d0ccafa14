pub mod frontend;
pub mod measurement;
pub mod transaction;
