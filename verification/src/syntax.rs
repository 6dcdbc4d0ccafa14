pub mod error;
pub mod evaluate;
pub mod expression;
pub mod parse;
