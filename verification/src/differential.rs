pub mod json;
pub mod kindnames;
pub mod ops;
