//! Lua syntax options, lexer diagnostics and minifying helpers.

pub mod backtickstringtype;
pub mod commandline;
pub mod continuetype;
pub mod differential;
pub mod errors;
pub mod experimental;
pub mod fuzzing;
pub mod integerformats;
pub mod luaparseoptions;
pub mod luaresources;
pub mod luasyntaxoptions;
pub mod operations;
pub mod scoping;
pub mod text;
