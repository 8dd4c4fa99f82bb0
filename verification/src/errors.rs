pub mod errorcode;
pub mod lexerdiagnostics;
pub mod errorfacts;
pub mod luadiagnostic;
pub mod luadiagnosticformatter;
pub mod luadiagnosticinfo;
pub mod messageprovider;
pub mod parserdiagnostics;
pub mod syntaxdiagnosticinfo;
