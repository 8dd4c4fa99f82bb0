pub mod binaryfold;
pub mod constantfolder;
pub mod constantfoldingoptions;
pub mod expressionflags;
pub mod luaextensions;
pub mod minifying;
pub mod numparsing;
pub mod syntaxextensions;
