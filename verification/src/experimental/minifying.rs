pub mod minifyingutils;
pub mod namingstrategies;
pub mod renametable;
pub mod renamingrewriter;
pub mod islotallocator;
pub mod sequentialslotallocator;
pub mod sortedslotallocator;
pub mod triviarewriter;
