//! Attribution of paths in a Git working tree: which commit last touched a
//! file or directory, who contributed to it most recently, and which commit
//! each line of a file comes from.

pub mod blame;
pub mod cli;
pub mod commit;
pub mod error;
pub mod history;
pub mod locate;
pub mod path;
pub mod search;
pub mod store;
pub mod syntax;
pub mod text;
pub mod touch;
pub mod utils;
