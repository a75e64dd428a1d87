//! Backend logic for a Blade template language server: a syntax-tree model
//! kept in sync with document edits, cursor-to-node resolution, embedding
//! region classification, and the request/response protocol spoken to an
//! external PHP completion oracle.

pub mod dispatch;
pub mod parser;
pub mod phpactor;
pub mod store;
pub mod treesitter;
