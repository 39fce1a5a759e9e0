pub mod error;
pub mod laws;
pub mod query;
pub mod query_tree;
pub mod schema;
pub mod text;
pub mod tokens;
pub mod values;

pub use error::QueryError;
pub use query::{FloatOrder, QueryFn, parse};
pub use query_tree::{Op, QueryTree};
pub use schema::{ColItem, ColType, Schema};
pub use tokens::{Token, tokenise};
