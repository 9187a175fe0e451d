pub mod bindings;
pub mod ctok;
pub mod ctree;
pub mod eval;
pub mod keep;
pub mod laws;
pub mod matcher;
pub mod node;
pub mod ns;
pub mod render;
pub mod rule;
pub mod ttr;

pub use bindings::Bindings;
pub use ctok::{LexError, Token, Tokenizer};
pub use ctree::to_tree;
pub use node::{Node, RewriteError};
pub use ns::Namespace;
pub use rule::{Rule, RuleSet, pass, run};
pub use ttr::make_ttr_rules;
