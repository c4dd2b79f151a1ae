//! A small parser-combinator core: parsers are values that turn a state into a
//! new state and a value, or fail with an error, and adapters build new parsers
//! out of existing ones. The text layer tracks the source position of every step.
pub mod adapter;
pub mod laws;
pub mod location;
pub mod number;
pub mod parser;
pub mod text_parser;
pub mod text_state;

pub use adapter::{FlatMap, Flatten, Ignore, Keep, Map2, Mapped};
pub use location::{Located, Location, SourceRange};
pub use number::Number;
pub use parser::{Combinators, Parser, Succeed};
pub use text_parser::{whitespace, Chop, TextParser, Token};
pub use text_state::TextState;
