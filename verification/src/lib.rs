//! A lexical scanner for a small JavaScript-like language.
//!
//! The scanner walks an input string character by character and produces a
//! flat sequence of tokens: identifiers, string literals, numeric literals
//! and single-character punctuation. It never fails: malformed input degrades
//! to best-effort tokens.

pub mod charset;
pub mod config;
pub mod laws;
pub mod lexer;
pub mod model;
pub mod token;

pub use lexer::Lexer;
pub use lexer::scan_tokens;

pub use token::Keyword;
pub use token::Token;
pub use token::TokenView;
pub use charset::is_alpha;
pub use charset::is_alnum;
pub use charset::is_ws;
pub use charset::is_quote_char;
pub use charset::is_ident_char;
