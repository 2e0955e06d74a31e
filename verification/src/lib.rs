//! A single-pass lexer for a small expression language.
//!
//! The scanner walks the input text once, classifying runs of characters into
//! lexemes, tracking a line/column cursor, and accumulating lexical faults.
//! Its behaviour is pinned down by a mathematical model: a recursive state
//! machine over the input's character sequence, against which the executable
//! scanner is proved.

mod chars;
mod error;
mod laws;
mod lexer;
mod loc;
mod model;
mod token;

pub use chars::alnum_char;
pub use chars::alphabetic_char;
pub use chars::ascii_punct_char;
pub use chars::numeric_char;
pub use chars::singular_char;
pub use chars::unicode_alphabetic;
pub use chars::unicode_numeric;
pub use chars::unicode_white_space;
pub use chars::whitespace_char;
pub use error::Error;
pub use error::ErrorKind;
pub use error::ErrorKindModel;
pub use error::ErrorModel;
pub use laws::lemma_keyword_classification;
pub use laws::lemma_lex_deterministic;
pub use laws::lemma_success_coverage;
pub use laws::lemma_supported_faults;
pub use laws::lemma_whitespace_only;
pub use laws::pos_at;
pub use laws::spans_cover;
pub use laws::spans_place;
pub use lexer::lex;
pub use loc::LocModel;
pub use loc::RangeModel;
pub use loc::SrcLoc;
pub use loc::SrcRange;
pub use model::lex_result_matches;
pub use model::lex_spec;
pub use model::loc_step;
pub use model::scan;
pub use model::state_rank;
pub use model::supported_char;
pub use model::LexOut;
pub use model::StateModel;
pub use token::classify;
pub use token::Lexeme;
pub use token::LexemeModel;
pub use token::Token;
pub use token::TokenModel;
