//! A compile-time token rewriter: every occurrence of the failure-propagation
//! marker `?` in a token sequence is expanded, at any nesting depth, into the
//! three-token suffix `. unwrap ( )`, so that `Some(42)?` becomes
//! `Some(42).unwrap()`. The transform is purely structural: it never
//! interprets token meaning, and every non-marker token is passed through
//! unchanged, delimiters and source positions included.

mod laws;
mod rewrite;
mod token;

pub use laws::is_marker;
pub use laws::lemma_group_in_place;
pub use laws::lemma_marker_free_concat;
pub use laws::lemma_marker_free_singleton;
pub use laws::lemma_nested_in_place;
pub use laws::lemma_no_marker_identity;
pub use laws::lemma_rewrite_concat;
pub use laws::lemma_rewrite_len;
pub use laws::lemma_rewrite_marker_free;
pub use laws::lemma_token_rewrite_marker_free;
pub use laws::lemma_single_marker;
pub use laws::lemma_token_no_marker_identity;
pub use laws::marker_count;
pub use laws::marker_free;
pub use laws::nested;
pub use laws::token_marker_free;
pub use rewrite::expansion;
pub use rewrite::expr;
pub use rewrite::function;
pub use rewrite::no_args_message;
pub use rewrite::process;
pub use rewrite::rewrite_seq;
pub use rewrite::rewrite_token;
pub use token::Delim;
pub use token::Spacing;
pub use token::Token;
pub use token::TokenV;
pub use token::token_view;
pub use token::tokens_view;
