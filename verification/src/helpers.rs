//! The token types of `proc_macro2` and the traits of `quote`, for those who
//! implement `SelfRustTokenize` by hand.

pub use proc_macro2::{self, TokenStream};
pub use quote::{ToTokens as QuoteToTokens, TokenStreamExt};
