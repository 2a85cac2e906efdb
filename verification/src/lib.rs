//! Values that describe themselves as the tokens that would build them.
//!
//! A type that implements [`SelfRustTokenize`] turns each of its values into a
//! `proc_macro2::TokenStream`: the expression that, compiled, gives an equal
//! value. The scalars, strings, boxes, options, lists, tuples and references
//! of the standard library have the capability; a struct or an enum gets it
//! from the functions of [`_private`], which a derived implementation calls,
//! or from [`builder::derive`], which works from a description of the type.
//!
//! Every function states what it writes over a model of the stream: the
//! sequence of [`token::Token`] that [`stream::tokens`] gives. What the calls
//! into `proc_macro2` and `quote` do to that sequence is stated beside each
//! call, in [`stream`] and [`literal`], and is taken on trust there.
//!
//! * [`token`]: the model, and the forms that paths, lists and constructors take.
//! * [`ident`]: which names an identifier token accepts.
//! * [`tokenize`], [`containers`], [`tuples`], [`references`]: the capability
//!   and the types that have it.
//! * [`shape`], [`resolve`], [`builder`]: the shape of a type, the strategy
//!   that its markers select, and the tokens of a value of it.
//! * [`evaluate`], [`order`]: what can be read back from the tokens.

pub mod _private;
pub mod builder;
pub mod containers;
pub mod evaluate;
pub mod helpers;
pub mod ident;
pub mod literal;
pub mod order;
pub mod path;
pub mod references;
pub mod resolve;
pub mod shape;
pub mod stream;
pub mod token;
pub mod tokenize;
pub mod tuples;

pub use crate::tokenize::SelfRustTokenize;
