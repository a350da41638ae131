//! A template expander: it turns an invocation of the form
//! `<count> , <binder> , { body }` into an array or tuple literal of
//! `count` copies of the body, each copy prefixed by a binding of the
//! binder to its 0-based index.
//!
//! The expander works on its own token-tree model; the host compiler's
//! token streams are converted to and from that model outside the
//! library.

pub mod digits;
pub mod expand;
pub mod laws;
pub mod parse;
pub mod token;

pub use expand::{array, tuple};
