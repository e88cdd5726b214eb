//! The core of a terminal markdown viewer, with its contracts proved by
//! Verus.
//!
//! A document goes through two stages. The block parser ([`parser`]) reads
//! the events of a markdown source ([`tokenizer`]) and makes blocks of
//! styled text, with code blocks highlighted ([`highlight`]). The layout
//! engine ([`layout`]) wraps the blocks to a column width, each character
//! keeping its style, and flattens them into display lines. The viewer's
//! state ([`app`]) scrolls over those lines, and [`renderer`] builds the
//! rows that are put on the screen.
//!
//! What holds of every layout is proved in [`layout_proofs`] and
//! [`word_proofs`].

pub mod modifier;
pub mod style;
pub mod text;
pub mod parser;
pub mod tokenizer;
pub mod highlight;
pub mod layout;
pub mod layout_proofs;
pub mod word_proofs;
pub mod app;
pub mod renderer;
pub mod cli;
