//! Front end of a small expression-oriented language.
//!
//! * [`lexanal`] reads the symbols of a source text: the lexical rules say
//!   which symbol stands at a place of the text, and the lexical analyzer
//!   reads exactly that symbol.
//! * [`synanal`] builds the tree of a source text: the grammar says which
//!   tree the symbols derive, and the syntax analyzer builds exactly that
//!   tree, or fails with the first error.
//! * [`abstree`] holds the nodes of the tree. The span of a node contains the
//!   spans of its children. A visitor walks the tree without knowing the kinds
//!   of the nodes that it meets.
//! * [`report`], [`text`] and [`xml`] put symbols, trees and errors into
//!   words and into XML form.

pub mod abstree;
pub mod lexanal;
pub mod report;
pub mod synanal;
pub mod text;
pub mod xml;
