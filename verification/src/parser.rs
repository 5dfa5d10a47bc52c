//! The parser of prompt programs: the grammar, stated as functions on text
//! ([`grammar`]), the reading of option headers ([`header`]), the functions
//! that parse by both ([`parse`]), and the proof that what is written out by
//! the grammar is read back as it was ([`written`]).

pub mod grammar;
pub mod header;
pub mod literals;
pub mod parse;
pub mod written;
