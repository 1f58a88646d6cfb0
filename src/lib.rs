//! Parsing and validation of layout directives: at most one base
//! representation and at most one layout modifier, folded from a list of
//! directive items and rendered back as canonical directive text.

pub mod outside;
pub mod laws;
pub mod repr;
pub mod vocab;
