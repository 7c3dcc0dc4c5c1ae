//! A compact, abbreviated Turtle-like text writer for ontology triples,
//! together with the front door that decides which binary wire encoding
//! (CBOR-style or MessagePack-style) backs a raw ontology record.
//!
//! The writer consumes an ordered triple stream and groups consecutive
//! triples that share a subject or a predicate into compact blocks; its
//! exact output is pinned down by the contracts in [`turtle`].

pub mod escape;
pub mod model;
pub mod parser;
pub mod prefixes;
pub mod turtle;
