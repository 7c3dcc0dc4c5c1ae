//! The triple data model: subjects, literals, terms and triples, with their
//! ghost views and the exact text each object renders to.

use crate::escape::escape_seq;
use vstd::prelude::*;

verus! {

/// A subject position: a named node (an IRI) or a blank node (an identifier).
/// Two subjects are equal only when both the kind and the identifier match.
pub enum NamedOrBlankNode {
    NamedNode(String),
    BlankNode(String),
}

/// The ghost value of a subject.
pub enum NamedOrBlankNodeV {
    NamedNode(Seq<char>),
    BlankNode(Seq<char>),
}

impl View for NamedOrBlankNode {
    type V = NamedOrBlankNodeV;

    open spec fn view(&self) -> NamedOrBlankNodeV {
        match self {
            NamedOrBlankNode::NamedNode(iri) => NamedOrBlankNodeV::NamedNode(iri@),
            NamedOrBlankNode::BlankNode(id) => NamedOrBlankNodeV::BlankNode(id@),
        }
    }
}

/// A literal object: a plain value, a language-tagged value, or a value
/// with a datatype IRI.
pub enum Literal {
    Simple { value: String },
    LanguageTaggedString { value: String, language: String },
    Typed { value: String, datatype: String },
}

/// The ghost value of a literal.
pub enum LiteralV {
    Simple { value: Seq<char> },
    LanguageTaggedString { value: Seq<char>, language: Seq<char> },
    Typed { value: Seq<char>, datatype: Seq<char> },
}

impl View for Literal {
    type V = LiteralV;

    open spec fn view(&self) -> LiteralV {
        match self {
            Literal::Simple { value } => LiteralV::Simple { value: value@ },
            Literal::LanguageTaggedString { value, language } => LiteralV::LanguageTaggedString {
                value: value@,
                language: language@,
            },
            Literal::Typed { value, datatype } => LiteralV::Typed {
                value: value@,
                datatype: datatype@,
            },
        }
    }
}

/// An object position: a named node, a blank node or a literal.
pub enum Term {
    NamedNode(String),
    BlankNode(String),
    Literal(Literal),
}

/// The ghost value of an object.
pub enum TermV {
    NamedNode(Seq<char>),
    BlankNode(Seq<char>),
    Literal(LiteralV),
}

impl View for Term {
    type V = TermV;

    open spec fn view(&self) -> TermV {
        match self {
            Term::NamedNode(iri) => TermV::NamedNode(iri@),
            Term::BlankNode(id) => TermV::BlankNode(id@),
            Term::Literal(l) => TermV::Literal(l@),
        }
    }
}

/// One statement: subject, predicate (always a named node, so a bare IRI)
/// and object.
pub struct Triple {
    pub subject: NamedOrBlankNode,
    pub predicate: String,
    pub object: Term,
}

/// The ghost value of a triple.
pub struct TripleV {
    pub subject: NamedOrBlankNodeV,
    pub predicate: Seq<char>,
    pub object: TermV,
}

impl View for Triple {
    type V = TripleV;

    open spec fn view(&self) -> TripleV {
        TripleV { subject: self.subject@, predicate: self.predicate@, object: self.object@ }
    }
}

/// The bare identifier text of a subject: the IRI of a named node or the
/// identifier of a blank node, with no surrounding syntax.
pub open spec fn subject_text(s: NamedOrBlankNodeV) -> Seq<char> {
    match s {
        NamedOrBlankNodeV::NamedNode(iri) => iri,
        NamedOrBlankNodeV::BlankNode(id) => id,
    }
}

/// The text an object renders to. Named and blank nodes stand bare; literal
/// values are escaped and quoted, then a language tag follows `"@` and a
/// datatype IRI follows `"^^`, neither of them escaped.
pub open spec fn rendered_term(o: TermV) -> Seq<char> {
    match o {
        TermV::NamedNode(iri) => iri,
        TermV::BlankNode(id) => id,
        TermV::Literal(l) => match l {
            LiteralV::Simple { value } => "\""@ + escape_seq(value) + "\""@,
            LiteralV::LanguageTaggedString { value, language } => "\""@ + escape_seq(value)
                + "\"@"@ + language,
            LiteralV::Typed { value, datatype } => "\""@ + escape_seq(value) + "\"^^"@ + datatype,
        },
    }
}

} // verus!
