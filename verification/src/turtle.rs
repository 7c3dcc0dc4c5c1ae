//! The stateful triple-to-text writer: consecutive triples that share a
//! subject or a predicate are grouped into compact blocks. The writer fills
//! a text sink owned by the instance; `finish` closes the last block and
//! hands the text back.

use crate::escape::append_escaped;
use crate::model::{Literal, NamedOrBlankNode, NamedOrBlankNodeV, Term, TripleV, Triple};
use crate::model::{rendered_term, subject_text};
use crate::prefixes::{entries_view, prefix_block, prefix_lines, sort_entries, sort_prefix_entries};
use vstd::prelude::*;
use vstd::string::StringExecFns;

verus! {

/// The kind of the subject most recently written.
#[derive(Clone, Copy)]
enum NamedOrBlankNodeType {
    NamedNode,
    BlankNode,
}

/// The writer state between triples: either nothing was written yet, or the
/// subject and predicate of the most recently written triple.
pub open spec fn state_after(t: TripleV) -> Option<(NamedOrBlankNodeV, Seq<char>)> {
    Some((t.subject, t.predicate))
}

/// The text one triple adds, decided by the current state: a continuation of
/// the open predicate group, a new predicate under the open subject, a whole
/// new subject block, or the first block of the stream.
pub open spec fn emission(st: Option<(NamedOrBlankNodeV, Seq<char>)>, t: TripleV) -> Seq<char> {
    match st {
        Option::None => subject_text(t.subject) + " \n  "@ + t.predicate + " "@ + rendered_term(
            t.object,
        ),
        Option::Some((s, p)) => if s == t.subject {
            if p == t.predicate {
                ", "@ + rendered_term(t.object)
            } else {
                " ;\n  "@ + t.predicate + " "@ + rendered_term(t.object)
            }
        } else {
            " .\n\n"@ + subject_text(t.subject) + " \n  "@ + t.predicate + " "@ + rendered_term(
                t.object,
            )
        },
    }
}

/// What `finish` adds after the last triple: a block terminator when any
/// triple was written, nothing otherwise.
pub open spec fn finish_suffix(st: Option<(NamedOrBlankNodeV, Seq<char>)>) -> Seq<char> {
    if st is Some {
        " .\n"@
    } else {
        Seq::empty()
    }
}

/// Writes an object: named and blank nodes stand bare; a literal's value is
/// escaped and quoted, its language tag or datatype IRI appended unescaped.
fn append_term(out: &mut String, o: &Term)
    ensures
        final(out)@ == old(out)@ + rendered_term(o@),
{
    let ghost base: Seq<char> = out@;
    match o {
        Term::NamedNode(iri) => out.append(iri.as_str()),
        Term::BlankNode(id) => out.append(id.as_str()),
        Term::Literal(l) => match l {
            Literal::Simple { value } => {
                out.append("\"");
                append_escaped(out, value.as_str());
                out.append("\"");
            },
            Literal::LanguageTaggedString { value, language } => {
                out.append("\"");
                append_escaped(out, value.as_str());
                out.append("\"@");
                out.append(language.as_str());
            },
            Literal::Typed { value, datatype } => {
                out.append("\"");
                append_escaped(out, value.as_str());
                out.append("\"^^");
                out.append(datatype.as_str());
            },
        },
    }
    proof {
        assert(out@ =~= base + rendered_term(o@));
    }
}

/// The grouping Turtle writer. It owns the text written so far; the prefix
/// block is written at construction, one triple is written per `format`
/// call, and `finish` closes the final block and returns the text.
pub struct TurtleFormatterWithPrefixes {
    write: String,
    current_subject: String,
    current_subject_type: Option<NamedOrBlankNodeType>,
    current_predicate: String,
}

impl TurtleFormatterWithPrefixes {
    /// All text written so far.
    pub closed spec fn output(&self) -> Seq<char> {
        self.write@
    }

    /// The subject and predicate of the most recently written triple, or
    /// `None` when no triple was written yet.
    pub closed spec fn current(&self) -> Option<(NamedOrBlankNodeV, Seq<char>)> {
        match self.current_subject_type {
            Option::None => Option::None,
            Option::Some(NamedOrBlankNodeType::NamedNode) => Some(
                (NamedOrBlankNodeV::NamedNode(self.current_subject@), self.current_predicate@),
            ),
            Option::Some(NamedOrBlankNodeType::BlankNode) => Some(
                (NamedOrBlankNodeV::BlankNode(self.current_subject@), self.current_predicate@),
            ),
        }
    }

    /// A new writer over an empty sink: the prefix block is written at once,
    /// and no subject is open.
    pub fn new(prefixes: &Vec<(String, String)>) -> (r: Self)
        ensures
            r.output() == prefix_block(entries_view(prefixes@)),
            r.current() is None,
    {
        let mut f = TurtleFormatterWithPrefixes {
            write: String::new(),
            current_subject: String::new(),
            current_subject_type: None,
            current_predicate: String::new(),
        };
        f.write_prefixes(prefixes);
        proof {
            assert(Seq::<char>::empty() + prefix_block(entries_view(prefixes@)) =~= prefix_block(
                entries_view(prefixes@),
            ));
        }
        f
    }

    /// Writes one declaration line per prefix entry, ascending by name, then
    /// one blank line. The open subject, if any, is untouched.
    pub fn write_prefixes(&mut self, prefixes: &Vec<(String, String)>)
        ensures
            final(self).output() == old(self).output() + prefix_block(entries_view(prefixes@)),
            final(self).current() == old(self).current(),
    {
        let ghost base: Seq<char> = self.write@;
        let ghost cs: Seq<char> = self.current_subject@;
        let ghost ct: Option<NamedOrBlankNodeType> = self.current_subject_type;
        let ghost cp: Seq<char> = self.current_predicate@;
        let sorted = sort_prefix_entries(prefixes);
        let mut j: usize = 0;
        while j < sorted.len()
            invariant
                j <= sorted@.len(),
                entries_view(sorted@) == sort_entries(entries_view(prefixes@)),
                self.write@ == base + prefix_lines(entries_view(sorted@).take(j as int)),
                self.current_subject@ == cs,
                self.current_subject_type == ct,
                self.current_predicate@ == cp,
            decreases sorted@.len() - j,
        {
            self.write.append("@prefix ");
            self.write.append(sorted[j].0.as_str());
            self.write.append(": <");
            self.write.append(sorted[j].1.as_str());
            self.write.append("> .\n");
            proof {
                let ev = entries_view(sorted@);
                assert(ev.take(j + 1).drop_last() =~= ev.take(j as int));
                assert(ev.take(j + 1).last() == (sorted@[j as int].0@, sorted@[j as int].1@));
                assert(self.write@ =~= base + prefix_lines(ev.take(j + 1)));
            }
            j = j + 1;
        }
        self.write.append("\n");
        proof {
            let ev = entries_view(sorted@);
            assert(ev.take(ev.len() as int) =~= ev);
            assert(self.write@ =~= base + prefix_block(entries_view(prefixes@)));
        }
    }

    /// Writes one triple, grouped against the current state exactly as
    /// [`emission`] says, and leaves the triple's subject and predicate as
    /// the new state — unconditionally, even when the subject was unchanged.
    pub fn format(&mut self, triple: &Triple)
        ensures
            final(self).output() == old(self).output() + emission(old(self).current(), triple@),
            final(self).current() == state_after(triple@),
    {
        let ghost base: Seq<char> = self.write@;
        let ghost st = self.current();
        if self.current_subject_type.is_some() {
            let same_subject: bool = match (&self.current_subject_type, &triple.subject) {
                (Some(NamedOrBlankNodeType::NamedNode), NamedOrBlankNode::NamedNode(iri)) => {
                    self.current_subject == *iri
                },
                (Some(NamedOrBlankNodeType::BlankNode), NamedOrBlankNode::BlankNode(id)) => {
                    self.current_subject == *id
                },
                _ => false,
            };
            if same_subject {
                if self.current_predicate == triple.predicate {
                    self.write.append(", ");
                } else {
                    self.write.append(" ;\n  ");
                    self.write.append(triple.predicate.as_str());
                    self.write.append(" ");
                }
            } else {
                self.write.append(" .\n\n");
                match &triple.subject {
                    NamedOrBlankNode::NamedNode(iri) => self.write.append(iri.as_str()),
                    NamedOrBlankNode::BlankNode(id) => self.write.append(id.as_str()),
                }
                self.write.append(" \n  ");
                self.write.append(triple.predicate.as_str());
                self.write.append(" ");
            }
        } else {
            match &triple.subject {
                NamedOrBlankNode::NamedNode(iri) => self.write.append(iri.as_str()),
                NamedOrBlankNode::BlankNode(id) => self.write.append(id.as_str()),
            }
            self.write.append(" \n  ");
            self.write.append(triple.predicate.as_str());
            self.write.append(" ");
        }
        append_term(&mut self.write, &triple.object);
        proof {
            assert(self.write@ =~= base + emission(st, triple@));
        }
        match &triple.subject {
            NamedOrBlankNode::NamedNode(iri) => {
                self.current_subject = iri.clone();
                self.current_subject_type = Some(NamedOrBlankNodeType::NamedNode);
            },
            NamedOrBlankNode::BlankNode(id) => {
                self.current_subject = id.clone();
                self.current_subject_type = Some(NamedOrBlankNodeType::BlankNode);
            },
        }
        self.current_predicate = triple.predicate.clone();
    }

    /// Closes the final block — ` .\n` when any triple was written, nothing
    /// otherwise — and hands the accumulated text back; the writer is
    /// consumed.
    pub fn finish(self) -> (r: String)
        ensures
            r@ == self.output() + finish_suffix(self.current()),
    {
        let ghost out0: Seq<char> = self.write@;
        let ghost suffix: Seq<char> = finish_suffix(self.current());
        let has_subject = self.current_subject_type.is_some();
        let mut w = self.write;
        if has_subject {
            w.append(" .\n");
        } else {
            proof {
                assert(out0 + suffix =~= out0);
            }
        }
        w
    }
}

/// Law: of two consecutive triples that share both subject and predicate,
/// the second emits exactly one `, ` separator and its rendered object;
/// neither the subject text nor the predicate text recurs.
pub proof fn lemma_same_subject_same_predicate(first: TripleV, second: TripleV)
    requires
        second.subject == first.subject,
        second.predicate == first.predicate,
    ensures
        emission(state_after(first), second) == ", "@ + rendered_term(second.object),
{
}

/// Law: of two consecutive triples that share the subject but not the
/// predicate, the second emits ` ;\n  `, its predicate and its rendered
/// object; the subject text does not recur.
pub proof fn lemma_same_subject_new_predicate(first: TripleV, second: TripleV)
    requires
        second.subject == first.subject,
        second.predicate != first.predicate,
    ensures
        emission(state_after(first), second) == " ;\n  "@ + second.predicate + " "@
            + rendered_term(second.object),
{
}

/// Law: of two consecutive triples with differing subjects, the second
/// closes the open block with ` .\n\n` and emits its own subject and
/// predicate texts in full.
pub proof fn lemma_new_subject(first: TripleV, second: TripleV)
    requires
        second.subject != first.subject,
    ensures
        emission(state_after(first), second) == " .\n\n"@ + subject_text(second.subject) + " \n  "@
            + second.predicate + " "@ + rendered_term(second.object),
{
}

/// Law: a writer that never received a triple finishes with nothing beyond
/// what it has written; after any triple, finishing adds exactly one ` .\n`.
pub proof fn lemma_finish_terminator(t: TripleV)
    ensures
        finish_suffix(Option::None) == Seq::<char>::empty(),
        finish_suffix(state_after(t)) == " .\n"@,
{
}

} // verus!
