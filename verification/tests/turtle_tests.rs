use onto_turtle::model::{Literal, NamedOrBlankNode, Term, Triple};
use onto_turtle::turtle::TurtleFormatterWithPrefixes;

fn named(iri: &str) -> NamedOrBlankNode {
    NamedOrBlankNode::NamedNode(iri.to_string())
}

fn blank(id: &str) -> NamedOrBlankNode {
    NamedOrBlankNode::BlankNode(id.to_string())
}

fn simple_triple(s: &str, p: &str, v: &str) -> Triple {
    Triple {
        subject: named(s),
        predicate: p.to_string(),
        object: Term::Literal(Literal::Simple { value: v.to_string() }),
    }
}

fn no_prefixes() -> Vec<(String, String)> {
    Vec::new()
}

#[test]
fn same_subject_same_predicate_separator() {
    let mut f = TurtleFormatterWithPrefixes::new(&no_prefixes());
    f.format(&simple_triple("s", "p", "v1"));
    f.format(&simple_triple("s", "p", "v2"));
    let out = f.finish();
    assert_eq!(out, "\ns \n  p \"v1\", \"v2\" .\n");
    // one separator, no repeated subject or predicate text
    assert_eq!(out.matches(", ").count(), 1);
    assert_eq!(out.matches("s \n").count(), 1);
    assert_eq!(out.matches("  p ").count(), 1);
}

#[test]
fn same_subject_new_predicate_separator() {
    let mut f = TurtleFormatterWithPrefixes::new(&no_prefixes());
    f.format(&simple_triple("s", "p1", "v1"));
    f.format(&simple_triple("s", "p2", "v2"));
    let out = f.finish();
    assert_eq!(out, "\ns \n  p1 \"v1\" ;\n  p2 \"v2\" .\n");
}

#[test]
fn new_subject_block() {
    let mut f = TurtleFormatterWithPrefixes::new(&no_prefixes());
    f.format(&simple_triple("s1", "p", "v1"));
    f.format(&simple_triple("s2", "p", "v2"));
    let out = f.finish();
    assert_eq!(out, "\ns1 \n  p \"v1\" .\n\ns2 \n  p \"v2\" .\n");
}

#[test]
fn finish_without_triples_emits_only_prefix_block() {
    let prefixes = vec![("ex".to_string(), "http://ex.org/".to_string())];
    let f = TurtleFormatterWithPrefixes::new(&prefixes);
    let out = f.finish();
    assert_eq!(out, "@prefix ex: <http://ex.org/> .\n\n");
}

#[test]
fn finish_after_triples_emits_one_terminator() {
    let mut f = TurtleFormatterWithPrefixes::new(&no_prefixes());
    f.format(&simple_triple("s", "p", "v"));
    let out = f.finish();
    assert_eq!(out, "\ns \n  p \"v\" .\n");
    assert_eq!(out.matches(" .\n").count(), 1);
}

#[test]
fn named_and_blank_subjects_with_same_id_differ() {
    let mut f = TurtleFormatterWithPrefixes::new(&no_prefixes());
    f.format(&Triple {
        subject: named("x"),
        predicate: "p".to_string(),
        object: Term::Literal(Literal::Simple { value: "v1".to_string() }),
    });
    f.format(&Triple {
        subject: blank("x"),
        predicate: "p".to_string(),
        object: Term::Literal(Literal::Simple { value: "v2".to_string() }),
    });
    let out = f.finish();
    // the blank node must open a new block, not continue the named one
    assert_eq!(out, "\nx \n  p \"v1\" .\n\nx \n  p \"v2\" .\n");
}

#[test]
fn state_updates_even_when_subject_repeats() {
    let mut f = TurtleFormatterWithPrefixes::new(&no_prefixes());
    f.format(&simple_triple("s", "p1", "v1"));
    f.format(&simple_triple("s", "p2", "v2"));
    f.format(&simple_triple("s", "p2", "v3"));
    let out = f.finish();
    assert_eq!(out, "\ns \n  p1 \"v1\" ;\n  p2 \"v2\", \"v3\" .\n");
}

#[test]
fn object_forms_render_without_brackets() {
    let mut f = TurtleFormatterWithPrefixes::new(&no_prefixes());
    f.format(&Triple {
        subject: named("s"),
        predicate: "p".to_string(),
        object: Term::NamedNode("http://o/".to_string()),
    });
    f.format(&Triple {
        subject: named("s"),
        predicate: "p".to_string(),
        object: Term::BlankNode("b0".to_string()),
    });
    f.format(&Triple {
        subject: named("s"),
        predicate: "p".to_string(),
        object: Term::Literal(Literal::LanguageTaggedString {
            value: "hi".to_string(),
            language: "en".to_string(),
        }),
    });
    f.format(&Triple {
        subject: named("s"),
        predicate: "p".to_string(),
        object: Term::Literal(Literal::Typed {
            value: "5".to_string(),
            datatype: "http://dt/".to_string(),
        }),
    });
    let out = f.finish();
    assert_eq!(
        out,
        "\ns \n  p http://o/, b0, \"hi\"@en, \"5\"^^http://dt/ .\n"
    );
}

#[test]
fn literal_values_are_escaped_but_tags_are_not() {
    let mut f = TurtleFormatterWithPrefixes::new(&no_prefixes());
    f.format(&Triple {
        subject: named("s"),
        predicate: "p".to_string(),
        object: Term::Literal(Literal::LanguageTaggedString {
            value: "a\"b".to_string(),
            language: "en".to_string(),
        }),
    });
    let out = f.finish();
    assert_eq!(out, "\ns \n  p \"a\\\"b\"@en .\n");
}

#[test]
fn prefixes_sorted_by_name_ascending() {
    let prefixes = vec![
        ("b".to_string(), "http://b/".to_string()),
        ("a".to_string(), "http://a/".to_string()),
    ];
    let f = TurtleFormatterWithPrefixes::new(&prefixes);
    let out = f.finish();
    assert_eq!(out, "@prefix a: <http://a/> .\n@prefix b: <http://b/> .\n\n");
}

#[test]
fn write_prefixes_appends_and_keeps_the_open_subject() {
    let mut f = TurtleFormatterWithPrefixes::new(&no_prefixes());
    f.format(&simple_triple("s", "p", "v1"));
    f.write_prefixes(&vec![("a".to_string(), "http://a/".to_string())]);
    f.format(&simple_triple("s", "p", "v2"));
    let out = f.finish();
    assert_eq!(out, "\ns \n  p \"v1\"@prefix a: <http://a/> .\n\n, \"v2\" .\n");
}

#[test]
fn end_to_end_grouped_stream() {
    let prefixes = vec![("ex".to_string(), "http://ex.org/".to_string())];
    let mut f = TurtleFormatterWithPrefixes::new(&prefixes);
    f.format(&simple_triple("http://ex.org/s1", "http://ex.org/p1", "v1"));
    f.format(&simple_triple("http://ex.org/s1", "http://ex.org/p1", "v2"));
    f.format(&simple_triple("http://ex.org/s2", "http://ex.org/p1", "v3"));
    let out = f.finish();
    assert_eq!(
        out,
        "@prefix ex: <http://ex.org/> .\n\nhttp://ex.org/s1 \n  http://ex.org/p1 \"v1\", \"v2\" .\n\nhttp://ex.org/s2 \n  http://ex.org/p1 \"v3\" .\n"
    );
}
