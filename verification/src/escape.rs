//! Per-character escaping of literal lexical values.
//!
//! Four characters are sensitive inside a quoted Turtle literal: newline,
//! carriage return, the double quote and the backslash. Each of them escapes
//! to a backslash pair; every other character passes through unchanged.

use vstd::prelude::*;
use vstd::string::StrSliceExecFns;

verus! {

/// What one character escapes to: a backslash pair for the four sensitive
/// characters, the character itself for every other one.
pub open spec fn escape_char(c: char) -> Seq<char> {
    if c == '\n' {
        seq!['\\', 'n']
    } else if c == '\r' {
        seq!['\\', 'r']
    } else if c == '"' {
        seq!['\\', '"']
    } else if c == '\\' {
        seq!['\\', '\\']
    } else {
        seq![c]
    }
}

/// A whole lexical value, escaped character by character.
pub open spec fn escape_seq(s: Seq<char>) -> Seq<char>
    decreases s.len(),
{
    if s.len() == 0 {
        Seq::empty()
    } else {
        escape_char(s[0]) + escape_seq(s.drop_first())
    }
}

/// True of the second character of a backslash pair that [`escape_char`]
/// can produce.
pub open spec fn is_escape_code(c: char) -> bool {
    c == 'n' || c == 'r' || c == '"' || c == '\\'
}

/// The character that a backslash pair stands for.
pub open spec fn unescape_code(c: char) -> char {
    if c == 'n' {
        '\n'
    } else if c == 'r' {
        '\r'
    } else {
        c
    }
}

/// Reading escaped text back: a backslash followed by an escape code becomes
/// the character it stands for; everything else is kept as it is.
pub open spec fn unescape_seq(s: Seq<char>) -> Seq<char>
    decreases s.len(),
{
    if s.len() == 0 {
        Seq::empty()
    } else if s[0] == '\\' && s.len() >= 2 && is_escape_code(s[1]) {
        seq![unescape_code(s[1])] + unescape_seq(s.skip(2))
    } else {
        seq![s[0]] + unescape_seq(s.skip(1))
    }
}

proof fn lemma_escape_seq_concat(a: Seq<char>, b: Seq<char>)
    ensures
        escape_seq(a + b) == escape_seq(a) + escape_seq(b),
    decreases a.len(),
{
    if a.len() == 0 {
        assert(a + b =~= b);
        assert(escape_seq(a) + escape_seq(b) =~= escape_seq(b));
    } else {
        assert((a + b).drop_first() =~= a.drop_first() + b);
        lemma_escape_seq_concat(a.drop_first(), b);
        assert(escape_char(a[0]) + (escape_seq(a.drop_first()) + escape_seq(b)) =~= (escape_char(
            a[0],
        ) + escape_seq(a.drop_first())) + escape_seq(b));
    }
}

proof fn lemma_escape_seq_take_succ(s: Seq<char>, i: int)
    requires
        0 <= i < s.len(),
    ensures
        escape_seq(s.take(i + 1)) == escape_seq(s.take(i)) + escape_char(s[i]),
{
    assert(s.take(i + 1) =~= s.take(i) + seq![s[i]]);
    lemma_escape_seq_concat(s.take(i), seq![s[i]]);
    assert(seq![s[i]].drop_first() =~= Seq::<char>::empty());
    assert(escape_seq(Seq::<char>::empty()) =~= Seq::<char>::empty());
    assert(escape_char(s[i]) + Seq::<char>::empty() =~= escape_char(s[i]));
    assert(escape_seq(seq![s[i]]) =~= escape_char(s[i]));
}

/// Escaping is lossless: reading an escaped value back gives the original
/// value, whatever characters it held. Only the four sensitive characters
/// are rewritten, and each to a pair that unescapes to itself alone.
#[verifier::rlimit(50)]
pub proof fn lemma_escape_round_trip(s: Seq<char>)
    ensures
        unescape_seq(escape_seq(s)) == s,
    decreases s.len(),
{
    if s.len() > 0 {
        let c = s[0];
        let e = escape_char(c);
        let rest = escape_seq(s.drop_first());
        lemma_escape_round_trip(s.drop_first());
        if c == '\n' || c == '\r' || c == '"' || c == '\\' {
            assert((e + rest).len() >= 2);
            assert((e + rest)[0] == '\\');
            assert(is_escape_code((e + rest)[1]));
            assert(unescape_code((e + rest)[1]) == c);
            assert((e + rest).skip(2) =~= rest);
            assert(seq![c] + s.drop_first() =~= s);
        } else {
            assert((e + rest)[0] == c);
            assert((e + rest).skip(1) =~= rest);
            assert(seq![c] + s.drop_first() =~= s);
        }
    }
}

/// Relies on `String::push` of std: it appends exactly the one character.
pub assume_specification[ String::push ](s: &mut String, c: char)
    ensures
        final(s)@ == old(s)@.push(c),
;

/// Escaping state for one character, holding what is still to be produced:
/// a pending backslash pair, one pending character, or nothing.
#[derive(Clone, Copy)]
pub enum EscapeRdfState {
    Done,
    Char(char),
    Backslash(char),
}

/// The per-character escaper. It hands its one or two output characters out
/// in order and exposes its exact remaining length for allocation sizing.
pub struct EscapeRDF {
    state: EscapeRdfState,
}

impl EscapeRDF {
    /// The characters the escaper has still to produce.
    pub closed spec fn remaining(&self) -> Seq<char> {
        match self.state {
            EscapeRdfState::Done => Seq::empty(),
            EscapeRdfState::Char(c) => seq![c],
            EscapeRdfState::Backslash(c) => seq!['\\', c],
        }
    }

    /// A fresh escaper for one character produces exactly that character's
    /// escape sequence.
    pub fn new(c: char) -> (r: Self)
        ensures
            r.remaining() == escape_char(c),
    {
        let state = match c {
            '\n' => EscapeRdfState::Backslash('n'),
            '\r' => EscapeRdfState::Backslash('r'),
            '"' => EscapeRdfState::Backslash('"'),
            '\\' => EscapeRdfState::Backslash('\\'),
            _ => EscapeRdfState::Char(c),
        };
        EscapeRDF { state }
    }

    /// The next output character, front first; `None` once drained.
    pub fn next(&mut self) -> (r: Option<char>)
        ensures
            old(self).remaining().len() == 0 ==> r is None && final(self).remaining()
                == old(self).remaining(),
            old(self).remaining().len() > 0 ==> r == Some(old(self).remaining()[0])
                && final(self).remaining() == old(self).remaining().drop_first(),
    {
        let state = self.state;
        match state {
            EscapeRdfState::Backslash(c) => {
                self.state = EscapeRdfState::Char(c);
                proof {
                    assert(seq!['\\', c].drop_first() =~= seq![c]);
                }
                Some('\\')
            },
            EscapeRdfState::Char(c) => {
                self.state = EscapeRdfState::Done;
                proof {
                    assert(seq![c].drop_first() =~= Seq::<char>::empty());
                }
                Some(c)
            },
            EscapeRdfState::Done => None,
        }
    }

    /// How many characters are still to come: 0, 1 or 2.
    pub fn len(&self) -> (n: usize)
        ensures
            n == self.remaining().len(),
    {
        match self.state {
            EscapeRdfState::Done => 0,
            EscapeRdfState::Char(_) => 1,
            EscapeRdfState::Backslash(_) => 2,
        }
    }
}

/// Appends the escape sequence of one character to `out`.
fn push_escaped_char(out: &mut String, c: char)
    ensures
        final(out)@ == old(out)@ + escape_char(c),
{
    let ghost base: Seq<char> = out@;
    let mut esc = EscapeRDF::new(c);
    match esc.next() {
        Some(ch) => out.push(ch),
        None => (),
    }
    match esc.next() {
        Some(ch) => out.push(ch),
        None => (),
    }
    proof {
        assert(out@ =~= base + escape_char(c));
    }
}

/// Appends the escaped form of a whole lexical value to `out`.
pub fn append_escaped(out: &mut String, value: &str)
    ensures
        final(out)@ == old(out)@ + escape_seq(value@),
{
    let ghost base: Seq<char> = out@;
    let n = value.unicode_len();
    let mut i: usize = 0;
    while i < n
        invariant
            n == value@.len(),
            i <= n,
            out@ == base + escape_seq(value@.take(i as int)),
        decreases n - i,
    {
        let c = value.get_char(i);
        push_escaped_char(out, c);
        proof {
            lemma_escape_seq_take_succ(value@, i as int);
        }
        i = i + 1;
    }
    proof {
        assert(value@.take(n as int) =~= value@);
        assert(base + escape_seq(Seq::<char>::empty()) =~= base);
    }
}

/// The fully escaped copy of a lexical value.
pub fn escape(s: &str) -> (r: String)
    ensures
        r@ == escape_seq(s@),
{
    let mut out = String::new();
    append_escaped(&mut out, s);
    proof {
        assert(Seq::<char>::empty() + escape_seq(s@) =~= escape_seq(s@));
    }
    out
}

} // verus!
