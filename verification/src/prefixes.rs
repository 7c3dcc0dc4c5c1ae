//! Namespace-prefix declarations: the lexicographic order on prefix names,
//! a verified insertion sort over prefix entries, and the exact text of the
//! prefix block that a writer emits at construction.

use vstd::prelude::*;
use vstd::seq_lib::{to_multiset_build, to_multiset_insert};
use vstd::string::{StrSliceExecFns, StringExecFns};

verus! {

/// Lexicographic order on names, by Unicode scalar value — the order the
/// sorted prefix block follows.
pub open spec fn lex_le(a: Seq<char>, b: Seq<char>) -> bool
    decreases a.len(),
{
    if a.len() == 0 {
        true
    } else if b.len() == 0 {
        false
    } else if (a[0] as u32) < (b[0] as u32) {
        true
    } else if (a[0] as u32) > (b[0] as u32) {
        false
    } else {
        lex_le(a.drop_first(), b.drop_first())
    }
}

/// The ghost value of a list of prefix entries: each `(name, iri)` pair as
/// character sequences.
pub open spec fn entries_view(v: Seq<(String, String)>) -> Seq<(Seq<char>, Seq<char>)> {
    v.map_values(|p: (String, String)| (p.0@, p.1@))
}

/// One entry placed into an already sorted run: before the first entry whose
/// name is not below its own.
pub open spec fn insert_sorted(
    e: (Seq<char>, Seq<char>),
    s: Seq<(Seq<char>, Seq<char>)>,
) -> Seq<(Seq<char>, Seq<char>)>
    decreases s.len(),
{
    if s.len() == 0 {
        seq![e]
    } else if lex_le(e.0, s[0].0) {
        seq![e] + s
    } else {
        seq![s[0]] + insert_sorted(e, s.drop_first())
    }
}

/// The entries rearranged ascending by name.
pub open spec fn sort_entries(s: Seq<(Seq<char>, Seq<char>)>) -> Seq<(Seq<char>, Seq<char>)>
    decreases s.len(),
{
    if s.len() == 0 {
        Seq::empty()
    } else {
        insert_sorted(s.last(), sort_entries(s.drop_last()))
    }
}

/// Ascending by name: every entry's name is ordered below every later one's.
pub open spec fn sorted_by_name(s: Seq<(Seq<char>, Seq<char>)>) -> bool {
    forall|i: int, j: int| 0 <= i < j < s.len() ==> lex_le(s[i].0, s[j].0)
}

/// One prefix declaration line.
pub open spec fn prefix_line(name: Seq<char>, iri: Seq<char>) -> Seq<char> {
    "@prefix "@ + name + ": <"@ + iri + "> .\n"@
}

/// The declaration lines of the given entries, in their given order.
pub open spec fn prefix_lines(s: Seq<(Seq<char>, Seq<char>)>) -> Seq<char>
    decreases s.len(),
{
    if s.len() == 0 {
        Seq::empty()
    } else {
        prefix_lines(s.drop_last()) + prefix_line(s.last().0, s.last().1)
    }
}

/// The whole prefix block: one declaration line per entry, sorted ascending
/// by name, then one blank line.
pub open spec fn prefix_block(entries: Seq<(Seq<char>, Seq<char>)>) -> Seq<char> {
    prefix_lines(sort_entries(entries)) + "\n"@
}

proof fn lemma_lex_le_total(a: Seq<char>, b: Seq<char>)
    ensures
        lex_le(a, b) || lex_le(b, a),
    decreases a.len(),
{
    if a.len() == 0 {
    } else if b.len() == 0 {
    } else {
        let x = a[0] as u32;
        let y = b[0] as u32;
        if x == y {
            lemma_lex_le_total(a.drop_first(), b.drop_first());
        }
    }
}

proof fn lemma_lex_le_trans(a: Seq<char>, b: Seq<char>, c: Seq<char>)
    requires
        lex_le(a, b),
        lex_le(b, c),
    ensures
        lex_le(a, c),
    decreases a.len(),
{
    if a.len() == 0 {
    } else {
        assert(b.len() > 0);
        assert(c.len() > 0);
        let x = a[0] as u32;
        let y = b[0] as u32;
        let z = c[0] as u32;
        if x == y && y == z {
            lemma_lex_le_trans(a.drop_first(), b.drop_first(), c.drop_first());
        }
    }
}

proof fn lemma_insert_sorted_len(e: (Seq<char>, Seq<char>), s: Seq<(Seq<char>, Seq<char>)>)
    ensures
        insert_sorted(e, s).len() == s.len() + 1,
    decreases s.len(),
{
    if s.len() == 0 {
    } else if lex_le(e.0, s[0].0) {
    } else {
        lemma_insert_sorted_len(e, s.drop_first());
    }
}

proof fn lemma_insert_sorted_elems(e: (Seq<char>, Seq<char>), s: Seq<(Seq<char>, Seq<char>)>, j: int)
    requires
        0 <= j < insert_sorted(e, s).len(),
    ensures
        insert_sorted(e, s)[j] == e || s.contains(insert_sorted(e, s)[j]),
    decreases s.len(),
{
    if s.len() == 0 {
    } else if lex_le(e.0, s[0].0) {
        if j > 0 {
            assert((seq![e] + s)[j] == s[j - 1]);
        }
    } else {
        if j == 0 {
        } else {
            lemma_insert_sorted_len(e, s.drop_first());
            lemma_insert_sorted_elems(e, s.drop_first(), j - 1);
            let x = insert_sorted(e, s)[j];
            assert(x == insert_sorted(e, s.drop_first())[j - 1]);
            if x != e {
                let k = choose|k: int| 0 <= k < s.drop_first().len() && s.drop_first()[k] == x;
                assert(s[k + 1] == x);
            }
        }
    }
}

proof fn lemma_insert_sorted_sorted(e: (Seq<char>, Seq<char>), s: Seq<(Seq<char>, Seq<char>)>)
    requires
        sorted_by_name(s),
    ensures
        sorted_by_name(insert_sorted(e, s)),
    decreases s.len(),
{
    let r = insert_sorted(e, s);
    if s.len() == 0 {
    } else if lex_le(e.0, s[0].0) {
        assert forall|i: int, j: int| 0 <= i < j < r.len() implies lex_le(r[i].0, r[j].0) by {
            if i == 0 {
                assert(r[j] == s[j - 1]);
                if j - 1 > 0 {
                    lemma_lex_le_trans(e.0, s[0].0, s[j - 1].0);
                }
            } else {
                assert(r[i] == s[i - 1]);
                assert(r[j] == s[j - 1]);
            }
        }
    } else {
        let rr = insert_sorted(e, s.drop_first());
        assert(sorted_by_name(s.drop_first())) by {
            assert forall|i: int, j: int|
                0 <= i < j < s.drop_first().len() implies lex_le(
                s.drop_first()[i].0,
                s.drop_first()[j].0,
            ) by {
                assert(s.drop_first()[i] == s[i + 1]);
                assert(s.drop_first()[j] == s[j + 1]);
            }
        }
        lemma_insert_sorted_sorted(e, s.drop_first());
        lemma_insert_sorted_len(e, s.drop_first());
        assert forall|i: int, j: int| 0 <= i < j < r.len() implies lex_le(r[i].0, r[j].0) by {
            if i == 0 {
                assert(r[j] == rr[j - 1]);
                lemma_insert_sorted_elems(e, s.drop_first(), j - 1);
                if rr[j - 1] == e {
                    lemma_lex_le_total(e.0, s[0].0);
                } else {
                    let k = choose|k: int|
                        0 <= k < s.drop_first().len() && s.drop_first()[k] == rr[j - 1];
                    assert(s[k + 1] == rr[j - 1]);
                }
            } else {
                assert(r[i] == rr[i - 1]);
                assert(r[j] == rr[j - 1]);
            }
        }
    }
}

proof fn lemma_insert_sorted_multiset(e: (Seq<char>, Seq<char>), s: Seq<(Seq<char>, Seq<char>)>)
    ensures
        insert_sorted(e, s).to_multiset() == s.to_multiset().insert(e),
    decreases s.len(),
{
    if s.len() == 0 {
        assert(s =~= Seq::<(Seq<char>, Seq<char>)>::empty());
        assert(seq![e] =~= Seq::<(Seq<char>, Seq<char>)>::empty().push(e));
        to_multiset_build(Seq::<(Seq<char>, Seq<char>)>::empty(), e);
    } else if lex_le(e.0, s[0].0) {
        assert(seq![e] + s =~= s.insert(0, e));
        to_multiset_insert(s, 0, e);
    } else {
        let rest = insert_sorted(e, s.drop_first());
        lemma_insert_sorted_multiset(e, s.drop_first());
        assert(seq![s[0]] + rest =~= rest.insert(0, s[0]));
        to_multiset_insert(rest, 0, s[0]);
        assert(s =~= s.drop_first().insert(0, s[0]));
        to_multiset_insert(s.drop_first(), 0, s[0]);
        assert(s.drop_first().to_multiset().insert(e).insert(s[0]) =~= s.drop_first().to_multiset().insert(
            s[0],
        ).insert(e));
    }
}

/// Law: sorting the prefix entries yields them ascending by name, whatever
/// order they were handed in, and yields exactly the entries handed in.
pub proof fn lemma_sort_entries_sorted(entries: Seq<(Seq<char>, Seq<char>)>)
    ensures
        sorted_by_name(sort_entries(entries)),
        sort_entries(entries).to_multiset() == entries.to_multiset(),
    decreases entries.len(),
{
    if entries.len() == 0 {
        assert(entries =~= Seq::<(Seq<char>, Seq<char>)>::empty());
    } else {
        let d = entries.drop_last();
        let l = entries.last();
        lemma_sort_entries_sorted(d);
        lemma_insert_sorted_sorted(l, sort_entries(d));
        lemma_insert_sorted_multiset(l, sort_entries(d));
        assert(sort_entries(entries).to_multiset() == sort_entries(d).to_multiset().insert(l));
        to_multiset_build(d, l);
        assert(d.push(l).to_multiset() == d.to_multiset().insert(l));
        assert(entries =~= d.push(l));
        assert(entries.to_multiset() == d.push(l).to_multiset());
    }
}

/// Decides the lexicographic order of two names.
pub fn str_le(a: &str, b: &str) -> (r: bool)
    ensures
        r == lex_le(a@, b@),
{
    let an = a.unicode_len();
    let bn = b.unicode_len();
    let mut i: usize = 0;
    proof {
        assert(a@.skip(0) =~= a@);
        assert(b@.skip(0) =~= b@);
    }
    loop
        invariant
            an == a@.len(),
            bn == b@.len(),
            i <= an,
            i <= bn,
            lex_le(a@, b@) == lex_le(a@.skip(i as int), b@.skip(i as int)),
        ensures
            lex_le(a@, b@) == lex_le(a@.skip(i as int), b@.skip(i as int)),
            i == an || i == bn || (a@[i as int] as u32) != (b@[i as int] as u32),
            i <= an,
            i <= bn,
            an == a@.len(),
            bn == b@.len(),
        decreases an - i,
    {
        if i == an {
            break ;
        }
        if i == bn {
            break ;
        }
        let ca = a.get_char(i);
        let cb = b.get_char(i);
        if (ca as u32) != (cb as u32) {
            break ;
        }
        proof {
            assert(a@.skip(i as int).drop_first() =~= a@.skip(i as int + 1));
            assert(b@.skip(i as int).drop_first() =~= b@.skip(i as int + 1));
        }
        i = i + 1;
    }
    if i == an {
        proof {
            assert(a@.skip(i as int).len() == 0);
        }
        true
    } else if i == bn {
        false
    } else {
        let ca = a.get_char(i);
        let cb = b.get_char(i);
        (ca as u32) < (cb as u32)
    }
}

/// Places one entry into a run already sorted ascending by name.
fn sorted_insert(v: &mut Vec<(String, String)>, name: String, iri: String)
    ensures
        entries_view(final(v)@) == insert_sorted((name@, iri@), entries_view(old(v)@)),
{
    let ghost before: Seq<(Seq<char>, Seq<char>)> = entries_view(v@);
    let mut pos: usize = 0;
    loop
        invariant
            pos <= v@.len(),
            entries_view(v@) == before,
            forall|m: int| 0 <= m < pos ==> !lex_le(name@, before[m].0),
        ensures
            pos <= v@.len(),
            entries_view(v@) == before,
            forall|m: int| 0 <= m < pos ==> !lex_le(name@, before[m].0),
            pos < v@.len() ==> lex_le(name@, before[pos as int].0),
        decreases v@.len() - pos,
    {
        if pos == v.len() {
            break ;
        }
        if str_le(name.as_str(), v[pos].0.as_str()) {
            break ;
        }
        pos = pos + 1;
    }
    proof {
        lemma_insert_sorted_at((name@, iri@), before, pos as int);
    }
    v.insert(pos, (name, iri));
    proof {
        assert(entries_view(v@) =~= before.insert(pos as int, (name@, iri@)));
    }
}

proof fn lemma_insert_sorted_at(
    e: (Seq<char>, Seq<char>),
    s: Seq<(Seq<char>, Seq<char>)>,
    k: int,
)
    requires
        0 <= k <= s.len(),
        forall|m: int| 0 <= m < k ==> !lex_le(e.0, s[m].0),
        k < s.len() ==> lex_le(e.0, s[k].0),
    ensures
        insert_sorted(e, s) == s.insert(k, e),
    decreases k,
{
    if s.len() == 0 {
        assert(insert_sorted(e, s) =~= s.insert(0, e));
    } else if k == 0 {
        assert(seq![e] + s =~= s.insert(0, e));
    } else {
        assert(!lex_le(e.0, s[0].0));
        assert forall|m: int| 0 <= m < k - 1 implies !lex_le(e.0, s.drop_first()[m].0) by {
            assert(s.drop_first()[m] == s[m + 1]);
        }
        assert(k - 1 < s.drop_first().len() ==> lex_le(e.0, s.drop_first()[k - 1].0));
        lemma_insert_sorted_at(e, s.drop_first(), k - 1);
        assert(seq![s[0]] + s.drop_first().insert(k - 1, e) =~= s.insert(k, e));
    }
}

/// The prefix entries rearranged ascending by name, ready for emission.
pub fn sort_prefix_entries(prefixes: &Vec<(String, String)>) -> (r: Vec<(String, String)>)
    ensures
        entries_view(r@) == sort_entries(entries_view(prefixes@)),
{
    let mut sorted: Vec<(String, String)> = Vec::new();
    let mut i: usize = 0;
    proof {
        assert(entries_view(Seq::<(String, String)>::empty()) =~= Seq::<(
            Seq<char>,
            Seq<char>,
        )>::empty());
        assert(entries_view(prefixes@.take(0)) =~= Seq::<(Seq<char>, Seq<char>)>::empty());
    }
    while i < prefixes.len()
        invariant
            i <= prefixes@.len(),
            entries_view(sorted@) == sort_entries(entries_view(prefixes@.take(i as int))),
        decreases prefixes@.len() - i,
    {
        let name = prefixes[i].0.clone();
        let iri = prefixes[i].1.clone();
        sorted_insert(&mut sorted, name, iri);
        proof {
            let ev = entries_view(prefixes@.take(i + 1));
            assert(ev.drop_last() =~= entries_view(prefixes@.take(i as int)));
            assert(ev.last() == (prefixes@[i as int].0@, prefixes@[i as int].1@));
        }
        i = i + 1;
    }
    proof {
        assert(prefixes@.take(prefixes@.len() as int) =~= prefixes@);
    }
    sorted
}

} // verus!
