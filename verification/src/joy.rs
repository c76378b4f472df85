//! The fetched document: an ordered mapping from category names to the
//! words that belong to each category.

use vstd::prelude::*;

verus! {

/// One category of the fetched document: a key and its words.
pub struct JoyEntry {
    pub key: String,
    pub words: Vec<String>,
}

impl View for JoyEntry {
    type V = (Seq<char>, Seq<Seq<char>>);

    open spec fn view(&self) -> Self::V {
        (self.key@, self.words.deep_view())
    }
}

/// The abstract value of a list of entries.
pub open spec fn entries_view(es: Seq<JoyEntry>) -> Seq<(Seq<char>, Seq<Seq<char>>)> {
    Seq::new(es.len(), |i: int| es[i]@)
}

/// True when no key occurs twice.
pub open spec fn distinct_keys(s: Seq<(Seq<char>, Seq<Seq<char>>)>) -> bool {
    forall|i: int, j: int| 0 <= i < j < s.len() ==> (#[trigger] s[i]).0 != (#[trigger] s[j]).0
}

/// Strict lexicographic order on character sequences, by scalar value —
/// the order Rust's `String` comparison gives.
pub open spec fn lex_lt(a: Seq<char>, b: Seq<char>) -> bool
    decreases a.len(),
{
    if b.len() == 0 {
        false
    } else if a.len() == 0 {
        true
    } else if a[0] != b[0] {
        (a[0] as u32) < (b[0] as u32)
    } else {
        lex_lt(a.drop_first(), b.drop_first())
    }
}

/// True when the keys come strictly ascending: the ordered mapping.
pub open spec fn sorted_keys(s: Seq<(Seq<char>, Seq<Seq<char>>)>) -> bool {
    forall|i: int, j: int| 0 <= i < j < s.len()
        ==> lex_lt((#[trigger] s[i]).0, (#[trigger] s[j]).0)
}

pub proof fn lemma_lex_lt_irreflexive(a: Seq<char>)
    ensures
        !lex_lt(a, a),
    decreases a.len(),
{
    if a.len() > 0 {
        lemma_lex_lt_irreflexive(a.drop_first());
    }
}

/// Law: strictly ascending keys are in particular distinct.
pub proof fn lemma_sorted_keys_distinct(s: Seq<(Seq<char>, Seq<Seq<char>>)>)
    requires
        sorted_keys(s),
    ensures
        distinct_keys(s),
{
    assert forall|i: int, j: int| 0 <= i < j < s.len() implies (s[i]).0 != (s[j]).0 by {
        if s[i].0 == s[j].0 {
            assert(lex_lt(s[i].0, s[j].0));
            lemma_lex_lt_irreflexive(s[i].0);
        }
    }
}

/// The fetched document, one entry per category.
pub struct JoyData {
    pub entries: Vec<JoyEntry>,
}

impl View for JoyData {
    type V = Seq<(Seq<char>, Seq<Seq<char>>)>;

    open spec fn view(&self) -> Self::V {
        entries_view(self.entries@)
    }
}

impl JoyData {
    /// A document is well formed when it is a mapping: no duplicate keys.
    pub open spec fn wf(self) -> bool {
        distinct_keys(self@)
    }

    /// The empty document.
    pub fn new() -> (r: JoyData)
        ensures
            r@ == Seq::<(Seq<char>, Seq<Seq<char>>)>::empty(),
            r.wf(),
    {
        let r = JoyData { entries: Vec::new() };
        proof {
            assert(r@ =~= Seq::<(Seq<char>, Seq<Seq<char>>)>::empty());
        }
        r
    }

    /// The number of categories.
    pub fn len(&self) -> (n: usize)
        ensures
            n == self@.len(),
    {
        self.entries.len()
    }

    /// Builds a document from a list of entries, refusing duplicate keys.
    pub fn from_entries(entries: Vec<JoyEntry>) -> (r: Option<JoyData>)
        ensures
            r is Some <==> distinct_keys(entries_view(entries@)),
            r is Some ==> r.unwrap()@ == entries_view(entries@) && r.unwrap().wf(),
    {
        let n = entries.len();
        let mut i: usize = 0;
        while i < n
            invariant
                n == entries@.len(),
                i <= n,
                forall|p: int, q: int| 0 <= p < q < i
                    ==> (#[trigger] entries_view(entries@)[p]).0
                        != (#[trigger] entries_view(entries@)[q]).0,
            decreases n - i,
        {
            let mut j: usize = 0;
            while j < i
                invariant
                    n == entries@.len(),
                    j <= i < n,
                    forall|p: int| 0 <= p < j
                        ==> (#[trigger] entries_view(entries@)[p]).0
                            != entries_view(entries@)[i as int].0,
                decreases i - j,
            {
                if entries[j].key == entries[i].key {
                    proof {
                        assert(entries_view(entries@)[j as int].0
                            == entries_view(entries@)[i as int].0);
                        assert(!distinct_keys(entries_view(entries@)));
                    }
                    return None;
                }
                j = j + 1;
            }
            i = i + 1;
        }
        Some(JoyData { entries })
    }
}

} // verus!
