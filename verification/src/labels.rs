//! Label sets, held as lists of key/value pairs.
//!
//! A list stands for the map that inserting its pairs in order yields: a
//! later pair with the same key wins. The lists that the library builds hold
//! each key once.

use vstd::prelude::*;

verus! {

/// The map that inserting the pairs of `s`, in order, into `base` yields.
pub open spec fn labels_over(base: Map<Seq<char>, Seq<char>>, s: Seq<(String, String)>) -> Map<
    Seq<char>,
    Seq<char>,
>
    decreases s.len(),
{
    if s.len() == 0 {
        base
    } else {
        labels_over(base, s.drop_last()).insert(s.last().0@, s.last().1@)
    }
}

/// The map that a list of pairs stands for.
pub open spec fn label_map(s: Seq<(String, String)>) -> Map<Seq<char>, Seq<char>> {
    labels_over(Map::empty(), s)
}

/// No key occurs twice in the list.
pub open spec fn keys_unique(s: Seq<(String, String)>) -> bool {
    forall|i: int, j: int| 0 <= i < j < s.len() ==> s[i].0@ != s[j].0@
}

proof fn lemma_labels_over_step(base: Map<Seq<char>, Seq<char>>, s: Seq<(String, String)>, i: int)
    requires
        0 <= i < s.len(),
    ensures
        labels_over(base, s.take(i + 1)) == labels_over(base, s.take(i)).insert(s[i].0@, s[i].1@),
{
    assert(s.take(i + 1).drop_last() =~= s.take(i));
}

/// Pairs after position `n` whose keys differ from `k` leave the entry of `k` alone.
pub proof fn lemma_labels_over_suffix(
    base: Map<Seq<char>, Seq<char>>,
    s: Seq<(String, String)>,
    n: int,
    k: Seq<char>,
)
    requires
        0 <= n <= s.len(),
        forall|j: int| n <= j < s.len() ==> s[j].0@ != k,
    ensures
        labels_over(base, s).contains_key(k) == labels_over(base, s.take(n)).contains_key(k),
        labels_over(base, s)[k] == labels_over(base, s.take(n))[k],
    decreases s.len() - n,
{
    if n == s.len() {
        assert(s.take(n) =~= s);
    } else {
        lemma_labels_over_suffix(base, s.drop_last(), n, k);
        assert(s.drop_last().take(n) =~= s.take(n));
    }
}

/// The list with the pair `(key, value)` set: any pair with that key is
/// dropped and the new pair is added at the end.
pub fn upsert_label(labels: Vec<(String, String)>, key: String, value: String) -> (out: Vec<
    (String, String),
>)
    requires
        keys_unique(labels@),
    ensures
        keys_unique(out@),
        label_map(out@) == label_map(labels@).insert(key@, value@),
{
    let mut out: Vec<(String, String)> = Vec::new();
    let mut i: usize = 0;
    while i < labels.len()
        invariant
            i <= labels@.len(),
            keys_unique(labels@),
            keys_unique(out@),
            label_map(out@) == label_map(labels@.take(i as int)).remove(key@),
            forall|j: int|
                0 <= j < out@.len() ==> out@[j].0@ != key@ && exists|m: int|
                    0 <= m < i && #[trigger] labels@[m].0@ == out@[j].0@,
        decreases labels@.len() - i,
    {
        let same = labels[i].0 == key;
        proof {
            lemma_labels_over_step(Map::empty(), labels@, i as int);
        }
        if !same {
            let entry = (labels[i].0.clone(), labels[i].1.clone());
            let ghost prev = out@;
            out.push(entry);
            proof {
                assert(out@.drop_last() =~= prev);
                assert(label_map(out@) =~= label_map(labels@.take(i + 1)).remove(key@));
                assert forall|a: int, b: int| 0 <= a < b < out@.len() implies out@[a].0@
                    != out@[b].0@ by {
                    if b == out@.len() - 1 {
                        let m = choose|m: int| 0 <= m < i && #[trigger] labels@[m].0@ == out@[a].0@;
                        assert(labels@[m].0@ != labels@[i as int].0@);
                    }
                }
                assert forall|j: int| 0 <= j < out@.len() implies out@[j].0@ != key@ && exists|
                    m: int,
                | 0 <= m < i + 1 && #[trigger] labels@[m].0@ == out@[j].0@ by {
                    if j < out@.len() - 1 {
                        let m = choose|m: int| 0 <= m < i && #[trigger] labels@[m].0@ == out@[j].0@;
                        assert(labels@[m].0@ == out@[j].0@);
                    } else {
                        assert(labels@[i as int].0@ == out@[j].0@);
                    }
                }
            }
        } else {
            proof {
                assert(label_map(labels@.take(i + 1)).remove(key@) =~= label_map(
                    labels@.take(i as int),
                ).remove(key@));
            }
        }
        i = i + 1;
    }
    let ghost prev = out@;
    let ghost k = key@;
    let ghost v = value@;
    out.push((key, value));
    proof {
        assert(labels@.take(labels@.len() as int) =~= labels@);
        assert(out@.drop_last() =~= prev);
        assert(label_map(out@) =~= label_map(labels@).insert(k, v));
    }
    out
}

/// The value that the list gives `key`, if any.
pub fn lookup_label(labels: &Vec<(String, String)>, key: &str) -> (value: Option<String>)
    ensures
        value is Some <==> label_map(labels@).contains_key(key@),
        value matches Some(v) ==> v@ == label_map(labels@)[key@],
{
    let mut i: usize = labels.len();
    while i > 0
        invariant
            i <= labels@.len(),
            forall|j: int| i <= j < labels@.len() ==> labels@[j].0@ != key@,
        decreases i,
    {
        let k: &str = labels[i - 1].0.as_str();
        if crate::text::str_eq(k, key) {
            proof {
                lemma_labels_over_suffix(Map::empty(), labels@, i as int, key@);
                lemma_labels_over_step(Map::empty(), labels@, i - 1);
            }
            return Some(labels[i - 1].1.clone());
        }
        i = i - 1;
    }
    proof {
        lemma_labels_over_suffix(Map::empty(), labels@, 0, key@);
        assert(labels@.take(0) =~= Seq::<(String, String)>::empty());
    }
    None
}

} // verus!
