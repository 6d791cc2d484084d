//! Lexicographic ordering of column and table names.
//!
//! Names are compared by their UTF-8 byte sequences, which for valid UTF-8
//! coincides with code-point order. All contracts in this crate view a name
//! as its byte sequence.

use vstd::prelude::*;
use vstd::string::StringSliceAdditionalSpecFns;

verus! {

/// The byte sequence a string views to; every contract on names speaks of it.
pub open spec fn bytes_view(s: Seq<char>) -> Seq<u8> {
    vstd::utf8::encode_utf8(s)
}

/// Strict lexicographic order on byte sequences: `a` comes before `b`.
pub open spec fn lex_lt(a: Seq<u8>, b: Seq<u8>) -> bool
    decreases a.len(),
{
    if b.len() == 0 {
        false
    } else if a.len() == 0 {
        true
    } else if a[0] < b[0] {
        true
    } else if a[0] > b[0] {
        false
    } else {
        lex_lt(a.skip(1), b.skip(1))
    }
}

/// A sequence of names in strictly increasing lexicographic order; strictness
/// also makes the names pairwise distinct.
pub open spec fn names_sorted(names: Seq<Seq<u8>>) -> bool {
    forall|i: int, j: int| 0 <= i < j < names.len() ==> lex_lt(names[i], names[j])
}

/// Outcome of a three-way name comparison.
#[derive(Clone, Copy, Debug, PartialEq, Eq, Structural)]
pub enum Cmp {
    Lt,
    Eq,
    Gt,
}

proof fn lemma_lex_lt_from_diff(a: Seq<u8>, b: Seq<u8>, i: int)
    requires
        0 <= i < a.len(),
        i < b.len(),
        forall|j: int| 0 <= j < i ==> a[j] == b[j],
        a[i] < b[i],
    ensures
        lex_lt(a, b),
    decreases i,
{
    if i > 0 {
        lemma_lex_lt_from_diff(a.skip(1), b.skip(1), i - 1);
    }
}

proof fn lemma_lex_lt_from_prefix(a: Seq<u8>, b: Seq<u8>)
    requires
        a.len() < b.len(),
        forall|j: int| 0 <= j < a.len() ==> a[j] == b[j],
    ensures
        lex_lt(a, b),
    decreases a.len(),
{
    if a.len() > 0 {
        lemma_lex_lt_from_prefix(a.skip(1), b.skip(1));
    }
}

proof fn lemma_lex_lt_irreflexive(a: Seq<u8>)
    ensures
        !lex_lt(a, a),
    decreases a.len(),
{
    if a.len() > 0 {
        lemma_lex_lt_irreflexive(a.skip(1));
    }
}

/// Strict lexicographic order is transitive.
pub proof fn lemma_lex_lt_transitive(a: Seq<u8>, b: Seq<u8>, c: Seq<u8>)
    requires
        lex_lt(a, b),
        lex_lt(b, c),
    ensures
        lex_lt(a, c),
    decreases a.len(),
{
    if a.len() > 0 && b.len() > 0 && c.len() > 0 && a[0] == b[0] && b[0] == c[0] {
        lemma_lex_lt_transitive(a.skip(1), b.skip(1), c.skip(1));
    }
}

/// Three-way comparison of two names by their UTF-8 bytes.
pub fn str_compare(a: &str, b: &str) -> (r: Cmp)
    ensures
        r == Cmp::Lt <==> lex_lt(a.spec_bytes(), b.spec_bytes()),
        r == Cmp::Gt <==> lex_lt(b.spec_bytes(), a.spec_bytes()),
        r == Cmp::Eq <==> a.spec_bytes() == b.spec_bytes(),
{
    let ab = a.as_bytes();
    let bb = b.as_bytes();
    let n = if ab.len() <= bb.len() {
        ab.len()
    } else {
        bb.len()
    };
    let mut i: usize = 0;
    while i < n
        invariant
            i <= n,
            n <= ab@.len(),
            n <= bb@.len(),
            n == ab@.len() || n == bb@.len(),
            ab@ == a.spec_bytes(),
            bb@ == b.spec_bytes(),
            forall|j: int| 0 <= j < i ==> ab@[j] == bb@[j],
        decreases n - i,
    {
        if ab[i] < bb[i] {
            proof {
                lemma_lex_lt_from_diff(ab@, bb@, i as int);
                lemma_lex_lt_irreflexive(ab@);
                lemma_lex_lt_asymmetric(ab@, bb@);
            }
            return Cmp::Lt;
        }
        if ab[i] > bb[i] {
            proof {
                lemma_lex_lt_from_diff(bb@, ab@, i as int);
                lemma_lex_lt_irreflexive(bb@);
                lemma_lex_lt_asymmetric(bb@, ab@);
            }
            return Cmp::Gt;
        }
        i += 1;
    }
    if ab.len() < bb.len() {
        proof {
            lemma_lex_lt_from_prefix(ab@, bb@);
            lemma_lex_lt_irreflexive(ab@);
            lemma_lex_lt_asymmetric(ab@, bb@);
        }
        Cmp::Lt
    } else if bb.len() < ab.len() {
        proof {
            lemma_lex_lt_from_prefix(bb@, ab@);
            lemma_lex_lt_irreflexive(bb@);
            lemma_lex_lt_asymmetric(bb@, ab@);
        }
        Cmp::Gt
    } else {
        proof {
            assert(ab@ =~= bb@);
            lemma_lex_lt_irreflexive(ab@);
        }
        Cmp::Eq
    }
}

proof fn lemma_lex_lt_asymmetric(a: Seq<u8>, b: Seq<u8>)
    requires
        lex_lt(a, b),
    ensures
        !lex_lt(b, a),
        a != b,
    decreases a.len(),
{
    lemma_lex_lt_irreflexive(a);
    if a.len() > 0 && b.len() > 0 && a[0] == b[0] {
        lemma_lex_lt_asymmetric(a.skip(1), b.skip(1));
        if a == b {
            assert(a.skip(1) =~= b.skip(1));
        }
    }
}

/// The position at which a new name belongs in a sorted name list: the first
/// index whose name comes lexicographically after it.
pub open spec fn insert_pos(names: Seq<Seq<u8>>, name: Seq<u8>) -> int
    decreases names.len(),
{
    if names.len() == 0 {
        0
    } else if lex_lt(name, names[0]) {
        0
    } else {
        1 + insert_pos(names.skip(1), name)
    }
}

/// A position with everything before it smaller and everything at it larger
/// is the insertion position.
pub proof fn lemma_insert_pos_unique(names: Seq<Seq<u8>>, name: Seq<u8>, p: int)
    requires
        0 <= p <= names.len(),
        forall|j: int| 0 <= j < p ==> lex_lt(#[trigger] names[j], name),
        p < names.len() ==> lex_lt(name, names[p]),
    ensures
        insert_pos(names, name) == p,
    decreases names.len(),
{
    if p == 0 {
    } else {
        lemma_lex_lt_asymmetric(names[0], name);
        lemma_insert_pos_unique(names.skip(1), name, p - 1);
    }
}

/// Inserting a name at its position keeps a sorted list sorted, and such a
/// list never held the name.
pub proof fn lemma_sorted_insert(names: Seq<Seq<u8>>, name: Seq<u8>, p: int)
    requires
        names_sorted(names),
        0 <= p <= names.len(),
        forall|j: int| 0 <= j < p ==> lex_lt(#[trigger] names[j], name),
        p < names.len() ==> lex_lt(name, names[p]),
    ensures
        names_sorted(names.insert(p, name)),
        !names_contain(names, name),
{
    let post = names.insert(p, name);
    assert forall|j: int| p <= j < names.len() implies lex_lt(name, #[trigger] names[j]) by {
        if j > p {
            lemma_lex_lt_transitive(name, names[p], names[j]);
        }
    }
    assert forall|i: int, j: int| 0 <= i < j < post.len() implies lex_lt(post[i], post[j]) by {
        if i < p && j == p {
            assert(post[i] == names[i]);
        } else if i == p && j > p {
            assert(post[j] == names[j - 1]);
        } else if i < p && j > p {
            assert(post[i] == names[i] && post[j] == names[j - 1]);
        } else if j < p {
            assert(post[i] == names[i] && post[j] == names[j]);
        } else if i > p {
            assert(post[i] == names[i - 1] && post[j] == names[j - 1]);
        }
    }
    assert forall|i: int| 0 <= i < names.len() implies names[i] != name by {
        if i < p {
            lemma_lex_lt_asymmetric(names[i], name);
        } else {
            lemma_lex_lt_asymmetric(name, names[i]);
        }
    }
}

/// The byte views of an owned name list; contracts over lists of names speak
/// of this sequence.
pub open spec fn names_view(v: Seq<String>) -> Seq<Seq<u8>> {
    Seq::new(v.len(), |i: int| bytes_view(v[i]@))
}

/// Whether a name list holds a given name.
pub open spec fn names_contain(names: Seq<Seq<u8>>, name: Seq<u8>) -> bool {
    exists|i: int| 0 <= i < names.len() && names[i] == name
}

/// Linear search of a name list for one name.
pub fn contains_name(names: &Vec<String>, target: &str) -> (r: bool)
    ensures
        r == names_contain(names_view(names@), target.spec_bytes()),
{
    let mut i: usize = 0;
    while i < names.len()
        invariant
            i <= names@.len(),
            forall|j: int| 0 <= j < i ==> names_view(names@)[j] != target.spec_bytes(),
        decreases names@.len() - i,
    {
        if matches!(str_compare(names[i].as_str(), target), Cmp::Eq) {
            assert(names_view(names@)[i as int] == target.spec_bytes());
            return true;
        }
        i += 1;
    }
    false
}

/// Copy of an owned name list, byte-for-byte.
pub fn clone_names(names: &Vec<String>) -> (r: Vec<String>)
    ensures
        names_view(r@) =~= names_view(names@),
{
    let mut out: Vec<String> = Vec::new();
    let mut i: usize = 0;
    while i < names.len()
        invariant
            i <= names@.len(),
            out@.len() == i,
            forall|j: int| 0 <= j < i ==> names_view(out@)[j] == names_view(names@)[j],
        decreases names@.len() - i,
    {
        out.push(names[i].clone());
        i += 1;
    }
    out
}

} // verus!
