//! The topic list shown to users: internal topics hidden, names sorted.

use vstd::prelude::*;

use crate::text::chars_of;

verus! {

broadcast use vstd::seq_lib::group_to_multiset_ensures;

/// `a` sorts strictly before `b`: character by character, a proper prefix
/// first. (On UTF-8 this is the byte order that `String` sorts by.)
pub open spec fn name_lt(a: Seq<char>, b: Seq<char>) -> bool
    decreases a.len(),
{
    if b.len() == 0 {
        false
    } else if a.len() == 0 {
        true
    } else if a[0] != b[0] {
        a[0] < b[0]
    } else {
        name_lt(a.drop_first(), b.drop_first())
    }
}

/// `a` sorts before `b` or equals it.
pub open spec fn name_le(a: Seq<char>, b: Seq<char>) -> bool {
    name_lt(a, b) || a == b
}

/// `s` is in ascending order.
pub open spec fn names_sorted(s: Seq<Seq<char>>) -> bool {
    forall|i: int, j: int| 0 <= i < j < s.len() ==> name_le(#[trigger] s[i], #[trigger] s[j])
}

/// Kafka-internal topics start with `__`.
pub open spec fn is_internal(name: Seq<char>) -> bool {
    name.len() >= 2 && name[0] == '_' && name[1] == '_'
}

/// The views of the names.
pub open spec fn name_views(names: Seq<String>) -> Seq<Seq<char>> {
    names.map_values(|s: String| s@)
}

/// The user topics among `names`, in the order given.
pub open spec fn user_names(names: Seq<String>) -> Seq<Seq<char>> {
    name_views(names).filter(|n: Seq<char>| !is_internal(n))
}

proof fn lemma_lt_irreflexive(a: Seq<char>)
    ensures
        !name_lt(a, a),
    decreases a.len(),
{
    if a.len() > 0 {
        lemma_lt_irreflexive(a.drop_first());
    }
}

pub(crate) proof fn lemma_lt_total(a: Seq<char>, b: Seq<char>)
    ensures
        a != b ==> name_lt(a, b) || name_lt(b, a),
        !(name_lt(a, b) && name_lt(b, a)),
    decreases a.len(),
{
    if a.len() > 0 && b.len() > 0 && a[0] == b[0] {
        lemma_lt_total(a.drop_first(), b.drop_first());
        if a != b {
            assert(a.drop_first() != b.drop_first()) by {
                if a.drop_first() == b.drop_first() {
                    assert(a.len() == b.len());
                    assert forall|i: int| 0 <= i < a.len() implies a[i] == b[i] by {
                        if i > 0 {
                            assert(a[i] == a.drop_first()[i - 1]);
                            assert(b[i] == b.drop_first()[i - 1]);
                        }
                    }
                    assert(a =~= b);
                }
            }
        }
    }
    if a.len() == 0 && b.len() == 0 {
        assert(a =~= b);
    }
}

pub(crate) proof fn lemma_lt_transitive(a: Seq<char>, b: Seq<char>, c: Seq<char>)
    requires
        name_lt(a, b),
        name_lt(b, c),
    ensures
        name_lt(a, c),
    decreases a.len(),
{
    if a.len() > 0 && b.len() > 0 && c.len() > 0 && a[0] == b[0] && b[0] == c[0] {
        lemma_lt_transitive(a.drop_first(), b.drop_first(), c.drop_first());
    }
}

pub(crate) proof fn lemma_sorted_insert(s: Seq<Seq<char>>, k: int, x: Seq<char>)
    requires
        0 <= k <= s.len(),
        names_sorted(s),
        forall|j: int| 0 <= j < k ==> name_le(#[trigger] s[j], x),
        forall|j: int| k <= j < s.len() ==> name_le(x, #[trigger] s[j]),
    ensures
        names_sorted(s.insert(k, x)),
{
    let t = s.insert(k, x);
    s.insert_ensures(k, x);
    assert forall|i: int, j: int| 0 <= i < j < t.len() implies name_le(#[trigger] t[i], #[trigger] t[j]) by {
        if i < k && j < k {
            assert(t[i] == s[i] && t[j] == s[j]);
        } else if i < k && j == k {
            assert(t[i] == s[i]);
        } else if i < k {
            assert(t[i] == s[i] && t[j] == s[j - 1]);
            assert(name_le(s[i], x));
            assert(name_le(x, s[j - 1]));
            if name_lt(s[i], x) && name_lt(x, s[j - 1]) {
                lemma_lt_transitive(s[i], x, s[j - 1]);
            }
        } else if i == k {
            assert(t[j] == s[j - 1]);
        } else {
            assert(t[i] == s[i - 1] && t[j] == s[j - 1]);
        }
    }
}

pub(crate) proof fn lemma_insert_multiset<A>(s: Seq<A>, k: int, x: A)
    requires
        0 <= k <= s.len(),
    ensures
        s.insert(k, x).to_multiset() == s.to_multiset().insert(x),
{
    let t = s.insert(k, x);
    s.insert_ensures(k, x);
    assert(t.remove(k) =~= s);
    assert(t[k] == x);
    t.to_multiset_ensures();
    assert(t.remove(k).to_multiset() =~= t.to_multiset().remove(x));
    assert(t.contains(x));
    assert(t.to_multiset().count(x) > 0);
    assert(t.to_multiset() =~= s.to_multiset().insert(x));
}

/// Compares two names.
pub(crate) fn lt(a: &String, b: &String) -> (r: bool)
    ensures
        r == name_lt(a@, b@),
{
    let x = chars_of(a.as_str());
    let y = chars_of(b.as_str());
    let mut i: usize = 0;
    assert(x@.skip(0) =~= x@);
    assert(y@.skip(0) =~= y@);
    while i < x.len() && i < y.len() && x[i] == y[i]
        invariant
            i <= x@.len(),
            i <= y@.len(),
            x@ == a@,
            y@ == b@,
            name_lt(a@, b@) == name_lt(x@.skip(i as int), y@.skip(i as int)),
        decreases x@.len() - i,
    {
        assert(x@.skip(i as int).drop_first() =~= x@.skip(i + 1));
        assert(y@.skip(i as int).drop_first() =~= y@.skip(i + 1));
        i = i + 1;
    }
    if i == y.len() {
        false
    } else if i == x.len() {
        true
    } else {
        x[i] < y[i]
    }
}

/// Whether the name starts with `__`.
fn internal(name: &String) -> (r: bool)
    ensures
        r == is_internal(name@),
{
    let x = chars_of(name.as_str());
    x.len() >= 2 && x[0] == '_' && x[1] == '_'
}

/// The names of user topics: internal topics (those starting with `__`)
/// are left out and the rest sorted in ascending order.
pub fn user_topics(names: &Vec<String>) -> (r: Vec<String>)
    ensures
        names_sorted(name_views(r@)),
        name_views(r@).to_multiset() == user_names(names@).to_multiset(),
{
    let mut out: Vec<String> = Vec::new();
    let mut i: usize = 0;
    while i < names.len()
        invariant
            i <= names@.len(),
            names_sorted(name_views(out@)),
            name_views(out@).to_multiset() == user_names(names@.take(i as int)).to_multiset(),
        decreases names@.len() - i,
    {
        let ghost prefix = names@.take(i as int);
        assert(names@.take(i + 1) =~= prefix.push(names@[i as int]));
        assert(name_views(names@.take(i + 1)) =~= name_views(prefix).push(names@[i as int]@));
        proof {
            reveal_with_fuel(Seq::<_>::filter, 1);
            let pv = name_views(prefix).push(names@[i as int]@);
            assert(pv.drop_last() =~= name_views(prefix));
        }
        if !internal(&names[i]) {
            let name = names[i].clone();
            let mut k: usize = 0;
            while k < out.len() && !lt(&name, &out[k])
                invariant
                    k <= out@.len(),
                    forall|j: int| 0 <= j < k ==> !name_lt(name@, #[trigger] out@[j]@),
                decreases out@.len() - k,
            {
                k = k + 1;
            }
            let ghost before = name_views(out@);
            let ghost x = name@;
            proof {
                assert forall|j: int| 0 <= j < k implies name_le(#[trigger] before[j], x) by {
                    lemma_lt_total(before[j], x);
                }
                assert forall|j: int| k <= j < before.len() implies name_le(x, #[trigger] before[j]) by {
                    assert(name_lt(x, before[k as int]));
                    if j > k {
                        assert(name_le(before[k as int], before[j]));
                        if name_lt(before[k as int], before[j]) {
                            lemma_lt_transitive(x, before[k as int], before[j]);
                        }
                    }
                }
                lemma_sorted_insert(before, k as int, x);
                lemma_insert_multiset(before, k as int, x);
            }
            out.insert(k, name);
            proof {
                assert(name_views(out@) =~= before.insert(k as int, x));
            }
        }
        i = i + 1;
    }
    assert(names@.take(names@.len() as int) =~= names@);
    out
}

} // verus!
