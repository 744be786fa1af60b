//! Texts in the order Rust gives `String` (code point by code point), and
//! lists of text keys kept sorted, as `BTreeSet`/`BTreeMap` keep them.
use vstd::prelude::*;

use crate::text::{chars_of, same_chars};

verus! {

/// `a < b` for texts: the first differing character decides, and a proper
/// prefix comes first.
pub open spec fn lex_lt(a: Seq<char>, b: Seq<char>) -> bool
    decreases a.len(),
{
    if a.len() == 0 {
        b.len() > 0
    } else if b.len() == 0 {
        false
    } else if a[0] != b[0] {
        a[0] < b[0]
    } else {
        lex_lt(a.drop_first(), b.drop_first())
    }
}

/// No text comes before itself.
pub proof fn lemma_lex_irreflexive(a: Seq<char>)
    ensures
        !lex_lt(a, a),
    decreases a.len(),
{
    if a.len() > 0 {
        lemma_lex_irreflexive(a.drop_first());
    }
}

/// The order is transitive.
pub proof fn lemma_lex_transitive(a: Seq<char>, b: Seq<char>, c: Seq<char>)
    requires
        lex_lt(a, b),
        lex_lt(b, c),
    ensures
        lex_lt(a, c),
    decreases a.len(),
{
    if a.len() > 0 && b.len() > 0 && c.len() > 0 && a[0] == b[0] && b[0] == c[0] {
        lemma_lex_transitive(a.drop_first(), b.drop_first(), c.drop_first());
    }
}

/// Two different texts are ordered one way or the other.
pub proof fn lemma_lex_total(a: Seq<char>, b: Seq<char>)
    requires
        a != b,
    ensures
        lex_lt(a, b) || lex_lt(b, a),
    decreases a.len(),
{
    if a.len() == 0 {
        if b.len() == 0 {
            assert(a =~= b);
        }
    } else if b.len() == 0 {
    } else if a[0] != b[0] {
    } else {
        if a.drop_first() == b.drop_first() {
            assert(a == seq![a[0]] + a.drop_first());
            assert(b == seq![b[0]] + b.drop_first());
        }
        lemma_lex_total(a.drop_first(), b.drop_first());
    }
}

/// A shared prefix does not change the order.
proof fn lemma_lex_skip(a: Seq<char>, b: Seq<char>, i: int)
    requires
        0 <= i <= a.len(),
        i <= b.len(),
        forall|k: int| 0 <= k < i ==> a[k] == b[k],
    ensures
        lex_lt(a, b) == lex_lt(a.skip(i), b.skip(i)),
    decreases i,
{
    if i > 0 {
        assert(a.drop_first().skip(i - 1) == a.skip(i));
        assert(b.drop_first().skip(i - 1) == b.skip(i));
        lemma_lex_skip(a.drop_first(), b.drop_first(), i - 1);
    } else {
        assert(a.skip(0) == a);
        assert(b.skip(0) == b);
    }
}

/// `a < b` for texts given by their characters.
pub fn chars_less(a: &[char], b: &[char]) -> (r: bool)
    ensures
        r == lex_lt(a@, b@),
{
    let mut i: usize = 0;
    while i < a.len() && i < b.len() && a[i] == b[i]
        invariant
            i <= a@.len(),
            i <= b@.len(),
            forall|k: int| 0 <= k < i ==> a@[k] == b@[k],
        decreases a@.len() - i,
    {
        i = i + 1;
    }
    proof {
        lemma_lex_skip(a@, b@, i as int);
    }
    if i == a.len() {
        i < b.len()
    } else if i == b.len() {
        false
    } else {
        a[i] < b[i]
    }
}

/// `ps` lists the entries of `m`, each key once, keys in increasing order.
pub open spec fn lists_map(ps: Seq<(String, u32)>, m: Map<Seq<char>, u32>) -> bool {
    &&& forall|i: int, j: int| 0 <= i < j < ps.len() ==> lex_lt(ps[i].0@, ps[j].0@)
    &&& forall|i: int|
        0 <= i < ps.len() ==> #[trigger] m.contains_key(ps[i].0@) && m[ps[i].0@] == ps[i].1
    &&& forall|k: Seq<char>| #[trigger] m.contains_key(k) ==> exists|i: int|
        0 <= i < ps.len() && ps[i].0@ == k
}

/// The keys of `ps`, in order.
pub open spec fn keys_of(ps: Seq<(String, u32)>) -> Seq<Seq<char>> {
    ps.map_values(|p: (String, u32)| p.0@)
}

/// Adds `key` with `value` to the sorted entry list `ps`.  An entry with
/// that key is given the new value when `overwrite` (`BTreeMap::insert`),
/// and kept otherwise (`entry(..).or_insert(..)`).
pub fn upsert(ps: &mut Vec<(String, u32)>, key: String, value: u32, overwrite: bool, Ghost(
    m,
): Ghost<Map<Seq<char>, u32>>)
    requires
        lists_map(old(ps)@, m),
    ensures
        lists_map(
            final(ps)@,
            if overwrite || !m.contains_key(key@) {
                m.insert(key@, value)
            } else {
                m
            },
        ),
{
    let kc = chars_of(key.as_str());
    let mut i: usize = 0;
    while i < ps.len() && chars_less(&chars_of(ps[i].0.as_str()), &kc)
        invariant
            i <= ps@.len(),
            ps@ == old(ps)@,
            kc@ == key@,
            lists_map(ps@, m),
            forall|j: int| 0 <= j < i ==> lex_lt(#[trigger] ps@[j].0@, key@),
        decreases ps@.len() - i,
    {
        i = i + 1;
    }
    let ghost old_ps = ps@;
    let found = i < ps.len() && same_chars(&chars_of(ps[i].0.as_str()), &kc);
    if found {
        proof {
            assert(m.contains_key(key@));
        }
        if overwrite {
            ps.set(i, (key, value));
            proof {
                let n = m.insert(key@, value);
                assert forall|a: int, b: int| 0 <= a < b < ps@.len() implies lex_lt(
                    ps@[a].0@,
                    ps@[b].0@,
                ) by {
                    assert(ps@[a].0@ == old_ps[a].0@);
                    assert(ps@[b].0@ == old_ps[b].0@);
                }
                assert forall|a: int| 0 <= a < ps@.len() implies #[trigger] n.contains_key(
                    ps@[a].0@,
                ) && n[ps@[a].0@] == ps@[a].1 by {
                    if a != i {
                        assert(ps@[a] == old_ps[a]);
                        assert(m.contains_key(old_ps[a].0@));
                        if old_ps[a].0@ == key@ {
                            if a < i {
                                lemma_lex_irreflexive(key@);
                            } else {
                                assert(lex_lt(old_ps[i as int].0@, old_ps[a].0@));
                                lemma_lex_irreflexive(key@);
                            }
                        }
                    }
                }
                assert forall|k: Seq<char>| #[trigger] n.contains_key(k) implies exists|a: int|
                    0 <= a < ps@.len() && ps@[a].0@ == k by {
                    if k == key@ {
                        assert(ps@[i as int].0@ == k);
                    } else {
                        let a = choose|a: int| 0 <= a < old_ps.len() && old_ps[a].0@ == k;
                        assert(ps@[a].0@ == k);
                    }
                }
            }
        }
    } else {
        proof {
            if i < ps@.len() {
                lemma_lex_total(ps@[i as int].0@, key@);
            }
            if m.contains_key(key@) {
                let a = choose|a: int| 0 <= a < old_ps.len() && old_ps[a].0@ == key@;
                if a < i {
                    lemma_lex_irreflexive(key@);
                } else if a > i {
                    lemma_lex_transitive(key@, old_ps[i as int].0@, old_ps[a].0@);
                    lemma_lex_irreflexive(key@);
                }
            }
        }
        ps.insert(i, (key, value));
        proof {
            let n = m.insert(key@, value);
            assert forall|a: int, b: int| 0 <= a < b < ps@.len() implies lex_lt(
                ps@[a].0@,
                ps@[b].0@,
            ) by {
                if a < i && b < i {
                    assert(ps@[a] == old_ps[a] && ps@[b] == old_ps[b]);
                } else if a < i && b == i {
                    assert(ps@[a] == old_ps[a]);
                } else if a < i {
                    assert(ps@[a] == old_ps[a] && ps@[b] == old_ps[b - 1]);
                } else if a == i {
                    assert(ps@[b] == old_ps[b - 1]);
                    if b - 1 > i {
                        lemma_lex_transitive(key@, old_ps[i as int].0@, old_ps[b - 1].0@);
                    }
                } else {
                    assert(ps@[a] == old_ps[a - 1] && ps@[b] == old_ps[b - 1]);
                }
            }
            assert forall|a: int| 0 <= a < ps@.len() implies #[trigger] n.contains_key(
                ps@[a].0@,
            ) && n[ps@[a].0@] == ps@[a].1 by {
                if a < i {
                    assert(ps@[a] == old_ps[a]);
                    assert(m.contains_key(old_ps[a].0@));
                    assert(lex_lt(old_ps[a].0@, key@));
                    if old_ps[a].0@ == key@ {
                        lemma_lex_irreflexive(key@);
                    }
                } else if a > i {
                    assert(ps@[a] == old_ps[a - 1]);
                    assert(m.contains_key(old_ps[a - 1].0@));
                    if old_ps[a - 1].0@ == key@ {
                        if a - 1 == i {
                            lemma_lex_irreflexive(key@);
                        } else {
                            lemma_lex_transitive(key@, old_ps[i as int].0@, old_ps[a - 1].0@);
                            lemma_lex_irreflexive(key@);
                        }
                    }
                }
            }
            assert forall|k: Seq<char>| #[trigger] n.contains_key(k) implies exists|a: int|
                0 <= a < ps@.len() && ps@[a].0@ == k by {
                if k == key@ {
                    assert(ps@[i as int].0@ == k);
                } else {
                    let a = choose|a: int| 0 <= a < old_ps.len() && old_ps[a].0@ == k;
                    if a < i {
                        assert(ps@[a].0@ == k);
                    } else {
                        assert(ps@[a + 1].0@ == k);
                    }
                }
            }
        }
    }
}

} // verus!
