use crate::strorder::Cmp;
use crate::strorder::is_prefix_of;
use crate::strorder::lemma_lex_lt_asymmetric;
use crate::strorder::lemma_lex_lt_transitive;
use crate::strorder::lex_le;
use crate::strorder::lex_lt;
use crate::strorder::str_cmp;
use vstd::prelude::*;

verus! {

/// The registry invariant: strictly ascending, which makes it both sorted and
/// free of duplicates.
pub open spec fn sorted_strict(s: Seq<Seq<char>>) -> bool {
    forall|i: int, j: int| 0 <= i < j < s.len() ==> lex_lt(s[i], s[j])
}

/// A sorted insert of `m` into `s`: `m` lands before the first entry that
/// does not sort below it, and an entry equal to `m` leaves `s` unchanged.
pub open spec fn insert_sorted(s: Seq<Seq<char>>, m: Seq<char>) -> Seq<Seq<char>>
    decreases s.len(),
{
    if s.len() == 0 {
        seq![m]
    } else if lex_lt(s[0], m) {
        seq![s[0]] + insert_sorted(s.drop_first(), m)
    } else if s[0] == m {
        s
    } else {
        seq![m] + s
    }
}

/// Entry `i` grants the path `p`: it is the greatest entry sorting no later
/// than `p` (nothing between it and `p`, and `p` below its successor), and it
/// is a literal prefix of `p` (an exact match included).
pub open spec fn allowed_at(mods: Seq<Seq<char>>, p: Seq<char>, i: int) -> bool {
    &&& 0 <= i < mods.len()
    &&& lex_le(mods[i], p)
    &&& i == mods.len() - 1 || lex_lt(p, mods[i + 1])
    &&& is_prefix_of(mods[i], p)
}

/// What the sorted-prefix scan grants a path `p`: everything is allowed when
/// the registry is empty; otherwise `p` is allowed exactly when the greatest
/// registered entry sorting no later than `p` is a literal prefix of `p` (an
/// exact match included).
pub open spec fn spec_allowed(mods: Seq<Seq<char>>, p: Seq<char>) -> bool {
    ||| mods.len() == 0
    ||| exists|i: int| allowed_at(mods, p, i)
}

/// Registering a sequence of modules is folding sorted inserts over it, in
/// order.
pub open spec fn insert_all(s: Seq<Seq<char>>, ms: Seq<Seq<char>>) -> Seq<Seq<char>>
    decreases ms.len(),
{
    if ms.len() == 0 {
        s
    } else {
        insert_all(insert_sorted(s, ms[0]), ms.drop_first())
    }
}

/// Folding one more module is a sorted insert into the fold so far.
pub proof fn lemma_insert_all_push(s: Seq<Seq<char>>, ms: Seq<Seq<char>>, m: Seq<char>)
    ensures
        insert_all(s, ms.push(m)) == insert_sorted(insert_all(s, ms), m),
    decreases ms.len(),
{
    if ms.len() == 0 {
        assert(ms.push(m)[0] == m);
        assert(ms.push(m).drop_first() =~= Seq::<Seq<char>>::empty());
        assert(insert_all(s, ms.push(m)) == insert_all(
            insert_sorted(s, m),
            Seq::<Seq<char>>::empty(),
        ));
        assert(insert_all(insert_sorted(s, m), Seq::<Seq<char>>::empty()) == insert_sorted(s, m));
    } else {
        assert(ms.push(m)[0] == ms[0]);
        assert(ms.push(m).drop_first() =~= ms.drop_first().push(m));
        assert(insert_all(s, ms.push(m)) == insert_all(
            insert_sorted(s, ms[0]),
            ms.drop_first().push(m),
        ));
        lemma_insert_all_push(insert_sorted(s, ms[0]), ms.drop_first(), m);
        assert(insert_all(s, ms) == insert_all(insert_sorted(s, ms[0]), ms.drop_first()));
    }
}

/// An empty registry restricts nothing: every module path is allowed.
pub proof fn lemma_empty_registry_allows(mods: Seq<Seq<char>>, p: Seq<char>)
    requires
        mods.len() == 0,
    ensures
        spec_allowed(mods, p),
{
}

/// Registering the same module a second time changes nothing: a sorted
/// insert is idempotent.
pub proof fn lemma_insert_sorted_idempotent(s: Seq<Seq<char>>, m: Seq<char>)
    requires
        sorted_strict(s),
    ensures
        insert_sorted(insert_sorted(s, m), m) == insert_sorted(s, m),
    decreases s.len(),
{
    lemma_lex_lt_asymmetric(m, m);
    if s.len() == 0 {
        let t = insert_sorted(s, m);
        assert(t == seq![m]);
        assert(t[0] == m);
        assert(insert_sorted(t, m) == t);
    } else if lex_lt(s[0], m) {
        let t = insert_sorted(s, m);
        let sub = insert_sorted(s.drop_first(), m);
        assert(t == seq![s[0]] + sub);
        assert(t[0] == s[0]);
        assert(t.len() > 0);
        assert(sorted_strict(s.drop_first())) by {
            assert forall|i: int, j: int|
                0 <= i < j < s.drop_first().len() implies lex_lt(
                s.drop_first()[i],
                s.drop_first()[j],
            ) by {
                assert(s.drop_first()[i] == s[i + 1]);
                assert(s.drop_first()[j] == s[j + 1]);
            }
        }
        lemma_insert_sorted_idempotent(s.drop_first(), m);
        assert(t.drop_first() =~= sub);
        assert(insert_sorted(t, m) == seq![t[0]] + insert_sorted(t.drop_first(), m));
        assert(seq![t[0]] + insert_sorted(t.drop_first(), m) =~= t);
    } else if s[0] == m {
        assert(insert_sorted(s, m) == s);
    } else {
        let t = insert_sorted(s, m);
        assert(t == seq![m] + s);
        assert(t[0] == m);
        assert(insert_sorted(t, m) == t);
    }
}

/// A strictly sorted registry holds no entry twice: two distinct positions
/// hold distinct modules.
pub proof fn lemma_sorted_unique(s: Seq<Seq<char>>, i: int, j: int)
    requires
        sorted_strict(s),
        0 <= i < j < s.len(),
    ensures
        s[i] != s[j],
{
    lemma_lex_lt_asymmetric(s[i], s[j]);
}

/// A sorted insert leaves the inserted module present in the registry.
pub proof fn lemma_insert_sorted_contains(s: Seq<Seq<char>>, m: Seq<char>)
    ensures
        insert_sorted(s, m).contains(m),
    decreases s.len(),
{
    if s.len() == 0 {
        assert(insert_sorted(s, m)[0] == m);
    } else if lex_lt(s[0], m) {
        lemma_insert_sorted_contains(s.drop_first(), m);
        let sub = insert_sorted(s.drop_first(), m);
        let k = choose|k: int| 0 <= k < sub.len() && sub[k] == m;
        assert(insert_sorted(s, m)[k + 1] == m);
    } else if s[0] == m {
        assert(insert_sorted(s, m)[0] == m);
    } else {
        assert(insert_sorted(s, m)[0] == m);
    }
}

/// A module already present in the registry makes a sorted insert of it a
/// no-op.
pub proof fn lemma_insert_sorted_present(s: Seq<Seq<char>>, m: Seq<char>, k: int)
    requires
        sorted_strict(s),
        0 <= k < s.len(),
        s[k] == m,
    ensures
        insert_sorted(s, m) == s,
    decreases s.len(),
{
    lemma_lex_lt_asymmetric(m, m);
    if k == 0 {
        assert(!lex_lt(s[0], m));
    } else {
        assert(lex_lt(s[0], m));
        assert(sorted_strict(s.drop_first())) by {
            assert forall|i: int, j: int|
                0 <= i < j < s.drop_first().len() implies lex_lt(
                s.drop_first()[i],
                s.drop_first()[j],
            ) by {
                assert(s.drop_first()[i] == s[i + 1]);
                assert(s.drop_first()[j] == s[j + 1]);
            }
        }
        assert(s.drop_first()[k - 1] == m);
        lemma_insert_sorted_present(s.drop_first(), m, k - 1);
        assert(insert_sorted(s, m) == seq![s[0]] + insert_sorted(s.drop_first(), m));
        assert(seq![s[0]] + s.drop_first() =~= s);
    }
}

/// A sorted insert of an absent module is an insert at its sorted position,
/// and keeps the registry strictly sorted.
pub proof fn lemma_insert_sorted_via_position(s: Seq<Seq<char>>, m: Seq<char>, pos: int)
    requires
        sorted_strict(s),
        0 <= pos <= s.len(),
        forall|j: int| 0 <= j < pos ==> lex_lt(s[j], m),
        forall|j: int| pos <= j < s.len() ==> lex_lt(m, s[j]),
    ensures
        insert_sorted(s, m) == s.insert(pos, m),
        sorted_strict(s.insert(pos, m)),
    decreases s.len(),
{
    lemma_lex_lt_asymmetric(m, m);
    s.insert_ensures(pos, m);
    let t = s.insert(pos, m);
    assert(sorted_strict(t)) by {
        assert forall|i: int, j: int| 0 <= i < j < t.len() implies lex_lt(t[i], t[j]) by {
            if j < pos {
                assert(t[i] == s[i] && t[j] == s[j]);
            } else if i < pos && j == pos {
                assert(t[i] == s[i]);
            } else if i < pos && j > pos {
                assert(t[i] == s[i] && t[j] == s[j - 1]);
                assert(s.insert(pos, m)[j - 1 + 1] == s[j - 1]);
            } else if i == pos {
                assert(s.insert(pos, m)[j - 1 + 1] == s[j - 1]);
            } else {
                assert(s.insert(pos, m)[i - 1 + 1] == s[i - 1]);
                assert(s.insert(pos, m)[j - 1 + 1] == s[j - 1]);
            }
        }
    }
    if s.len() == 0 {
        assert(insert_sorted(s, m) =~= t);
    } else if pos == 0 {
        assert(lex_lt(m, s[0]));
        lemma_lex_lt_asymmetric(s[0], m);
        assert(!lex_lt(s[0], m));
        assert(s[0] != m);
        assert(insert_sorted(s, m) == seq![m] + s);
        assert(seq![m] + s =~= t);
    } else {
        assert(lex_lt(s[0], m));
        assert(sorted_strict(s.drop_first())) by {
            assert forall|i: int, j: int|
                0 <= i < j < s.drop_first().len() implies lex_lt(
                s.drop_first()[i],
                s.drop_first()[j],
            ) by {
                assert(s.drop_first()[i] == s[i + 1]);
                assert(s.drop_first()[j] == s[j + 1]);
            }
        }
        assert forall|j: int| 0 <= j < pos - 1 implies lex_lt(s.drop_first()[j], m) by {
            assert(s.drop_first()[j] == s[j + 1]);
        }
        assert forall|j: int| pos - 1 <= j < s.drop_first().len() implies lex_lt(
            m,
            s.drop_first()[j],
        ) by {
            assert(s.drop_first()[j] == s[j + 1]);
        }
        lemma_insert_sorted_via_position(s.drop_first(), m, pos - 1);
        s.drop_first().insert_ensures(pos - 1, m);
        assert(insert_sorted(s, m) == seq![s[0]] + s.drop_first().insert(pos - 1, m));
        assert(seq![s[0]] + s.drop_first().insert(pos - 1, m) =~= t);
    }
}

/// Binary search for `path` in the sorted registry. `Ok(i)` says entry `i` is
/// exactly `path`; `Err(i)` says `path` is absent, everything before `i`
/// sorts below it and everything from `i` on sorts above it.
pub fn find_index(mods: &Vec<String>, path: &str) -> (r: Result<usize, usize>)
    requires
        sorted_strict(mods.deep_view()),
    ensures
        r matches Ok(i) ==> (i as int) < mods.deep_view().len() && mods.deep_view()[i as int]
            == path@,
        r matches Err(i) ==> {
            &&& i <= mods.deep_view().len()
            &&& forall|j: int| 0 <= j < i as int ==> lex_lt(mods.deep_view()[j], path@)
            &&& forall|j: int|
                i as int <= j < mods.deep_view().len() ==> lex_lt(path@, mods.deep_view()[j])
        },
{
    let ghost m = mods.deep_view();
    let len = mods.len();
    let mut lo: usize = 0;
    let mut hi: usize = len;
    proof {
        assert(m.len() == mods@.len());
    }
    while lo < hi
        invariant
            lo <= hi <= len,
            len == mods@.len(),
            m == mods.deep_view(),
            m.len() == mods@.len(),
            sorted_strict(m),
            forall|j: int| 0 <= j < lo as int ==> lex_lt(m[j], path@),
            forall|j: int| hi as int <= j < m.len() ==> lex_lt(path@, m[j]),
        decreases hi - lo,
    {
        let mid = lo + (hi - lo) / 2;
        let entry: &String = &mods[mid];
        proof {
            assert(m[mid as int] == mods@[mid as int]@);
        }
        match str_cmp(entry.as_str(), path) {
            Cmp::Eq => {
                return Ok(mid);
            },
            Cmp::Lt => {
                proof {
                    assert forall|j: int| 0 <= j < mid as int + 1 implies lex_lt(m[j], path@) by {
                        if j < mid as int {
                            assert(lex_lt(m[j], m[mid as int]));
                            lemma_lex_lt_transitive(m[j], m[mid as int], path@);
                        }
                    }
                }
                lo = mid + 1;
            },
            Cmp::Gt => {
                proof {
                    assert forall|j: int| mid as int <= j < m.len() implies lex_lt(path@, m[j]) by {
                        if j > mid as int {
                            assert(lex_lt(m[mid as int], m[j]));
                            lemma_lex_lt_transitive(path@, m[mid as int], m[j]);
                        }
                    }
                }
                hi = mid;
            },
        }
    }
    Err(lo)
}

} // verus!
