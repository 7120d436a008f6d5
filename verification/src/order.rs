//! The order of text, as `str` compares it, and a stable sort by it.
use vstd::prelude::*;

verus! {

/// `a <= b` in the order of `str`: by characters, a prefix first.
pub open spec fn lex_le(a: Seq<char>, b: Seq<char>) -> bool
    decreases a.len(),
{
    if a.len() == 0 {
        true
    } else if b.len() == 0 {
        false
    } else if a[0] != b[0] {
        a[0] < b[0]
    } else {
        lex_le(a.drop_first(), b.drop_first())
    }
}

/// Any two texts are ordered one way or the other.
pub proof fn lemma_lex_le_total(a: Seq<char>, b: Seq<char>)
    ensures
        lex_le(a, b) || lex_le(b, a),
    decreases a.len(),
{
    if a.len() > 0 && b.len() > 0 && a[0] == b[0] {
        lemma_lex_le_total(a.drop_first(), b.drop_first());
    }
}

pub proof fn lemma_lex_le_transitive(a: Seq<char>, b: Seq<char>, c: Seq<char>)
    requires
        lex_le(a, b),
        lex_le(b, c),
    ensures
        lex_le(a, c),
    decreases a.len(),
{
    if a.len() > 0 && b.len() > 0 && c.len() > 0 && a[0] == b[0] && b[0] == c[0] {
        lemma_lex_le_transitive(a.drop_first(), b.drop_first(), c.drop_first());
    }
}

/// Two texts each at most the other are equal.
pub proof fn lemma_lex_le_antisymmetric(a: Seq<char>, b: Seq<char>)
    requires
        lex_le(a, b),
        lex_le(b, a),
    ensures
        a == b,
    decreases a.len(),
{
    if a.len() > 0 {
        lemma_lex_le_antisymmetric(a.drop_first(), b.drop_first());
        assert(a =~= seq![a[0]] + a.drop_first());
        assert(b =~= seq![b[0]] + b.drop_first());
    } else {
        assert(b.len() == 0 || !lex_le(b, a));
        assert(a =~= b);
    }
}

/// `a <= b` on character vectors.
pub fn chars_le(a: &Vec<char>, b: &Vec<char>) -> (r: bool)
    ensures
        r == lex_le(a@, b@),
{
    let mut i: usize = 0;
    assert(a@.skip(0) =~= a@);
    assert(b@.skip(0) =~= b@);
    while i < a.len() && i < b.len()
        invariant
            i <= a.len(),
            i <= b.len(),
            lex_le(a@, b@) == lex_le(a@.skip(i as int), b@.skip(i as int)),
        decreases a.len() - i,
    {
        let x = a[i];
        let y = b[i];
        assert(a@.skip(i as int)[0] == x);
        assert(b@.skip(i as int)[0] == y);
        if x != y {
            return x < y;
        }
        assert(a@.skip(i as int).drop_first() =~= a@.skip(i + 1));
        assert(b@.skip(i as int).drop_first() =~= b@.skip(i + 1));
        i = i + 1;
    }
    if i == a.len() {
        assert(a@.skip(i as int).len() == 0);
        true
    } else {
        assert(b@.skip(i as int).len() == 0);
        assert(a@.skip(i as int).len() > 0);
        false
    }
}

/// `a <= b` on strings.
pub fn str_le(a: &str, b: &str) -> (r: bool)
    ensures
        r == lex_le(a@, b@),
{
    chars_le(&crate::text::chars_of(a), &crate::text::chars_of(b))
}

/// `order` lists each index below `n` once.
pub open spec fn is_permutation(order: Seq<usize>, n: nat) -> bool {
    &&& order.len() == n
    &&& forall|i: int| 0 <= i < order.len() ==> #[trigger] order[i] < n
    &&& forall|i: int, j: int| 0 <= i < j < order.len() ==> order[i] != order[j]
}

/// Taking the keys in `order` gives them in ascending order, and equal keys
/// keep the order they had.
pub open spec fn stably_sorted(keys: Seq<Seq<char>>, order: Seq<usize>) -> bool {
    forall|i: int, j: int|
        0 <= i < j < order.len() ==> lex_le(keys[order[i] as int], keys[order[j] as int]) && (keys[order[i] as int]
            == keys[order[j] as int] ==> order[i] < order[j])
}

/// The keys, taken by views.
pub open spec fn key_views(keys: Seq<Vec<char>>) -> Seq<Seq<char>> {
    keys.map_values(|k: Vec<char>| k@)
}

/// The order that sorts `keys` stably: ascending, ties in their first order.
pub fn stable_sort_order(keys: &Vec<Vec<char>>) -> (order: Vec<usize>)
    ensures
        is_permutation(order@, keys@.len()),
        stably_sorted(key_views(keys@), order@),
{
    let ghost ks = key_views(keys@);
    let mut order: Vec<usize> = Vec::new();
    let mut n: usize = 0;
    while n < keys.len()
        invariant
            n <= keys.len(),
            ks == key_views(keys@),
            order@.len() == n,
            forall|i: int| 0 <= i < order@.len() ==> #[trigger] order@[i] < n,
            forall|i: int, j: int| 0 <= i < j < order@.len() ==> order@[i] != order@[j],
            stably_sorted(ks, order@),
        decreases keys.len() - n,
    {
        let key = &keys[n];
        assert(ks[n as int] == key@);
        // insert after every key that is at most this one
        let mut pos: usize = 0;
        while pos < order.len() && chars_le(&keys[order[pos]], key)
            invariant
                pos <= order@.len(),
                n < keys.len(),
                ks == key_views(keys@),
                ks[n as int] == key@,
                forall|i: int| 0 <= i < order@.len() ==> #[trigger] order@[i] < n,
                forall|i: int| 0 <= i < pos ==> lex_le(ks[#[trigger] order@[i] as int], key@),
            decreases order@.len() - pos,
        {
            assert(ks[order@[pos as int] as int] == keys@[order@[pos as int] as int]@);
            pos = pos + 1;
        }
        let ghost old_order = order@;
        proof {
            if pos < old_order.len() {
                let k = old_order[pos as int] as int;
                assert(ks[k] == keys@[k]@);
                assert(!lex_le(ks[k], key@));
                lemma_lex_le_total(ks[k], key@);
            }
        }
        order.insert(pos, n);
        proof {
            assert(order@ == old_order.insert(pos as int, n));
            assert forall|i: int| 0 <= i < order@.len() implies #[trigger] order@[i] < n + 1 by {
                if i < pos {
                    assert(order@[i] == old_order[i]);
                } else if i > pos {
                    assert(order@[i] == old_order[i - 1]);
                }
            }
            assert forall|i: int, j: int| 0 <= i < j < order@.len() implies order@[i] != order@[j] by {
                if i < pos && j < pos {
                    assert(order@[i] == old_order[i] && order@[j] == old_order[j]);
                } else if i < pos && j == pos {
                    assert(order@[i] == old_order[i]);
                } else if i < pos && j > pos {
                    assert(order@[i] == old_order[i] && order@[j] == old_order[j - 1]);
                } else if i == pos {
                    assert(order@[j] == old_order[j - 1]);
                } else {
                    assert(order@[i] == old_order[i - 1] && order@[j] == old_order[j - 1]);
                }
            }
            assert forall|i: int, j: int| 0 <= i < j < order@.len() implies lex_le(
                ks[order@[i] as int],
                ks[order@[j] as int],
            ) && (ks[order@[i] as int] == ks[order@[j] as int] ==> order@[i] < order@[j]) by {
                if i < pos && j < pos {
                    assert(order@[i] == old_order[i] && order@[j] == old_order[j]);
                } else if i < pos && j == pos {
                    assert(order@[i] == old_order[i]);
                    assert(lex_le(ks[old_order[i] as int], key@));
                } else if i < pos && j > pos {
                    assert(order@[i] == old_order[i] && order@[j] == old_order[j - 1]);
                    assert(i < j - 1);
                } else if i == pos {
                    let k0 = old_order[pos as int] as int;
                    assert(order@[j] == old_order[j - 1]);
                    assert(lex_le(key@, ks[k0]));
                    assert(!lex_le(ks[k0], key@));
                    if j - 1 > pos {
                        let kj = old_order[j - 1] as int;
                        assert(lex_le(ks[k0], ks[kj]));
                        lemma_lex_le_transitive(key@, ks[k0], ks[kj]);
                        if key@ == ks[kj] {
                            assert(lex_le(ks[k0], key@));
                            assert(false);
                        }
                    } else {
                        if key@ == ks[k0] {
                            assert(lex_le(ks[k0], key@)) by {
                                lemma_lex_le_total(key@, key@);
                            }
                        }
                    }
                } else {
                    assert(order@[i] == old_order[i - 1] && order@[j] == old_order[j - 1]);
                }
            }
        }
        n = n + 1;
    }
    order
}

} // verus!
