//! Ordering of character sequences by code point, and a stable insertion
//! sort of items by precomputed keys.
use vstd::prelude::*;

use crate::catalog::views;

verus! {

/// `a` comes strictly before `b`: lexicographic order by code point, which
/// is the order of `str`'s comparison (UTF-8 preserves code point order).
pub open spec fn seq_lt(a: Seq<char>, b: Seq<char>) -> bool
    decreases a.len(),
{
    if a.len() == 0 {
        b.len() > 0
    } else if b.len() == 0 {
        false
    } else if a[0] != b[0] {
        (a[0] as u32) < (b[0] as u32)
    } else {
        seq_lt(a.drop_first(), b.drop_first())
    }
}

pub open spec fn seq_le(a: Seq<char>, b: Seq<char>) -> bool {
    !seq_lt(b, a)
}

/// Each item's key is at most the next item's key.
pub open spec fn sorted_by<V>(s: Seq<V>, key: spec_fn(V) -> Seq<char>) -> bool {
    forall|i: int| 0 <= i && i + 1 < s.len() ==> seq_le(key(#[trigger] s[i]), key(s[i + 1]))
}

pub proof fn lemma_lt_asymmetric(a: Seq<char>, b: Seq<char>)
    ensures
        seq_lt(a, b) ==> !seq_lt(b, a),
    decreases a.len(),
{
    if a.len() > 0 && b.len() > 0 && a[0] == b[0] {
        lemma_lt_asymmetric(a.drop_first(), b.drop_first());
    }
}

/// Whether `a` comes strictly before `b`.
pub fn lt_exec(a: &Vec<char>, b: &Vec<char>) -> (r: bool)
    ensures
        r == seq_lt(a@, b@),
{
    let mut i: usize = 0;
    assert(a@.skip(0) =~= a@ && b@.skip(0) =~= b@);
    while i < a.len() && i < b.len() && a[i] == b[i]
        invariant
            i <= a.len(),
            i <= b.len(),
            seq_lt(a@, b@) == seq_lt(a@.skip(i as int), b@.skip(i as int)),
        decreases a.len() - i,
    {
        assert(a@.skip(i as int).drop_first() =~= a@.skip(i + 1));
        assert(b@.skip(i as int).drop_first() =~= b@.skip(i + 1));
        i = i + 1;
    }
    if i == a.len() {
        i < b.len()
    } else if i == b.len() {
        false
    } else {
        assert(a@.skip(i as int)[0] == a@[i as int]);
        assert(b@.skip(i as int)[0] == b@[i as int]);
        (a[i] as u32) < (b[i] as u32)
    }
}

/// `items` reordered so that their keys ascend.
pub fn sort_by_keys<T: View>(
    items: Vec<T>,
    keys: Vec<Vec<char>>,
    Ghost(key): Ghost<spec_fn(T::V) -> Seq<char>>,
) -> (r: Vec<T>)
    requires
        items.len() == keys.len(),
        forall|i: int| 0 <= i < items.len() ==> (#[trigger] keys[i])@ == key(items[i]@),
    ensures
        views(r@).to_multiset() == views(items@).to_multiset(),
        sorted_by(views(r@), key),
{
    broadcast use vstd::seq_lib::group_to_multiset_ensures, vstd::multiset::group_multiset_axioms;

    let ghost original = views(items@);
    let mut rest = items;
    let mut rest_keys = keys;
    let mut out: Vec<T> = Vec::new();
    let mut out_keys: Vec<Vec<char>> = Vec::new();
    assert(views(out@) =~= Seq::<T::V>::empty());
    while rest.len() > 0
        invariant
            rest.len() == rest_keys.len(),
            out.len() == out_keys.len(),
            forall|i: int| 0 <= i < rest.len() ==> (#[trigger] rest_keys[i])@ == key(rest[i]@),
            forall|i: int| 0 <= i < out.len() ==> (#[trigger] out_keys[i])@ == key(out[i]@),
            views(out@).to_multiset().add(views(rest@).to_multiset()) == original.to_multiset(),
            sorted_by(views(out@), key),
        decreases rest.len(),
    {
        let ghost before_rest = rest@;
        let x = match rest.pop() {
            Some(x) => x,
            None => { return out; },
        };
        let k = match rest_keys.pop() {
            Some(k) => k,
            None => { return out; },
        };
        assert(k@ == key(x@)) by {
            assert(before_rest[before_rest.len() - 1] == x);
        }
        assert(views(before_rest) =~= views(rest@).push(x@));
        let mut pos: usize = 0;
        while pos < out.len() && lt_exec(&out_keys[pos], &k)
            invariant
                pos <= out.len() == out_keys.len(),
                forall|i: int| 0 <= i < out.len() ==> (#[trigger] out_keys[i])@ == key(out[i]@),
                pos > 0 ==> seq_lt(key(out@[pos - 1]@), k@),
            decreases out.len() - pos,
        {
            pos = pos + 1;
        }
        let ghost vo = views(out@);
        proof {
            if pos > 0 {
                lemma_lt_asymmetric(key(vo[pos - 1]), k@);
            }
        }
        out.insert(pos, x);
        out_keys.insert(pos, k);
        proof {
            let vn = views(out@);
            assert(vn =~= vo.insert(pos as int, x@));
            vstd::seq_lib::to_multiset_insert(vo, pos as int, x@);
            assert forall|i: int| 0 <= i && i + 1 < vn.len() implies seq_le(
                key(#[trigger] vn[i]),
                key(vn[i + 1]),
            ) by {
                if i + 1 < pos {
                    assert(vn[i] == vo[i] && vn[i + 1] == vo[i + 1]);
                } else if i + 1 == pos {
                    assert(vn[i] == vo[i]);
                } else if i == pos {
                    assert(vn[i + 1] == vo[i]);
                    assert(out_keys@[i + 1]@ == key(out@[i + 1]@));
                } else {
                    assert(vn[i] == vo[i - 1] && vn[i + 1] == vo[i]);
                }
            }
            vstd::seq_lib::to_multiset_build(views(rest@), x@);
            assert(views(out@).to_multiset().add(views(rest@).to_multiset())
                =~= original.to_multiset());
        }
    }
    assert(views(rest@) =~= Seq::<T::V>::empty());
    out
}

} // verus!
