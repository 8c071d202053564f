//! Rising sequences of numbers, and the order in which a sorted set hands
//! out its keys.

use vstd::prelude::*;
use vstd::std_specs::btree::increasing_seq;
use vstd::std_specs::cmp::OrdSpec;

verus! {

/// Whether each value of `s` is below the next.
pub open spec fn rising(s: Seq<i32>) -> bool {
    forall|i: int, j: int| 0 <= i < j < s.len() ==> s[i] < s[j]
}

/// In a sequence that is increasing by the order of its keys, an earlier key
/// is less than a later one.
proof fn lemma_increasing_means_less<K: Ord>(s: Seq<K>, i: int, j: int)
    requires
        vstd::laws_cmp::obeys_cmp::<K>(),
        increasing_seq(s),
        0 <= i < j < s.len(),
    ensures
        s[i].cmp_spec(&s[j]) is Less,
{
    vstd::std_specs::btree::axiom_increasing_seq_meaning::<K>(s);
}

/// The keys that a sorted set of numbers hands out rise.
pub proof fn lemma_keys_rise(keys: Seq<&i32>)
    requires
        increasing_seq(keys),
    ensures
        rising(keys.unref()),
{
    broadcast use {vstd::laws_cmp::group_laws_cmp, vstd::laws_cmp::lemma_ref_obeys_cmp_spec};

    assert(vstd::laws_cmp::obeys_cmp::<i32>());
    assert(vstd::laws_cmp::obeys_cmp::<&i32>());
    let plain = keys.unref();
    assert forall|i: int, j: int| 0 <= i < j < plain.len() implies plain[i] < plain[j] by {
        lemma_increasing_means_less::<&i32>(keys, i, j);
        assert(plain[i] == *keys[i] && plain[j] == *keys[j]);
    }
}

/// Two rising sequences that hold the same values are the same sequence.
pub proof fn lemma_rising_is_unique(a: Seq<i32>, b: Seq<i32>)
    requires
        rising(a),
        rising(b),
        forall|v: i32| a.contains(v) <==> b.contains(v),
    ensures
        a == b,
    decreases a.len(),
{
    if a.len() == 0 {
        if b.len() > 0 {
            assert(b.contains(b[0]));
        }
        assert(a =~= b);
    } else {
        let x = a.last();
        assert(a.contains(x));
        assert(b.contains(x));
        let y = b.last();
        assert(b.contains(y));
        assert(a.contains(y));
        let k = choose|k: int| 0 <= k < a.len() && a[k] == y;
        let m = choose|m: int| 0 <= m < b.len() && b[m] == x;
        assert(y <= x);
        assert(x <= y);
        let front = a.drop_last();
        let other = b.drop_last();
        assert forall|v: i32| front.contains(v) <==> other.contains(v) by {
            if front.contains(v) {
                let i = choose|i: int| 0 <= i < front.len() && front[i] == v;
                assert(a[i] == v);
                assert(a.contains(v));
                let j = choose|j: int| 0 <= j < b.len() && b[j] == v;
                assert(v < x);
                assert(j < b.len() - 1);
                assert(other[j] == v);
            }
            if other.contains(v) {
                let j = choose|j: int| 0 <= j < other.len() && other[j] == v;
                assert(b[j] == v);
                assert(b.contains(v));
                let i = choose|i: int| 0 <= i < a.len() && a[i] == v;
                assert(v < y);
                assert(i < a.len() - 1);
                assert(front[i] == v);
            }
        }
        lemma_rising_is_unique(front, other);
        assert(a =~= front.push(x));
        assert(b =~= other.push(y));
    }
}

} // verus!
