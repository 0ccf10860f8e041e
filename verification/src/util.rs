//! Small helpers shared by the codec and the session layer.
use vstd::prelude::*;

verus! {

/// Byte-wise equality of two slices.
pub fn bytes_eq(a: &[u8], b: &[u8]) -> (r: bool)
    ensures
        r == (a@ == b@),
{
    if a.len() != b.len() {
        proof {
            assert(a@ != b@) by {
                assert(a@.len() != b@.len());
            }
        }
        return false;
    }
    let mut i: usize = 0;
    while i < a.len()
        invariant
            i <= a@.len(),
            a@.len() == b@.len(),
            forall|j: int| 0 <= j < i ==> a@[j] == b@[j],
        decreases a@.len() - i,
    {
        if a[i] != b[i] {
            return false;
        }
        i += 1;
    }
    proof {
        assert(a@ =~= b@);
    }
    true
}

/// The byte sequences of a list of byte vectors.
pub open spec fn keys_view(s: Seq<Vec<u8>>) -> Seq<Seq<u8>> {
    s.map_values(|k: Vec<u8>| k@)
}

/// Whether a list of byte strings holds one equal to `key`.
pub fn contains_bytes(v: &[Vec<u8>], key: &[u8]) -> (r: bool)
    ensures
        r == v@.map_values(|k: Vec<u8>| k@).contains(key@),
{
    let mut i: usize = 0;
    while i < v.len()
        invariant
            i <= v@.len(),
            forall|j: int| 0 <= j < i ==> v@[j]@ != key@,
        decreases v@.len() - i,
    {
        if bytes_eq(v[i].as_slice(), key) {
            proof {
                assert(v@.map_values(|k: Vec<u8>| k@)[i as int] == key@);
            }
            return true;
        }
        i += 1;
    }
    proof {
        let mapped = v@.map_values(|k: Vec<u8>| k@);
        if mapped.contains(key@) {
            let w = choose|w: int| 0 <= w < mapped.len() && mapped[w] == key@;
            assert(v@[w]@ == key@);
        }
    }
    false
}

/// The keys of a keyed list.
pub open spec fn keys_of<T>(s: Seq<(u16, T)>) -> Seq<u16> {
    s.map_values(|e: (u16, T)| e.0)
}

/// No key occurs twice in a keyed list.
pub open spec fn distinct_keys<T>(s: Seq<(u16, T)>) -> bool {
    forall|i: int, j: int| 0 <= i < j < s.len() ==> keys_of(s)[i] != keys_of(s)[j]
}

/// A keyed insertion of a key below a bound keeps every key below
/// the bound.
pub proof fn lemma_insert_keyed_bound<T>(
    pre: Seq<(u16, T)>,
    post: Seq<(u16, T)>,
    key: u16,
    bound: int,
)
    requires
        (key as int) < bound,
        forall|k: int| 0 <= k < pre.len() ==> ((#[trigger] pre[k]).0 as int) < bound,
        keys_of(post) == keys_of(pre) || keys_of(post) == keys_of(pre).push(key),
    ensures
        forall|k: int| 0 <= k < post.len() ==> ((#[trigger] post[k]).0 as int) < bound,
{
    assert(keys_of(post).len() == post.len());
    assert(keys_of(pre).len() == pre.len());
    assert forall|k: int| 0 <= k < post.len() implies ((#[trigger] post[k]).0 as int) < bound by {
        assert(keys_of(post)[k] == post[k].0);
        if keys_of(post) == keys_of(pre) {
            assert(k < pre.len());
            assert(keys_of(pre)[k] == pre[k].0);
            assert((pre[k].0 as int) < bound);
        } else {
            assert(keys_of(post).len() == keys_of(pre).len() + 1);
            if k < pre.len() {
                assert(keys_of(post)[k] == keys_of(pre)[k]);
                assert(keys_of(pre)[k] == pre[k].0);
                assert((pre[k].0 as int) < bound);
            } else {
                assert(keys_of(post)[k] == key);
            }
        }
    }
}

/// Insert a value under a key, replacing the value if the key is
/// already present, as a map insertion would.
pub fn insert_keyed<T>(v: &mut Vec<(u16, T)>, key: u16, value: T)
    requires
        distinct_keys(old(v)@),
    ensures
        distinct_keys(final(v)@),
        keys_of(old(v)@).contains(key) ==> keys_of(final(v)@) == keys_of(old(v)@),
        !keys_of(old(v)@).contains(key) ==> keys_of(final(v)@) == keys_of(old(v)@).push(key),
        keys_of(final(v)@).contains(key),
        forall|k: u16| keys_of(old(v)@).contains(k) ==> keys_of(final(v)@).contains(k),
{
    let ghost pre = v@;
    let mut i: usize = 0;
    while i < v.len()
        invariant
            i <= v@.len(),
            v@ == pre,
            pre == old(v)@,
            distinct_keys(pre),
            forall|j: int| 0 <= j < i ==> keys_of(pre)[j] != key,
        decreases v@.len() - i,
    {
        if v[i].0 == key {
            proof {
                assert(keys_of(pre)[i as int] == key);
            }
            let mut entry = (key, value);
            core::mem::swap(&mut v[i], &mut entry);
            proof {
                assert(keys_of(v@) =~= keys_of(pre));
                assert(keys_of(v@).contains(key)) by {
                    assert(keys_of(v@)[i as int] == key);
                }
                assert forall|k: u16| keys_of(pre).contains(k) implies keys_of(
                    v@,
                ).contains(k) by {}
            }
            return ;
        }
        i += 1;
    }
    proof {
        if keys_of(pre).contains(key) {
            let w = choose|w: int| 0 <= w < keys_of(pre).len() && keys_of(pre)[w] == key;
            assert(keys_of(pre)[w] != key);
        }
    }
    v.push((key, value));
    proof {
        assert(keys_of(v@) =~= keys_of(pre).push(key));
        assert(keys_of(v@).contains(key)) by {
            assert(keys_of(v@)[keys_of(v@).len() - 1] == key);
        }
        assert forall|k: u16| keys_of(pre).contains(k) implies keys_of(v@).contains(k) by {
            let w = choose|w: int| 0 <= w < keys_of(pre).len() && keys_of(pre)[w] == k;
            assert(keys_of(v@)[w] == k);
        }
        assert forall|i2: int, j2: int| 0 <= i2 < j2 < v@.len() implies keys_of(v@)[i2]
            != keys_of(v@)[j2] by {
            if j2 == v@.len() - 1 {
                assert(keys_of(pre)[i2] != key);
            }
        }
    }
}

} // verus!
