//! Finding the first record of a sequence that carries a given key.
use vstd::prelude::*;

verus! {

/// `i` is the first position in `s` whose record has key `k`.
pub open spec fn first_with_key<T>(s: Seq<T>, key: spec_fn(T) -> Seq<char>, k: Seq<char>, i: int) -> bool {
    &&& 0 <= i < s.len()
    &&& key(s[i]) == k
    &&& forall|j: int| 0 <= j < i ==> key(#[trigger] s[j]) != k
}

/// Some record of `s` has key `k`.
pub open spec fn has_key<T>(s: Seq<T>, key: spec_fn(T) -> Seq<char>, k: Seq<char>) -> bool {
    exists|i: int| 0 <= i < s.len() && key(#[trigger] s[i]) == k
}

/// The first position of a record with key `k`, where there is one.
pub open spec fn position_of<T>(s: Seq<T>, key: spec_fn(T) -> Seq<char>, k: Seq<char>) -> int {
    choose|i: int| first_with_key(s, key, k, i)
}

/// A first position is the one `position_of` names.
pub proof fn lemma_position_of<T>(s: Seq<T>, key: spec_fn(T) -> Seq<char>, k: Seq<char>, i: int)
    requires
        first_with_key(s, key, k, i),
    ensures
        has_key(s, key, k),
        position_of(s, key, k) == i,
{
    let p = position_of(s, key, k);
    assert(first_with_key(s, key, k, p));
    if p < i {
        assert(key(s[p]) != k);
    } else if i < p {
        assert(key(s[i]) != k);
    }
}

/// Where some record has key `k`, `position_of` is the first of them.
pub proof fn lemma_first_exists<T>(s: Seq<T>, key: spec_fn(T) -> Seq<char>, k: Seq<char>)
    requires
        has_key(s, key, k),
    ensures
        first_with_key(s, key, k, position_of(s, key, k)),
    decreases s.len(),
{
    let w = choose|w: int| 0 <= w < s.len() && key(#[trigger] s[w]) == k;
    let front = s.drop_last();
    assert forall|j: int| 0 <= j < front.len() implies #[trigger] front[j] == s[j] by {}
    if has_key(front, key, k) {
        lemma_first_exists(front, key, k);
        let p = position_of(front, key, k);
        assert forall|j: int| 0 <= j < p implies key(#[trigger] s[j]) != k by {
            assert(front[j] == s[j]);
        }
        lemma_position_of(s, key, k, p);
    } else {
        if w < front.len() {
            assert(front[w] == s[w]);
        }
        assert forall|j: int| 0 <= j < w implies key(#[trigger] s[j]) != k by {
            assert(front[j] == s[j]);
        }
        lemma_position_of(s, key, k, w);
    }
}

/// Replacing the record at the first position of key `k` by one with the
/// same key keeps that position first.
pub proof fn lemma_update_keeps_first<T>(s: Seq<T>, key: spec_fn(T) -> Seq<char>, k: Seq<char>, v: T)
    requires
        has_key(s, key, k),
        key(v) == k,
    ensures
        first_with_key(s, key, k, position_of(s, key, k)),
        has_key(s.update(position_of(s, key, k), v), key, k),
        position_of(s.update(position_of(s, key, k), v), key, k) == position_of(s, key, k),
{
    lemma_first_exists(s, key, k);
    let p = position_of(s, key, k);
    let t = s.update(p, v);
    assert forall|j: int| 0 <= j < p implies key(#[trigger] t[j]) != k by {
        assert(t[j] == s[j]);
    }
    lemma_position_of(t, key, k, p);
}

/// Appending a record of key `k` where none had it makes it the first.
pub proof fn lemma_push_is_first<T>(s: Seq<T>, key: spec_fn(T) -> Seq<char>, k: Seq<char>, v: T)
    requires
        !has_key(s, key, k),
        key(v) == k,
    ensures
        has_key(s.push(v), key, k),
        position_of(s.push(v), key, k) == s.len(),
{
    let t = s.push(v);
    assert forall|j: int| 0 <= j < s.len() implies key(#[trigger] t[j]) != k by {
        assert(t[j] == s[j]);
    }
    lemma_position_of(t, key, k, s.len() as int);
}

} // verus!
