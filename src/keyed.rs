use vstd::prelude::*;

verus! {

/// Whether some entry of `s` has key `k` under `key`.
pub open spec fn has_key<A, K>(s: Seq<A>, key: spec_fn(A) -> K, k: K) -> bool {
    exists|i: int| 0 <= i < s.len() && key(#[trigger] s[i]) == k
}

/// The entry of `s` with key `k` (meaningful where `has_key`).
pub open spec fn entry_of<A, K>(s: Seq<A>, key: spec_fn(A) -> K, k: K) -> A {
    s[choose|i: int| 0 <= i < s.len() && key(#[trigger] s[i]) == k]
}

/// No two entries of `s` share a key.
pub open spec fn keys_unique<A, K>(s: Seq<A>, key: spec_fn(A) -> K) -> bool {
    forall|i: int, j: int| 0 <= i < s.len() && 0 <= j < s.len() && i != j ==> key(#[trigger] s[i]) != key(#[trigger] s[j])
}

/// In a sequence with unique keys, an entry is the entry of its key.
pub proof fn lemma_entry_at<A, K>(s: Seq<A>, key: spec_fn(A) -> K, i: int)
    requires
        keys_unique(s, key),
        0 <= i < s.len(),
    ensures
        has_key(s, key, key(s[i])),
        entry_of(s, key, key(s[i])) == s[i],
{
    let k = key(s[i]);
    assert(has_key(s, key, k));
    let j = choose|j: int| 0 <= j < s.len() && key(#[trigger] s[j]) == k;
    assert(j == i);
}

/// Appending an entry with a new key adds that key and keeps the others.
pub proof fn lemma_push<A, K>(s: Seq<A>, key: spec_fn(A) -> K, x: A)
    requires
        keys_unique(s, key),
        !has_key(s, key, key(x)),
    ensures
        keys_unique(s.push(x), key),
        forall|k: K| #[trigger] has_key(s.push(x), key, k) == (has_key(s, key, k) || k == key(x)),
        forall|k: K| has_key(s, key, k) ==> #[trigger] entry_of(s.push(x), key, k) == entry_of(s, key, k),
        entry_of(s.push(x), key, key(x)) == x,
{
    let t = s.push(x);
    assert forall|i: int, j: int| 0 <= i < t.len() && 0 <= j < t.len() && i != j
        implies key(#[trigger] t[i]) != key(#[trigger] t[j]) by {
        if i == s.len() {
            assert(s[j] == t[j]);
        } else if j == s.len() {
            assert(s[i] == t[i]);
        } else {
            assert(s[i] == t[i] && s[j] == t[j]);
        }
    }
    assert forall|k: K| #[trigger] has_key(t, key, k) == (has_key(s, key, k) || k == key(x)) by {
        if has_key(s, key, k) {
            let i = choose|i: int| 0 <= i < s.len() && key(#[trigger] s[i]) == k;
            assert(t[i] == s[i]);
        }
        if k == key(x) {
            assert(t[s.len() as int] == x);
        }
        if has_key(t, key, k) && k != key(x) {
            let i = choose|i: int| 0 <= i < t.len() && key(#[trigger] t[i]) == k;
            assert(s[i] == t[i]);
        }
    }
    assert forall|k: K| has_key(s, key, k) implies #[trigger] entry_of(t, key, k) == entry_of(s, key, k) by {
        let i = choose|i: int| 0 <= i < s.len() && key(#[trigger] s[i]) == k;
        lemma_entry_at(s, key, i);
        assert(t[i] == s[i]);
        lemma_entry_at(t, key, i);
    }
    lemma_entry_at(t, key, s.len() as int);
}

/// Removing an entry drops its key and keeps the others.
pub proof fn lemma_remove<A, K>(s: Seq<A>, key: spec_fn(A) -> K, i: int)
    requires
        keys_unique(s, key),
        0 <= i < s.len(),
    ensures
        keys_unique(s.remove(i), key),
        !has_key(s.remove(i), key, key(s[i])),
        forall|k: K| k != key(s[i]) ==> #[trigger] has_key(s.remove(i), key, k) == has_key(s, key, k),
        forall|k: K| k != key(s[i]) && has_key(s, key, k)
            ==> #[trigger] entry_of(s.remove(i), key, k) == entry_of(s, key, k),
{
    let t = s.remove(i);
    assert forall|a: int, b: int| 0 <= a < t.len() && 0 <= b < t.len() && a != b
        implies key(#[trigger] t[a]) != key(#[trigger] t[b]) by {
        let a2 = if a < i { a } else { a + 1 };
        let b2 = if b < i { b } else { b + 1 };
        assert(t[a] == s[a2] && t[b] == s[b2]);
    }
    if has_key(t, key, key(s[i])) {
        let a = choose|a: int| 0 <= a < t.len() && key(#[trigger] t[a]) == key(s[i]);
        let a2 = if a < i { a } else { a + 1 };
        assert(t[a] == s[a2]);
    }
    assert forall|k: K| k != key(s[i]) implies #[trigger] has_key(t, key, k) == has_key(s, key, k) by {
        if has_key(s, key, k) {
            let a = choose|a: int| 0 <= a < s.len() && key(#[trigger] s[a]) == k;
            let a2 = if a < i { a } else { a - 1 };
            assert(t[a2] == s[a]);
        }
        if has_key(t, key, k) {
            let a = choose|a: int| 0 <= a < t.len() && key(#[trigger] t[a]) == k;
            let a2 = if a < i { a } else { a + 1 };
            assert(t[a] == s[a2]);
        }
    }
    assert forall|k: K| k != key(s[i]) && has_key(s, key, k) implies #[trigger] entry_of(t, key, k) == entry_of(s, key, k) by {
        let a = choose|a: int| 0 <= a < s.len() && key(#[trigger] s[a]) == k;
        let a2 = if a < i { a } else { a - 1 };
        assert(t[a2] == s[a]);
        lemma_entry_at(s, key, a);
        lemma_entry_at(t, key, a2);
    }
}

/// Replacing an entry by one with the same key keeps every key, and the
/// entries of the other keys.
pub proof fn lemma_update<A, K>(s: Seq<A>, key: spec_fn(A) -> K, i: int, x: A)
    requires
        keys_unique(s, key),
        0 <= i < s.len(),
        key(x) == key(s[i]),
    ensures
        keys_unique(s.update(i, x), key),
        forall|k: K| #[trigger] has_key(s.update(i, x), key, k) == has_key(s, key, k),
        forall|k: K| k != key(x) && has_key(s, key, k)
            ==> #[trigger] entry_of(s.update(i, x), key, k) == entry_of(s, key, k),
        entry_of(s.update(i, x), key, key(x)) == x,
{
    let t = s.update(i, x);
    assert forall|a: int, b: int| 0 <= a < t.len() && 0 <= b < t.len() && a != b
        implies key(#[trigger] t[a]) != key(#[trigger] t[b]) by {
        assert(key(t[a]) == key(s[a]) && key(t[b]) == key(s[b]));
    }
    assert forall|k: K| #[trigger] has_key(t, key, k) == has_key(s, key, k) by {
        if has_key(s, key, k) {
            let a = choose|a: int| 0 <= a < s.len() && key(#[trigger] s[a]) == k;
            assert(key(t[a]) == k);
        }
        if has_key(t, key, k) {
            let a = choose|a: int| 0 <= a < t.len() && key(#[trigger] t[a]) == k;
            assert(key(s[a]) == k);
        }
    }
    assert forall|k: K| k != key(x) && has_key(s, key, k) implies #[trigger] entry_of(t, key, k) == entry_of(s, key, k) by {
        let a = choose|a: int| 0 <= a < s.len() && key(#[trigger] s[a]) == k;
        assert(a != i);
        assert(t[a] == s[a]);
        lemma_entry_at(s, key, a);
        lemma_entry_at(t, key, a);
    }
    lemma_entry_at(t, key, i);
}

} // verus!
