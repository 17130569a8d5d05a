use vstd::prelude::*;

verus! {

/// A record found again by a string key, as in a map.
pub trait Keyed {
    /// The record's key.
    spec fn key(&self) -> Seq<char>;

    fn key_ref(&self) -> (k: &String)
        ensures
            k@ == self.key(),
    ;
}

/// No key occurs twice.
pub open spec fn keys_unique<T: Keyed>(s: Seq<T>) -> bool {
    forall|i: int, j: int|
        0 <= i < s.len() && 0 <= j < s.len() && i != j ==> #[trigger] s[i].key() != #[trigger] s[j].key()
}

/// Some record has the key.
pub open spec fn has_key<T: Keyed>(s: Seq<T>, k: Seq<char>) -> bool {
    exists|i: int| 0 <= i < s.len() && #[trigger] s[i].key() == k
}

/// The position of the record with the key, or -1.
pub open spec fn key_index<T: Keyed>(s: Seq<T>, k: Seq<char>) -> int {
    if has_key(s, k) {
        choose|i: int| 0 <= i < s.len() && #[trigger] s[i].key() == k
    } else {
        -1
    }
}

/// The record with the key, if any.
pub open spec fn lookup<T: Keyed>(s: Seq<T>, k: Seq<char>) -> Option<T> {
    if has_key(s, k) {
        Some(s[key_index(s, k)])
    } else {
        None
    }
}

/// The records after inserting `x`, replacing the record with the same key in place.
pub open spec fn upserted<T: Keyed>(s: Seq<T>, x: T) -> Seq<T> {
    if has_key(s, x.key()) {
        s.update(key_index(s, x.key()), x)
    } else {
        s.push(x)
    }
}

/// The chosen position holds the key, and it is the only one that does.
pub proof fn lemma_key_index<T: Keyed>(s: Seq<T>, k: Seq<char>)
    requires
        keys_unique(s),
    ensures
        has_key(s, k) ==> 0 <= key_index(s, k) < s.len() && s[key_index(s, k)].key() == k,
        has_key(s, k) ==> forall|j: int| 0 <= j < s.len() && #[trigger] s[j].key() == k ==> j == key_index(s, k),
        !has_key(s, k) ==> key_index(s, k) == -1,
{
}

/// Looking a key up after an upsert finds the new record; other keys are untouched.
pub proof fn lemma_upserted<T: Keyed>(s: Seq<T>, x: T)
    requires
        keys_unique(s),
    ensures
        keys_unique(upserted(s, x)),
        lookup(upserted(s, x), x.key()) == Some(x),
        forall|k: Seq<char>| k != x.key() ==> #[trigger] lookup(upserted(s, x), k) == lookup(s, k),
        has_key(s, x.key()) ==> upserted(s, x).len() == s.len(),
        !has_key(s, x.key()) ==> upserted(s, x).len() == s.len() + 1,
{
    let t = upserted(s, x);
    lemma_key_index(s, x.key());
    assert(keys_unique(t));
    let p = if has_key(s, x.key()) { key_index(s, x.key()) } else { s.len() as int };
    assert(t[p] == x);
    assert(t[p].key() == x.key());
    lemma_key_index(t, x.key());
    assert(key_index(t, x.key()) == p);
    assert forall|k: Seq<char>| k != x.key() implies #[trigger] lookup(t, k) == lookup(s, k) by {
        lemma_key_index(s, k);
        if has_key(s, k) {
            let i = key_index(s, k);
            assert(t[i].key() == k);
            lemma_key_index(t, k);
        } else {
            if has_key(t, k) {
                let j = choose|j: int| 0 <= j < t.len() && #[trigger] t[j].key() == k;
                assert(s[j].key() == k);
            }
        }
    }
}

/// Replacing a record by one with the same key keeps every lookup but that key's,
/// which now finds the new record.
pub proof fn lemma_update_keyed<T: Keyed>(s: Seq<T>, i: int, x: T)
    requires
        keys_unique(s),
        0 <= i < s.len(),
        x.key() == s[i].key(),
    ensures
        keys_unique(s.update(i, x)),
        key_index(s.update(i, x), x.key()) == i,
        lookup(s.update(i, x), x.key()) == Some(x),
        forall|k: Seq<char>| #![trigger lookup(s.update(i, x), k)] k != x.key() ==> lookup(s.update(i, x), k) == lookup(s, k),
        forall|k: Seq<char>| #![trigger has_key(s.update(i, x), k)] has_key(s.update(i, x), k) == has_key(s, k),
{
    let t = s.update(i, x);
    assert(keys_unique(t)) by {
        assert forall|a: int, b: int| 0 <= a < t.len() && 0 <= b < t.len() && a != b implies #[trigger] t[a].key()
            != #[trigger] t[b].key() by {
            assert(s[a].key() != s[b].key());
        }
    }
    assert(t[i].key() == x.key());
    lemma_key_index(t, x.key());
    assert forall|k: Seq<char>| #![trigger lookup(s.update(i, x), k)] k != x.key() implies lookup(
        s.update(i, x),
        k,
    ) == lookup(s, k) by {
        lemma_key_index(s, k);
        lemma_key_index(t, k);
        if has_key(s, k) {
            let j = key_index(s, k);
            assert(t[j].key() == k);
        }
        if has_key(t, k) {
            let j = key_index(t, k);
            assert(s[j].key() == k);
        }
    }
    assert forall|k: Seq<char>| #![trigger has_key(s.update(i, x), k)] has_key(s.update(i, x), k) == has_key(s, k) by {
        if has_key(s, k) {
            let j = choose|j: int| 0 <= j < s.len() && #[trigger] s[j].key() == k;
            assert(t[j].key() == k);
        }
        if has_key(t, k) {
            let j = choose|j: int| 0 <= j < t.len() && #[trigger] t[j].key() == k;
            assert(s[j].key() == k);
        }
    }
}

/// The position of the record with the key.
pub fn find_key<T: Keyed>(v: &Vec<T>, k: &String) -> (r: Option<usize>)
    requires
        keys_unique(v@),
    ensures
        match r {
            Some(i) => i < v.len() && i == key_index(v@, k@),
            None => !has_key(v@, k@),
        },
{
    let mut i: usize = 0;
    while i < v.len()
        invariant
            i <= v.len(),
            keys_unique(v@),
            forall|j: int| 0 <= j < i ==> #[trigger] v@[j].key() != k@,
        decreases v.len() - i,
    {
        if v[i].key_ref().eq(k) {
            proof {
                lemma_key_index(v@, k@);
            }
            return Some(i);
        }
        i = i + 1;
    }
    None
}

/// Inserts `x`, replacing the record with the same key in place.
pub fn upsert<T: Keyed>(v: &mut Vec<T>, x: T)
    requires
        keys_unique(old(v)@),
    ensures
        final(v)@ == upserted(old(v)@, x),
        keys_unique(final(v)@),
{
    proof {
        lemma_upserted(old(v)@, x);
    }
    match find_key(v, x.key_ref()) {
        Some(i) => {
            v.set(i, x);
        },
        None => {
            v.push(x);
        },
    }
}

} // verus!
