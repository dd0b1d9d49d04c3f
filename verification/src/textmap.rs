use vstd::prelude::*;
use vstd::string::*;

verus! {

/// The first `n` characters of `a` and `b` agree.
pub open spec fn prefix_agrees(a: Seq<char>, b: Seq<char>, n: int) -> bool {
    forall|j: int| 0 <= j < n ==> a[j] == b[j]
}

/// `a` sorts before `b`, and the first difference is at index `i`
/// (either `a` ends there or its character there is smaller).
pub open spec fn text_lt_at(a: Seq<char>, b: Seq<char>, i: int) -> bool {
    &&& 0 <= i <= a.len()
    &&& i <= b.len()
    &&& prefix_agrees(a, b, i)
    &&& ((i == a.len() && i < b.len()) || (i < a.len() && i < b.len() && (a[i] as int) < (
    b[i] as int)))
}

/// Lexicographic order on character sequences, comparing code points.
pub open spec fn text_lt(a: Seq<char>, b: Seq<char>) -> bool {
    exists|i: int| #[trigger] text_lt_at(a, b, i)
}

pub proof fn lemma_text_lt_irreflexive(a: Seq<char>)
    ensures
        !text_lt(a, a),
{
}

pub proof fn lemma_text_lt_asymmetric(a: Seq<char>, b: Seq<char>)
    ensures
        text_lt(a, b) ==> !text_lt(b, a),
{
    if text_lt(a, b) && text_lt(b, a) {
        let i = choose|i: int| #[trigger] text_lt_at(a, b, i);
        let j = choose|j: int| #[trigger] text_lt_at(b, a, j);
        if i < j {
            assert(b[i] == a[i]);
        } else if j < i {
            assert(a[j] == b[j]);
        }
    }
}

pub proof fn lemma_text_lt_transitive(a: Seq<char>, b: Seq<char>, c: Seq<char>)
    ensures
        text_lt(a, b) && text_lt(b, c) ==> text_lt(a, c),
{
    if text_lt(a, b) && text_lt(b, c) {
        let i = choose|i: int| #[trigger] text_lt_at(a, b, i);
        let j = choose|j: int| #[trigger] text_lt_at(b, c, j);
        if i < j {
            assert(b[i] == c[i]);
            assert(text_lt_at(a, c, i));
        } else if j < i {
            assert(a[j] == b[j]);
            assert(text_lt_at(a, c, j));
        } else {
            assert(text_lt_at(a, c, i));
        }
    }
}

/// Three-way comparison of two texts: negative, zero or positive as `a` sorts
/// before, equal to or after `b`.
pub fn compare_text(a: &str, b: &str) -> (r: i8)
    ensures
        -1 <= r <= 1,
        (r == 0) == (a@ == b@),
        r < 0 ==> text_lt(a@, b@),
        r > 0 ==> text_lt(b@, a@),
{
    let la = a.unicode_len();
    let lb = b.unicode_len();
    let mut i: usize = 0;
    while i < la && i < lb
        invariant
            la == a@.len(),
            lb == b@.len(),
            i <= la,
            i <= lb,
            prefix_agrees(a@, b@, i as int),
        decreases la - i,
    {
        let ca = a.get_char(i);
        let cb = b.get_char(i);
        let na = ca as u32;
        let nb = cb as u32;
        if na < nb {
            assert(text_lt_at(a@, b@, i as int));
            return -1;
        }
        if nb < na {
            assert(text_lt_at(b@, a@, i as int));
            return 1;
        }
        assert(ca == cb);
        i += 1;
    }
    if la < lb {
        assert(text_lt_at(a@, b@, i as int));
        -1
    } else if lb < la {
        assert(text_lt_at(b@, a@, i as int));
        1
    } else {
        assert(a@ =~= b@);
        0
    }
}

/// Character-wise equality of two texts.
pub fn text_eq(a: &str, b: &str) -> (r: bool)
    ensures
        r == (a@ == b@),
{
    compare_text(a, b) == 0
}

/// A map from texts to values, kept as a vector of entries sorted by key,
/// so that walking the entries visits the keys in increasing order.
#[derive(Debug, Clone, PartialEq, Eq, Default)]
pub struct TextMap<T> {
    pub entries: Vec<(String, T)>,
}

impl<T> TextMap<T> {
    pub open spec fn key_at(self, i: int) -> Seq<char> {
        self.entries@[i].0@
    }

    /// The keys in the order of the entries.
    pub open spec fn keys(self) -> Seq<Seq<char>> {
        Seq::new(self.entries@.len(), |i: int| self.entries@[i].0@)
    }

    /// Keys strictly increase along the entries (so no key occurs twice).
    pub open spec fn wf(self) -> bool {
        forall|i: int, j: int|
            0 <= i < j < self.entries@.len() ==> #[trigger] text_lt(
                self.key_at(i),
                self.key_at(j),
            )
    }

    pub open spec fn has(self, k: Seq<char>) -> bool {
        exists|i: int| 0 <= i < self.entries@.len() && #[trigger] self.key_at(i) == k
    }

    pub open spec fn index_of(self, k: Seq<char>) -> int {
        choose|i: int| 0 <= i < self.entries@.len() && #[trigger] self.key_at(i) == k
    }

    pub open spec fn value_of(self, k: Seq<char>) -> T {
        self.entries@[self.index_of(k)].1
    }

    /// The map that the entries stand for.
    pub open spec fn to_map(self) -> Map<Seq<char>, T> {
        Map::new(|k: Seq<char>| self.has(k), |k: Seq<char>| self.value_of(k))
    }

    /// In a well-formed map, the entry holding a key is the only one.
    pub proof fn lemma_index_of(self, i: int)
        requires
            self.wf(),
            0 <= i < self.entries@.len(),
        ensures
            self.has(self.key_at(i)),
            self.index_of(self.key_at(i)) == i,
            self.to_map().contains_key(self.key_at(i)),
            self.to_map()[self.key_at(i)] == self.entries@[i].1,
    {
        let k = self.key_at(i);
        assert(self.has(k));
        let j = self.index_of(k);
        if j < i {
            assert(text_lt(self.key_at(j), self.key_at(i)));
            lemma_text_lt_irreflexive(k);
        } else if i < j {
            assert(text_lt(self.key_at(i), self.key_at(j)));
            lemma_text_lt_irreflexive(k);
        }
    }

    /// Whether the keys strictly increase along the entries.
    pub fn is_ordered(&self) -> (r: bool)
        ensures
            r == self.wf(),
    {
        let n = self.entries.len();
        if n == 0 {
            return true;
        }
        let mut k: usize = 1;
        while k < n
            invariant
                n == self.entries@.len(),
                1 <= k <= n,
                forall|i: int, j: int| 0 <= i < j < k ==> #[trigger] text_lt(self.key_at(i), self.key_at(j)),
            decreases n - k,
        {
            let c = compare_text(self.entries[k - 1].0.as_str(), self.entries[k].0.as_str());
            if c >= 0 {
                proof {
                    if c == 0 {
                        lemma_text_lt_irreflexive(self.key_at(k - 1));
                    } else {
                        lemma_text_lt_asymmetric(self.key_at(k as int), self.key_at(k - 1));
                    }
                    assert(!text_lt(self.key_at(k - 1), self.key_at(k as int)));
                }
                return false;
            }
            proof {
                assert forall|i: int, j: int| 0 <= i < j < k + 1 implies #[trigger] text_lt(self.key_at(i), self.key_at(j)) by {
                    if j == k && i < k - 1 {
                        assert(text_lt(self.key_at(i), self.key_at(k - 1)));
                        lemma_text_lt_transitive(self.key_at(i), self.key_at(k - 1), self.key_at(k as int));
                    }
                }
            }
            k += 1;
        }
        true
    }

    pub fn new() -> (r: Self)
        ensures
            r.wf(),
            r.entries@.len() == 0,
            r.to_map() == Map::<Seq<char>, T>::empty(),
    {
        let r = TextMap { entries: Vec::new() };
        assert(r.to_map() =~= Map::<Seq<char>, T>::empty());
        r
    }

    pub fn len(&self) -> (r: usize)
        ensures
            r == self.entries@.len(),
    {
        self.entries.len()
    }

    /// Where `key` is, or where it would be inserted to keep the keys sorted.
    pub fn position(&self, key: &str) -> (r: Result<usize, usize>)
        requires
            self.wf(),
        ensures
            match r {
                Ok(p) => p < self.entries@.len() && self.key_at(p as int) == key@ && self.has(
                    key@,
                ) && self.index_of(key@) == p,
                Err(p) => {
                    &&& p <= self.entries@.len()
                    &&& !self.has(key@)
                    &&& forall|i: int| 0 <= i < p ==> text_lt(#[trigger] self.key_at(i), key@)
                    &&& forall|i: int|
                        p <= i < self.entries@.len() ==> text_lt(key@, #[trigger] self.key_at(i))
                },
            },
    {
        let n = self.entries.len();
        let mut p: usize = 0;
        while p < n
            invariant
                self.wf(),
                n == self.entries@.len(),
                p <= n,
                forall|i: int| 0 <= i < p ==> text_lt(#[trigger] self.key_at(i), key@),
            decreases n - p,
        {
            let c = compare_text(self.entries[p].0.as_str(), key);
            if c == 0 {
                proof {
                    self.lemma_index_of(p as int);
                }
                return Ok(p);
            }
            if c > 0 {
                assert forall|i: int| p <= i < self.entries@.len() implies text_lt(
                    key@,
                    #[trigger] self.key_at(i),
                ) by {
                    if i > p {
                        assert(text_lt(self.key_at(p as int), self.key_at(i)));
                        lemma_text_lt_transitive(key@, self.key_at(p as int), self.key_at(i));
                    }
                }
                assert(!self.has(key@)) by {
                    if self.has(key@) {
                        let w = choose|w: int|
                            0 <= w < self.entries@.len() && #[trigger] self.key_at(w) == key@;
                        if w < p {
                            assert(text_lt(self.key_at(w), key@));
                        } else {
                            assert(text_lt(key@, self.key_at(w)));
                        }
                        lemma_text_lt_irreflexive(key@);
                    }
                }
                return Err(p);
            }
            p += 1;
        }
        assert(!self.has(key@)) by {
            if self.has(key@) {
                let w = choose|w: int|
                    0 <= w < self.entries@.len() && #[trigger] self.key_at(w) == key@;
                assert(text_lt(self.key_at(w), key@));
                lemma_text_lt_irreflexive(key@);
            }
        }
        Err(n)
    }

    pub fn get(&self, key: &str) -> (r: Option<&T>)
        requires
            self.wf(),
        ensures
            r is Some <==> self.to_map().contains_key(key@),
            r matches Some(v) ==> *v == self.to_map()[key@],
    {
        match self.position(key) {
            Ok(p) => Some(&self.entries[p].1),
            Err(_) => None,
        }
    }

    pub fn contains_key(&self, key: &str) -> (r: bool)
        requires
            self.wf(),
        ensures
            r == self.to_map().contains_key(key@),
    {
        match self.position(key) {
            Ok(_) => true,
            Err(_) => false,
        }
    }

    /// Sets the value of `key`, adding the key if it is new.
    pub fn insert(&mut self, key: String, value: T)
        requires
            old(self).wf(),
        ensures
            final(self).wf(),
            final(self).to_map() == old(self).to_map().insert(key@, value),
            old(self).has(key@) ==> final(self).entries@ == old(self).entries@.update(
                old(self).index_of(key@),
                (key, value),
            ),
            !old(self).has(key@) ==> exists|p: int|
                0 <= p <= old(self).entries@.len() && final(self).entries@ == #[trigger] old(
                    self,
                ).entries@.insert(p, (key, value)),
    {
        let ghost old_map = self.to_map();
        let ghost old_self = *self;
        match self.position(key.as_str()) {
            Ok(p) => {
                self.entries.set(p, (key, value));
                assert forall|i: int, j: int|
                    0 <= i < j < self.entries@.len() implies #[trigger] text_lt(
                    self.key_at(i),
                    self.key_at(j),
                ) by {
                    assert(self.key_at(i) == old_self.key_at(i));
                    assert(self.key_at(j) == old_self.key_at(j));
                    assert(text_lt(old_self.key_at(i), old_self.key_at(j)));
                }
                assert forall|k: Seq<char>| #![auto]
                    self.has(k) == old_self.has(k) by {
                    if old_self.has(k) {
                        let w = choose|w: int|
                            0 <= w < old_self.entries@.len() && #[trigger] old_self.key_at(w)
                                == k;
                        assert(self.key_at(w) == k);
                    }
                    if self.has(k) {
                        let w = choose|w: int|
                            0 <= w < self.entries@.len() && #[trigger] self.key_at(w) == k;
                        assert(old_self.key_at(w) == k);
                    }
                }
                assert(self.to_map() =~= old_map.insert(key@, value)) by {
                    assert forall|k: Seq<char>| #[trigger]
                        self.to_map().contains_key(k) implies self.to_map()[k] == old_map.insert(
                        key@,
                        value,
                    )[k] by {
                        let w = choose|w: int|
                            0 <= w < self.entries@.len() && #[trigger] self.key_at(w) == k;
                        self.lemma_index_of(w);
                        old_self.lemma_index_of(w);
                    }
                }
            },
            Err(p) => {
                let ghost kk = key@;
                let ghost entry = (key, value);
                self.entries.insert(p, (key, value));
                assert(self.entries@ == old_self.entries@.insert(p as int, entry));
                assert forall|i: int| 0 <= i < p implies #[trigger] self.key_at(i)
                    == old_self.key_at(i) by {}
                assert forall|i: int| p < i < self.entries@.len() implies #[trigger] self.key_at(
                    i,
                ) == old_self.key_at(i - 1) by {}
                assert(self.key_at(p as int) == kk);
                assert forall|i: int, j: int|
                    0 <= i < j < self.entries@.len() implies #[trigger] text_lt(
                    self.key_at(i),
                    self.key_at(j),
                ) by {
                    if j < p {
                        assert(text_lt(old_self.key_at(i), old_self.key_at(j)));
                    } else if j == p {
                        assert(text_lt(old_self.key_at(i), kk));
                    } else if i < p {
                        assert(text_lt(old_self.key_at(i), kk));
                        assert(text_lt(kk, old_self.key_at(j - 1)));
                        lemma_text_lt_transitive(old_self.key_at(i), kk, old_self.key_at(j - 1));
                    } else if i == p {
                        assert(text_lt(kk, old_self.key_at(j - 1)));
                    } else {
                        assert(text_lt(old_self.key_at(i - 1), old_self.key_at(j - 1)));
                    }
                }
                assert forall|k: Seq<char>| #![auto]
                    self.has(k) == (old_self.has(k) || k == kk) by {
                    if old_self.has(k) {
                        let w = choose|w: int|
                            0 <= w < old_self.entries@.len() && #[trigger] old_self.key_at(w)
                                == k;
                        if w < p {
                            assert(self.key_at(w) == k);
                        } else {
                            assert(self.key_at(w + 1) == k);
                        }
                    }
                    if k == kk {
                        assert(self.key_at(p as int) == k);
                    }
                    if self.has(k) {
                        let w = choose|w: int|
                            0 <= w < self.entries@.len() && #[trigger] self.key_at(w) == k;
                        if w < p {
                            assert(old_self.key_at(w) == k);
                        } else if w > p {
                            assert(old_self.key_at(w - 1) == k);
                        }
                    }
                }
                assert(self.to_map() =~= old_map.insert(kk, value)) by {
                    assert forall|k: Seq<char>| #[trigger]
                        self.to_map().contains_key(k) implies self.to_map()[k] == old_map.insert(
                        kk,
                        value,
                    )[k] by {
                        let w = choose|w: int|
                            0 <= w < self.entries@.len() && #[trigger] self.key_at(w) == k;
                        self.lemma_index_of(w);
                        if w < p {
                            old_self.lemma_index_of(w);
                        } else if w > p {
                            old_self.lemma_index_of(w - 1);
                        }
                    }
                }
            },
        }
    }

    /// Removes `key`, handing back its value if it was present.
    pub fn remove(&mut self, key: &str) -> (r: Option<T>)
        requires
            old(self).wf(),
        ensures
            final(self).wf(),
            final(self).to_map() == old(self).to_map().remove(key@),
            r is Some <==> old(self).to_map().contains_key(key@),
            r matches Some(v) ==> v == old(self).to_map()[key@],
            old(self).has(key@) ==> final(self).entries@ == old(self).entries@.remove(
                old(self).index_of(key@),
            ),
            !old(self).has(key@) ==> final(self).entries@ == old(self).entries@,
    {
        let ghost old_map = self.to_map();
        let ghost old_self = *self;
        match self.position(key) {
            Ok(p) => {
                let (_, v) = self.entries.remove(p);
                assert forall|i: int| 0 <= i < p implies #[trigger] self.key_at(i)
                    == old_self.key_at(i) by {}
                assert forall|i: int| p <= i < self.entries@.len() implies #[trigger] self.key_at(
                    i,
                ) == old_self.key_at(i + 1) by {}
                assert forall|i: int, j: int|
                    0 <= i < j < self.entries@.len() implies #[trigger] text_lt(
                    self.key_at(i),
                    self.key_at(j),
                ) by {
                    if j < p {
                        assert(text_lt(old_self.key_at(i), old_self.key_at(j)));
                    } else if i < p {
                        assert(text_lt(old_self.key_at(i), old_self.key_at(j + 1)));
                    } else {
                        assert(text_lt(old_self.key_at(i + 1), old_self.key_at(j + 1)));
                    }
                }
                proof {
                    old_self.lemma_index_of(p as int);
                }
                assert forall|k: Seq<char>| #![auto]
                    self.has(k) == (old_self.has(k) && k != key@) by {
                    if old_self.has(k) && k != key@ {
                        let w = choose|w: int|
                            0 <= w < old_self.entries@.len() && #[trigger] old_self.key_at(w)
                                == k;
                        if w < p {
                            assert(self.key_at(w) == k);
                        } else {
                            assert(w != p);
                            assert(self.key_at(w - 1) == k);
                        }
                    }
                    if self.has(k) {
                        let w = choose|w: int|
                            0 <= w < self.entries@.len() && #[trigger] self.key_at(w) == k;
                        if w < p {
                            assert(old_self.key_at(w) == k);
                            old_self.lemma_index_of(w);
                        } else {
                            assert(old_self.key_at(w + 1) == k);
                            old_self.lemma_index_of(w + 1);
                        }
                    }
                }
                assert(self.to_map() =~= old_map.remove(key@)) by {
                    assert forall|k: Seq<char>| #[trigger]
                        self.to_map().contains_key(k) implies self.to_map()[k] == old_map.remove(
                        key@,
                    )[k] by {
                        let w = choose|w: int|
                            0 <= w < self.entries@.len() && #[trigger] self.key_at(w) == k;
                        self.lemma_index_of(w);
                        if w < p {
                            old_self.lemma_index_of(w);
                        } else {
                            old_self.lemma_index_of(w + 1);
                        }
                    }
                }
                Some(v)
            },
            Err(_) => {
                assert(self.to_map() =~= old_map.remove(key@));
                None
            },
        }
    }
}

} // verus!
