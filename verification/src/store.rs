//! An in-memory store of short-code / long-URL mappings.
//!
//! The store models the single relational table of the service:
//! `short_code` is a primary key and `long_url` is unique. Both invariants
//! are stated in [`store_inv`] and preserved by every operation.

use vstd::prelude::*;

verus! {

/// One persisted mapping from a short code to the long URL it stands for.
pub struct UrlMapping {
    pub short_code: String,
    pub long_url: String,
}

/// Error returned by [`UrlStore::insert`] when either key is already taken.
#[derive(Debug, PartialEq, Eq, Structural)]
pub enum StoreError {
    DuplicateKey,
}

/// The mathematical model of a store: the `(short_code, long_url)` pairs in
/// insertion order.
pub type StoreModel = Seq<(Seq<char>, Seq<char>)>;

/// Whether model `m` holds a mapping whose short code is `c`.
pub open spec fn has_code(m: StoreModel, c: Seq<char>) -> bool {
    exists|i: int| 0 <= i < m.len() && (#[trigger] m[i]).0 == c
}

/// Whether model `m` holds a mapping whose long URL is `u`.
pub open spec fn has_url(m: StoreModel, u: Seq<char>) -> bool {
    exists|i: int| 0 <= i < m.len() && (#[trigger] m[i]).1 == u
}

/// Whether model `m` holds the mapping `(c, u)`.
pub open spec fn has_pair(m: StoreModel, c: Seq<char>, u: Seq<char>) -> bool {
    exists|i: int| 0 <= i < m.len() && #[trigger] m[i] == (c, u)
}

/// The store's invariant: short codes are pairwise distinct (primary key)
/// and long URLs are pairwise distinct (unique column).
pub open spec fn store_inv(m: StoreModel) -> bool {
    forall|i: int, j: int|
        0 <= i < j < m.len() ==> (#[trigger] m[i]).0 != (#[trigger] m[j]).0 && m[i].1 != m[j].1
}

/// Inserting a pair whose code and URL are both fresh keeps the store
/// invariant.
pub proof fn lemma_insert_preserves_inv(m: StoreModel, c: Seq<char>, u: Seq<char>)
    requires
        store_inv(m),
        !has_code(m, c),
        !has_url(m, u),
    ensures
        store_inv(m.push((c, u))),
{
    let m2 = m.push((c, u));
    assert forall|i: int, j: int| 0 <= i < j < m2.len() implies (#[trigger] m2[i]).0 != (
    #[trigger] m2[j]).0 && m2[i].1 != m2[j].1 by {
        if j < m.len() {
            assert(m2[i] == m[i] && m2[j] == m[j]);
        } else {
            assert(m2[j] == (c, u));
            assert(m2[i] == m[i]);
            assert(m[i].0 != c && m[i].1 != u);
        }
    }
}

/// The in-memory store: a vector of mappings, well-formed when [`store_inv`]
/// holds of its model.
pub struct UrlStore {
    mappings: Vec<UrlMapping>,
}

impl View for UrlStore {
    type V = StoreModel;

    closed spec fn view(&self) -> StoreModel {
        Seq::new(
            self.mappings@.len(),
            |i: int| (self.mappings@[i].short_code@, self.mappings@[i].long_url@),
        )
    }
}

impl UrlStore {
    /// Well-formedness: the uniqueness invariants of the backing table.
    pub open spec fn wf(&self) -> bool {
        store_inv(self@)
    }

    /// Creates an empty store.
    pub fn new() -> (r: UrlStore)
        ensures
            r.wf(),
            r@ == Seq::<(Seq<char>, Seq<char>)>::empty(),
    {
        let r = UrlStore { mappings: Vec::new() };
        proof {
            assert(r@ =~= Seq::<(Seq<char>, Seq<char>)>::empty());
        }
        r
    }

    /// Number of mappings held.
    pub fn len(&self) -> (n: usize)
        ensures
            n == self@.len(),
    {
        self.mappings.len()
    }

    /// Looks a long URL up and returns its short code, if one was issued.
    pub fn find_by_long_url(&self, long_url: &String) -> (r: Option<String>)
        ensures
            match r {
                Some(code) => has_pair(self@, code@, long_url@),
                None => !has_url(self@, long_url@),
            },
            has_url(self@, long_url@) ==> r is Some,
    {
        let n = self.mappings.len();
        let mut k: usize = 0;
        while k < n
            invariant
                n == self@.len(),
                k <= n,
                forall|i: int| 0 <= i < k ==> (#[trigger] self@[i]).1 != long_url@,
            decreases n - k,
        {
            if self.mappings[k].long_url == *long_url {
                let code = self.mappings[k].short_code.clone();
                proof {
                    assert(self@[k as int] == (code@, long_url@));
                }
                return Some(code);
            }
            k = k + 1;
        }
        None
    }

    /// Looks a short code up and returns the long URL it stands for, if any.
    pub fn find_by_short_code(&self, short_code: &String) -> (r: Option<String>)
        ensures
            match r {
                Some(url) => has_pair(self@, short_code@, url@),
                None => !has_code(self@, short_code@),
            },
            has_code(self@, short_code@) ==> r is Some,
    {
        let n = self.mappings.len();
        let mut k: usize = 0;
        while k < n
            invariant
                n == self@.len(),
                k <= n,
                forall|i: int| 0 <= i < k ==> (#[trigger] self@[i]).0 != short_code@,
            decreases n - k,
        {
            if self.mappings[k].short_code == *short_code {
                let url = self.mappings[k].long_url.clone();
                proof {
                    assert(self@[k as int] == (short_code@, url@));
                }
                return Some(url);
            }
            k = k + 1;
        }
        None
    }

    /// Whether a short code is already taken.
    pub fn contains_code(&self, short_code: &String) -> (r: bool)
        ensures
            r == has_code(self@, short_code@),
    {
        match self.find_by_short_code(short_code) {
            Some(_) => true,
            None => false,
        }
    }

    /// Inserts a new mapping. Succeeds exactly when neither the short code
    /// nor the long URL is already present; on success the pair is appended,
    /// and on failure the store is unchanged.
    pub fn insert(&mut self, short_code: String, long_url: String) -> (r: Result<
        (),
        StoreError,
    >)
        requires
            old(self).wf(),
        ensures
            final(self).wf(),
            has_code(old(self)@, short_code@) || has_url(old(self)@, long_url@) ==> r == Err::<
                (),
                StoreError,
            >(StoreError::DuplicateKey) && final(self)@ == old(self)@,
            !has_code(old(self)@, short_code@) && !has_url(old(self)@, long_url@) ==> r == Ok::<
                (),
                StoreError,
            >(()) && final(self)@ == old(self)@.push((short_code@, long_url@)),
    {
        if self.contains_code(&short_code) {
            return Err(StoreError::DuplicateKey);
        }
        match self.find_by_long_url(&long_url) {
            Some(_) => Err(StoreError::DuplicateKey),
            None => {
                let ghost pre = self@;
                let ghost c = short_code@;
                let ghost u = long_url@;
                self.mappings.push(UrlMapping { short_code, long_url });
                proof {
                    assert(self@ =~= pre.push((c, u)));
                    lemma_insert_preserves_inv(pre, c, u);
                }
                Ok(())
            },
        }
    }
}

/// Uniqueness law: in a well-formed store, a short code stands for at most
/// one long URL — no two distinct long URLs ever share a short code.
pub proof fn lemma_code_maps_unique_url(m: StoreModel, c: Seq<char>, u1: Seq<char>, u2: Seq<char>)
    requires
        store_inv(m),
        has_pair(m, c, u1),
        has_pair(m, c, u2),
    ensures
        u1 == u2,
{
    let i1 = choose|i: int| 0 <= i < m.len() && #[trigger] m[i] == (c, u1);
    let i2 = choose|i: int| 0 <= i < m.len() && #[trigger] m[i] == (c, u2);
    if i1 < i2 {
        assert(m[i1].0 != m[i2].0);
    } else if i2 < i1 {
        assert(m[i2].0 != m[i1].0);
    }
}

/// Uniqueness law: in a well-formed store, a long URL is mapped by at most
/// one short code — shortening is single-valued.
pub proof fn lemma_url_maps_unique_code(m: StoreModel, u: Seq<char>, c1: Seq<char>, c2: Seq<char>)
    requires
        store_inv(m),
        has_pair(m, c1, u),
        has_pair(m, c2, u),
    ensures
        c1 == c2,
{
    let i1 = choose|i: int| 0 <= i < m.len() && #[trigger] m[i] == (c1, u);
    let i2 = choose|i: int| 0 <= i < m.len() && #[trigger] m[i] == (c2, u);
    if i1 < i2 {
        assert(m[i1].1 != m[i2].1);
    } else if i2 < i1 {
        assert(m[i2].1 != m[i1].1);
    }
}

} // verus!
