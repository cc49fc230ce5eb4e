//! The shortening and redirect services: validation, lookup-or-create code
//! assignment with collision retry, and code resolution.

use vstd::prelude::*;
use crate::codegen::generate_short_code;
use crate::codegen::is_code;
use crate::store::StoreError;
use crate::store::StoreModel;
use crate::store::UrlStore;
use crate::store::has_code;
use crate::store::has_pair;
use crate::store::has_url;
use crate::store::lemma_code_maps_unique_url;
use crate::store::lemma_insert_preserves_inv;
use crate::store::lemma_url_maps_unique_code;
use crate::store::store_inv;

verus! {

/// Maximum number of random candidate codes tried before shortening gives
/// up. A defensive bound: with a 62^6 code space it is effectively never
/// reached.
pub const MAX_CODE_ATTEMPTS: usize = 10000;

/// Errors of [`shorten`].
#[derive(Debug, PartialEq, Eq, Structural)]
pub enum ShortenError {
    /// The long URL does not begin with `http://` or `https://`.
    ValidationError,
    /// Every tried candidate code collided with an existing one.
    CapacityExhausted,
}

/// Errors of [`resolve`].
#[derive(Debug, PartialEq, Eq, Structural)]
pub enum ResolveError {
    /// The short code was never issued.
    NotFound,
}

/// Whether `p` is a prefix of `s`.
pub open spec fn has_prefix(s: Seq<char>, p: Seq<char>) -> bool {
    p.len() <= s.len() && s.subrange(0, p.len() as int) == p
}

/// A long URL is accepted exactly when it begins with `http://` or
/// `https://`.
pub open spec fn valid_url(s: Seq<char>) -> bool {
    has_prefix(s, "http://"@) || has_prefix(s, "https://"@)
}

/// Whether the string slice `s` starts with the prefix `p`.
fn str_has_prefix(s: &str, p: &str) -> (r: bool)
    ensures
        r == has_prefix(s@, p@),
{
    let n = p.unicode_len();
    if s.unicode_len() < n {
        return false;
    }
    let mut k: usize = 0;
    while k < n
        invariant
            n == p@.len(),
            n <= s@.len(),
            k <= n,
            forall|i: int| 0 <= i < k ==> s@[i] == p@[i],
        decreases n - k,
    {
        if s.get_char(k) != p.get_char(k) {
            proof {
                if has_prefix(s@, p@) {
                    assert(s@.subrange(0, p@.len() as int)[k as int] == p@[k as int]);
                }
            }
            return false;
        }
        k = k + 1;
    }
    proof {
        assert(s@.subrange(0, p@.len() as int) =~= p@);
    }
    true
}

/// Executable URL validation: accepted exactly when the URL begins with
/// `http://` or `https://`.
pub fn is_valid_url(long_url: &String) -> (r: bool)
    ensures
        r == valid_url(long_url@),
{
    str_has_prefix(long_url.as_str(), "http://") || str_has_prefix(long_url.as_str(), "https://")
}

/// The relation a successful shortening establishes between the store model
/// before (`pre`) and after (`post`) the call: either the URL was already
/// mapped and the store is untouched, or a fresh, well-shaped code was
/// appended for it.
pub open spec fn shorten_ok(pre: StoreModel, u: Seq<char>, c: Seq<char>, post: StoreModel) -> bool {
    valid_url(u) && ((has_url(pre, u) && has_pair(pre, c, u) && post == pre) || (!has_url(pre, u)
        && is_code(c) && !has_code(pre, c) && post == pre.push((c, u))))
}

/// Shortens a long URL: validates it, returns the existing code if the URL
/// is already mapped, and otherwise assigns a fresh random code, retrying
/// on collision up to [`MAX_CODE_ATTEMPTS`] times.
pub fn shorten(store: &mut UrlStore, long_url: &String) -> (r: Result<String, ShortenError>)
    requires
        old(store).wf(),
    ensures
        final(store).wf(),
        match r {
            Ok(code) => shorten_ok(old(store)@, long_url@, code@, final(store)@),
            Err(ShortenError::ValidationError) => !valid_url(long_url@) && final(store)@ == old(
                store,
            )@,
            Err(ShortenError::CapacityExhausted) => valid_url(long_url@) && !has_url(
                old(store)@,
                long_url@,
            ) && final(store)@ == old(store)@,
        },
        !valid_url(long_url@) ==> r == Err::<String, ShortenError>(ShortenError::ValidationError),
        valid_url(long_url@) && has_url(old(store)@, long_url@) ==> r is Ok,
{
    if !is_valid_url(long_url) {
        return Err(ShortenError::ValidationError);
    }
    if let Some(code) = store.find_by_long_url(long_url) {
        return Ok(code);
    }
    let ghost pre = store@;
    let mut attempts: usize = 0;
    while attempts < MAX_CODE_ATTEMPTS
        invariant
            store.wf(),
            store@ == pre,
            pre == old(store)@,
            !has_url(pre, long_url@),
            valid_url(long_url@),
            attempts <= MAX_CODE_ATTEMPTS,
        decreases MAX_CODE_ATTEMPTS - attempts,
    {
        let candidate = generate_short_code();
        if !store.contains_code(&candidate) {
            match store.insert(candidate.clone(), long_url.clone()) {
                Ok(()) => {
                    return Ok(candidate);
                },
                Err(StoreError::DuplicateKey) => {
                    // A duplicate key here would be a benign conflict; it is
                    // retried with a fresh candidate. Against this store the
                    // branch cannot be taken: both keys were just checked.
                },
            }
        }
        attempts = attempts + 1;
    }
    Err(ShortenError::CapacityExhausted)
}

/// Composes the full short URL the service answers with: the configured
/// base address, a slash, and the short code.
pub fn compose_short_url(base: &String, code: &String) -> (r: String)
    ensures
        r@ == base@ + "/"@ + code@,
{
    let mut s = base.clone();
    s.append("/");
    s.append(code.as_str());
    s
}

/// The storage-backed shortening session, one step at a time: what the
/// service asks of storage next. A driver performs the named storage
/// operation, feeds its outcome back as a [`StorageEvent`], and calls
/// [`shorten_step`] for the next step, until `Done` or `GiveUp`.
pub enum ShortenStep {
    /// Look the long URL up; an existing mapping wins immediately.
    CheckExisting { attempts: usize },
    /// Ask storage whether this candidate short code is already taken.
    CheckCandidate { candidate: String, attempts: usize },
    /// Insert the mapping under this candidate code.
    InsertCandidate { candidate: String, attempts: usize },
    /// Finished: respond with this short code.
    Done { code: String },
    /// The retry budget is exhausted, or the driver fed a mismatched event:
    /// surface a storage-level failure.
    GiveUp,
}

/// A storage outcome fed back into the shortening session.
pub enum StorageEvent {
    /// Outcome of `CheckExisting`: the code mapped to the long URL, if any.
    FoundCode(Option<String>),
    /// Outcome of `CheckCandidate`: whether the candidate code is taken.
    CandidateTaken(bool),
    /// Outcome of `InsertCandidate`: the row went in.
    Inserted,
    /// Outcome of `InsertCandidate`: a uniqueness violation — a benign race
    /// with a concurrent shorten; the session re-reads the winner.
    UniqueViolation,
}

/// Opens a shortening session for `long_url`. Validation happens first,
/// exactly as in [`shorten`]; a valid URL starts at `CheckExisting`.
pub fn shorten_start(long_url: &String) -> (r: Result<ShortenStep, ShortenError>)
    ensures
        (r is Ok) <==> valid_url(long_url@),
        r matches Ok(step) ==> step == (ShortenStep::CheckExisting { attempts: 0 }),
        r matches Err(e) ==> e == ShortenError::ValidationError,
{
    if is_valid_url(long_url) {
        Ok(ShortenStep::CheckExisting { attempts: 0 })
    } else {
        Err(ShortenError::ValidationError)
    }
}

/// Advances the shortening session: the same decisions as [`shorten`], made
/// against real storage. An existing mapping wins as it stands; on a miss a
/// fresh candidate is drawn, redrawn on collision up to
/// [`MAX_CODE_ATTEMPTS`] draws in all; a uniqueness violation on insert is
/// a benign race and goes back to re-reading the winner. A mismatched
/// step/event pair gives up.
pub fn shorten_step(step: ShortenStep, event: StorageEvent) -> (next: ShortenStep)
    ensures
        match (step, event) {
            (
                ShortenStep::CheckExisting { attempts },
                StorageEvent::FoundCode(found),
            ) => match found {
                Some(code) => next == (ShortenStep::Done { code }),
                None => if attempts >= MAX_CODE_ATTEMPTS {
                    next == ShortenStep::GiveUp
                } else {
                    next matches ShortenStep::CheckCandidate { candidate, attempts: a }
                        && is_code(candidate@) && a == attempts + 1
                },
            },
            (
                ShortenStep::CheckCandidate { candidate, attempts },
                StorageEvent::CandidateTaken(taken),
            ) => if taken {
                if attempts >= MAX_CODE_ATTEMPTS {
                    next == ShortenStep::GiveUp
                } else {
                    next matches ShortenStep::CheckCandidate { candidate: c, attempts: a }
                        && is_code(c@) && a == attempts + 1
                }
            } else {
                next == (ShortenStep::InsertCandidate { candidate, attempts })
            },
            (
                ShortenStep::InsertCandidate { candidate, .. },
                StorageEvent::Inserted,
            ) => next == (ShortenStep::Done { code: candidate }),
            (
                ShortenStep::InsertCandidate { attempts, .. },
                StorageEvent::UniqueViolation,
            ) => next == (ShortenStep::CheckExisting { attempts }),
            _ => next == ShortenStep::GiveUp,
        },
{
    match (step, event) {
        (ShortenStep::CheckExisting { attempts }, StorageEvent::FoundCode(found)) => match found {
            Some(code) => ShortenStep::Done { code },
            None => if attempts >= MAX_CODE_ATTEMPTS {
                ShortenStep::GiveUp
            } else {
                ShortenStep::CheckCandidate {
                    candidate: generate_short_code(),
                    attempts: attempts + 1,
                }
            },
        },
        (
            ShortenStep::CheckCandidate { candidate, attempts },
            StorageEvent::CandidateTaken(taken),
        ) => if taken {
            if attempts >= MAX_CODE_ATTEMPTS {
                ShortenStep::GiveUp
            } else {
                ShortenStep::CheckCandidate {
                    candidate: generate_short_code(),
                    attempts: attempts + 1,
                }
            }
        } else {
            ShortenStep::InsertCandidate { candidate, attempts }
        },
        (ShortenStep::InsertCandidate { candidate, .. }, StorageEvent::Inserted) => {
            ShortenStep::Done { code: candidate }
        },
        (ShortenStep::InsertCandidate { attempts, .. }, StorageEvent::UniqueViolation) => {
            ShortenStep::CheckExisting { attempts }
        },
        (_, _) => ShortenStep::GiveUp,
    }
}

/// Resolves a short code to the long URL it stands for. A pure lookup: the
/// store is not touched, and an unknown code is the normal `NotFound`
/// outcome.
pub fn resolve(store: &UrlStore, short_code: &String) -> (r: Result<String, ResolveError>)
    ensures
        match r {
            Ok(url) => has_pair(store@, short_code@, url@),
            Err(ResolveError::NotFound) => !has_code(store@, short_code@),
        },
        has_code(store@, short_code@) ==> r is Ok,
{
    match store.find_by_short_code(short_code) {
        Some(url) => Ok(url),
        None => Err(ResolveError::NotFound),
    }
}

/// Idempotence law: when shortening `u` succeeds with code `c1`, a second
/// successful shortening of the same `u`, starting from the state the first
/// left behind, returns the very same code and leaves the store untouched.
pub proof fn lemma_shorten_idempotent(
    pre: StoreModel,
    u: Seq<char>,
    c1: Seq<char>,
    m1: StoreModel,
    c2: Seq<char>,
    m2: StoreModel,
)
    requires
        store_inv(pre),
        shorten_ok(pre, u, c1, m1),
        shorten_ok(m1, u, c2, m2),
    ensures
        c2 == c1,
        m2 == m1,
{
    lemma_shorten_ok_maps(pre, u, c1, m1);
    assert(has_url(m1, u));
    assert(has_pair(m1, c2, u) && m2 == m1);
    lemma_url_maps_unique_code(m1, u, c1, c2);
}

/// A successful shortening leaves a well-formed store that maps the returned
/// code to the shortened URL.
pub proof fn lemma_shorten_ok_maps(pre: StoreModel, u: Seq<char>, c: Seq<char>, post: StoreModel)
    requires
        store_inv(pre),
        shorten_ok(pre, u, c, post),
    ensures
        store_inv(post),
        has_pair(post, c, u),
        has_url(post, u),
{
    if has_url(pre, u) {
        assert(post == pre);
        let i = choose|i: int| 0 <= i < pre.len() && #[trigger] pre[i] == (c, u);
        assert(post[i] == (c, u));
    } else {
        lemma_insert_preserves_inv(pre, c, u);
        assert(post[pre.len() as int] == (c, u));
    }
    let i = choose|i: int| 0 <= i < post.len() && #[trigger] post[i] == (c, u);
    assert(post[i].1 == u);
}

/// Round-trip law: after a successful shortening of `u` to code `c`, the
/// store maps `c` to `u` and to nothing else, so resolving `c` yields `u`.
pub proof fn lemma_round_trip(pre: StoreModel, u: Seq<char>, c: Seq<char>, post: StoreModel)
    requires
        store_inv(pre),
        shorten_ok(pre, u, c, post),
    ensures
        store_inv(post),
        has_code(post, c),
        has_pair(post, c, u),
        forall|u2: Seq<char>| has_pair(post, c, u2) ==> u2 == u,
{
    lemma_shorten_ok_maps(pre, u, c, post);
    let i = choose|i: int| 0 <= i < post.len() && #[trigger] post[i] == (c, u);
    assert(post[i].0 == c);
    assert forall|u2: Seq<char>| has_pair(post, c, u2) implies u2 == u by {
        lemma_code_maps_unique_url(post, c, u, u2);
    }
}

} // verus!
