//! The paste store: a mapping from identifiers to contents in which an entry,
//! once made, is never changed or removed.
//!
//! [`StoreModel`] says what the store is and what each operation does to it.
//! [`crate::memory::PasteStore`] is that store held in memory. A store kept
//! elsewhere (one file per paste in a directory) is driven through the steps
//! of [`crate::put`] and [`begin_get`] / [`finish_get`], and reports what its
//! directory answered as a [`CreateOutcome`] or a [`ReadOutcome`].

use vstd::prelude::*;
use crate::name::is_phrase;
use crate::name::is_safe_identifier;
use crate::name::safe_identifier;
use crate::put::MAX_ATTEMPTS;
use crate::seqs::first_where;

verus! {

/// Why the store did not do what was asked.
#[derive(Clone, Copy, Debug, PartialEq, Eq, Structural)]
pub enum StoreError {
    /// No paste has the identifier.
    NotFound,
    /// The identifier cannot name a paste (see [`safe_identifier`]).
    Invalid,
    /// The backing storage failed for a reason other than absence.
    Storage,
    /// Every candidate identifier that was tried is taken.
    Exhausted,
}

/// What the backing storage answered to "create this entry unless it exists".
#[derive(Clone, Copy, Debug, PartialEq, Eq, Structural)]
pub enum CreateOutcome {
    /// The entry was absent and now holds the content.
    Created,
    /// An entry of that name exists; it was left as it is.
    AlreadyExists,
    /// The storage failed; nothing was stored.
    Failed,
}

/// What the backing storage answered to "read this entry".
#[derive(Debug, PartialEq, Eq)]
pub enum ReadOutcome {
    /// The entry exists and these are its bytes, all of them.
    Found(Vec<u8>),
    /// No entry of that name exists.
    Missing,
    /// The storage failed.
    Failed,
}

/// The store as a mathematical value: whether its root exists, and which
/// content stands under which identifier.
pub struct StoreModel {
    pub ready: bool,
    pub entries: Map<Seq<char>, Seq<u8>>,
}

impl StoreModel {
    /// Every entry has a safe identifier, and a store without a root is empty.
    pub open spec fn valid(self) -> bool {
        &&& forall|id: Seq<char>| #[trigger] self.entries.contains_key(id) ==> safe_identifier(id)
        &&& !self.ready ==> self.entries == Map::<Seq<char>, Seq<u8>>::empty()
    }

    /// The store before anything was done to it.
    pub open spec fn empty() -> StoreModel {
        StoreModel { ready: false, entries: Map::empty() }
    }

    /// The store once its root is in place: the entries are untouched.
    pub open spec fn ensure_root(self) -> StoreModel {
        StoreModel { ready: true, entries: self.entries }
    }

    /// The store with `content` under `id`.
    pub open spec fn with_entry(self, id: Seq<char>, content: Seq<u8>) -> StoreModel {
        StoreModel { ready: self.ready, entries: self.entries.insert(id, content) }
    }

    /// Whether `id` could be given to a new paste.
    pub open spec fn is_free(self, id: Seq<char>) -> bool {
        safe_identifier(id) && !self.entries.contains_key(id)
    }

    /// Exclusive create: `content` is stored under `id` only if the store has
    /// a root and `id` is free. An existing entry is reported and left alone.
    pub open spec fn create_new(self, id: Seq<char>, content: Seq<u8>) -> (
        StoreModel,
        CreateOutcome,
    ) {
        if !self.ready || !safe_identifier(id) {
            (self, CreateOutcome::Failed)
        } else if self.entries.contains_key(id) {
            (self, CreateOutcome::AlreadyExists)
        } else {
            (self.with_entry(id, content), CreateOutcome::Created)
        }
    }

    /// What a lookup of `id` answers.
    pub open spec fn get(self, id: Seq<char>) -> Result<Seq<u8>, StoreError> {
        if !safe_identifier(id) {
            Err(StoreError::Invalid)
        } else if self.entries.contains_key(id) {
            Ok(self.entries[id])
        } else {
            Err(StoreError::NotFound)
        }
    }

    /// Whether a put that stores `content` leads from this store to `after`
    /// and hands out `id`: the store has its root, `id` was free, and `after`
    /// is this store with the one new entry.
    pub open spec fn stored(self, after: StoreModel, id: Seq<char>, content: Seq<u8>) -> bool {
        &&& self.ready
        &&& self.is_free(id)
        &&& after == self.with_entry(id, content)
    }

    /// Index of the first of `candidates` that is free, if one is.
    pub open spec fn first_free(self, candidates: Seq<Seq<char>>) -> Option<int> {
        first_where(candidates, |id: Seq<char>| self.is_free(id))
    }

    /// A put that takes its candidates from `candidates`, in order. It looks
    /// at no more than [`MAX_ATTEMPTS`] of them and stops at the first that is
    /// free: there the content is stored, or, in a store without a root, the
    /// storage fails. With no free candidate the put is exhausted. A put that
    /// fails leaves the store as it was.
    pub open spec fn put_with(self, candidates: Seq<Seq<char>>, content: Seq<u8>) -> (
        StoreModel,
        Result<Seq<char>, StoreError>,
    ) {
        let tries = attempts(candidates);
        match self.first_free(tries) {
            Some(i) => if self.ready {
                (self.with_entry(tries[i], content), Ok(tries[i]))
            } else {
                (self, Err(StoreError::Storage))
            },
            None => (self, Err(StoreError::Exhausted)),
        }
    }

    /// Whether each of `draws` is a phrase that some paste already has.
    pub open spec fn all_taken(self, draws: Seq<Seq<char>>) -> bool {
        forall|i: int|
            0 <= i < draws.len() ==> is_phrase(#[trigger] draws[i]) && self.entries.contains_key(
                draws[i],
            )
    }

    /// Whether a put can find this store exhausted: there are
    /// [`MAX_ATTEMPTS`] phrases, not all different perhaps, that are all
    /// taken.
    pub open spec fn can_exhaust(self) -> bool {
        exists|draws: Seq<Seq<char>>| draws.len() == MAX_ATTEMPTS && #[trigger] self.all_taken(draws)
    }

    /// Whether this store is `earlier` with nothing lost: every entry of
    /// `earlier` is here with the same content, and a root stays.
    pub open spec fn extends(self, earlier: StoreModel) -> bool {
        &&& earlier.ready ==> self.ready
        &&& forall|id: Seq<char>| #[trigger]
            earlier.entries.contains_key(id) ==> self.entries.contains_key(id)
                && self.entries[id] == earlier.entries[id]
    }
}

/// The candidates that a put looks at: the first [`MAX_ATTEMPTS`] of them.
pub open spec fn attempts(candidates: Seq<Seq<char>>) -> Seq<Seq<char>> {
    if candidates.len() <= MAX_ATTEMPTS {
        candidates
    } else {
        candidates.take(MAX_ATTEMPTS as int)
    }
}

/// The characters of each string.
pub open spec fn texts(strings: Seq<String>) -> Seq<Seq<char>> {
    Seq::new(strings.len(), |i: int| strings[i]@)
}

/// The characters of the identifier that a put handed out.
pub open spec fn id_of(r: Result<String, StoreError>) -> Result<Seq<char>, StoreError> {
    match r {
        Ok(id) => Ok(id@),
        Err(e) => Err(e),
    }
}

/// The bytes of a lookup's answer.
pub open spec fn bytes_of(r: Result<Vec<u8>, StoreError>) -> Result<Seq<u8>, StoreError> {
    match r {
        Ok(content) => Ok(content@),
        Err(e) => Err(e),
    }
}

/// First half of a lookup, before the storage is touched: an identifier that
/// is not safe is turned down here and never used as a storage key.
pub fn begin_get(id: &str) -> (r: Result<(), StoreError>)
    ensures
        r == if safe_identifier(id@) {
            Ok::<(), StoreError>(())
        } else {
            Err(StoreError::Invalid)
        },
{
    if is_safe_identifier(id) {
        Ok(())
    } else {
        Err(StoreError::Invalid)
    }
}

/// What a lookup answers once the storage has been read.
pub open spec fn finished(outcome: ReadOutcome) -> Result<Vec<u8>, StoreError> {
    match outcome {
        ReadOutcome::Found(content) => Ok(content),
        ReadOutcome::Missing => Err(StoreError::NotFound),
        ReadOutcome::Failed => Err(StoreError::Storage),
    }
}

/// Second half of a lookup: the content as it was read, whole and unchanged,
/// or the reason there is none. Absence and failure are kept apart.
pub fn finish_get(outcome: ReadOutcome) -> (r: Result<Vec<u8>, StoreError>)
    ensures
        r == finished(outcome),
{
    match outcome {
        ReadOutcome::Found(content) => Ok(content),
        ReadOutcome::Missing => Err(StoreError::NotFound),
        ReadOutcome::Failed => Err(StoreError::Storage),
    }
}

} // verus!
