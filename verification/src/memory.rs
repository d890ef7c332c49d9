//! The paste store held in memory.

use vstd::prelude::*;
use vstd::slice::slice_to_vec;
use crate::name::is_safe_identifier;
use crate::name::safe_identifier;
use crate::name::is_phrase;
use crate::put::PutStep;
use crate::put::MAX_ATTEMPTS;
use crate::seqs::lemma_first_where;
use crate::store::attempts;
use crate::store::begin_get;
use crate::store::bytes_of;
use crate::store::finish_get;
use crate::store::id_of;
use crate::store::texts;
use crate::store::CreateOutcome;
use crate::store::ReadOutcome;
use crate::store::StoreError;
use crate::store::StoreModel;

verus! {

/// One stored blob and the identifier it was given.
#[derive(Debug)]
pub struct Paste {
    pub id: String,
    pub content: Vec<u8>,
}

/// The store held in memory: the pastes in the order they were stored, and
/// whether the root was put in place.
#[derive(Debug)]
pub struct PasteStore {
    ready: bool,
    pastes: Vec<Paste>,
}

impl View for PasteStore {
    type V = StoreModel;

    closed spec fn view(&self) -> StoreModel {
        StoreModel {
            ready: self.ready,
            entries: Map::new(
                |id: Seq<char>| self.holds(id),
                |id: Seq<char>| self.pastes@[self.slot(id)].content@,
            ),
        }
    }
}

impl PasteStore {
    /// Whether some paste has the identifier `id`.
    spec fn holds(&self, id: Seq<char>) -> bool {
        exists|i: int| 0 <= i < self.pastes@.len() && (#[trigger] self.pastes@[i]).id@ == id
    }

    /// Where the paste with the identifier `id` is kept.
    spec fn slot(&self, id: Seq<char>) -> int {
        choose|i: int| 0 <= i < self.pastes@.len() && (#[trigger] self.pastes@[i]).id@ == id
    }

    /// No identifier is used twice, each one is safe, and nothing is stored
    /// before the root exists.
    pub closed spec fn wf(&self) -> bool {
        &&& forall|i: int|
            0 <= i < self.pastes@.len() ==> safe_identifier((#[trigger] self.pastes@[i]).id@)
        &&& forall|i: int, j: int|
            0 <= i < j < self.pastes@.len() ==> (#[trigger] self.pastes@[i]).id@ != (
            #[trigger] self.pastes@[j]).id@
        &&& !self.ready ==> self.pastes@.len() == 0
    }

    /// A well-formed store is a valid model.
    pub proof fn lemma_valid(&self)
        requires
            self.wf(),
        ensures
            self@.valid(),
    {
        if !self.ready {
            assert(self@.entries =~= Map::<Seq<char>, Seq<u8>>::empty());
        }
    }

    /// A store with no root and no paste.
    pub fn new() -> (s: PasteStore)
        ensures
            s.wf(),
            s@ == StoreModel::empty(),
    {
        let s = PasteStore { ready: false, pastes: Vec::new() };
        assert(s@.entries =~= Map::<Seq<char>, Seq<u8>>::empty());
        s
    }

    /// Puts the root in place if it is missing. Never fails here, and never
    /// touches an entry, however often it is called.
    pub fn ensure_root(&mut self) -> (r: Result<(), StoreError>)
        requires
            old(self).wf(),
        ensures
            final(self).wf(),
            r is Ok,
            final(self)@ == old(self)@.ensure_root(),
    {
        self.ready = true;
        assert(self@.entries =~= old(self)@.entries);
        Ok(())
    }

    /// Where the paste named `key` is kept, if there is one.
    fn find(&self, key: &String) -> (r: Option<usize>)
        requires
            self.wf(),
        ensures
            match r {
                Some(i) => i < self.pastes@.len() && self.pastes@[i as int].id@ == key@
                    && self.holds(key@) && self.slot(key@) == i,
                None => !self.holds(key@),
            },
    {
        let mut i: usize = 0;
        while i < self.pastes.len()
            invariant
                self.wf(),
                i <= self.pastes@.len(),
                forall|j: int| 0 <= j < i ==> (#[trigger] self.pastes@[j]).id@ != key@,
            decreases self.pastes@.len() - i,
        {
            if self.pastes[i].id == *key {
                proof {
                    assert(self.pastes@[i as int].id@ == key@);
                    let j = self.slot(key@);
                    assert(self.pastes@[j].id@ == key@);
                }
                return Some(i);
            }
            i += 1;
        }
        None
    }

    /// Exclusive create: stores `content` under `id` if the root exists and
    /// `id` is free, and says which of the three cases held. An entry that
    /// exists is never overwritten.
    pub fn create_new(&mut self, id: &str, content: &[u8]) -> (outcome: CreateOutcome)
        requires
            old(self).wf(),
        ensures
            final(self).wf(),
            (final(self)@, outcome) == old(self)@.create_new(id@, content@),
    {
        if !self.ready || !is_safe_identifier(id) {
            return CreateOutcome::Failed;
        }
        let key = id.to_owned();
        match self.find(&key) {
            Some(_) => CreateOutcome::AlreadyExists,
            None => {
                self.pastes.push(Paste { id: key, content: slice_to_vec(content) });
                proof {
                    let last = self.pastes@.len() - 1;
                    assert(self.pastes@[last].id@ == id@);
                    assert forall|k: Seq<char>| #[trigger]
                        self.holds(k) == (k == id@ || old(self).holds(k)) by {
                        if old(self).holds(k) {
                            let i = old(self).slot(k);
                            assert(self.pastes@[i].id@ == k);
                        }
                        if self.holds(k) && k != id@ {
                            let i = self.slot(k);
                            assert(old(self).pastes@[i].id@ == k);
                        }
                    }
                    assert forall|k: Seq<char>| self.holds(k) implies #[trigger]
                        self@.entries[k] == old(self)@.entries.insert(id@, content@)[k] by {
                        let i = self.slot(k);
                        if k != id@ {
                            let j = old(self).slot(k);
                            assert(self.pastes@[j].id@ == k);
                        }
                    }
                    assert(self@.entries =~= old(self)@.entries.insert(id@, content@));
                }
                CreateOutcome::Created
            },
        }
    }

    /// Does what `step` asks of the storage: for a create, the exclusive
    /// create and the step that its outcome leads to; else nothing.
    fn serve(&mut self, step: PutStep, content: &[u8]) -> (next: PutStep)
        requires
            old(self).wf(),
        ensures
            final(self).wf(),
            match step {
                PutStep::Create { tried, candidate } => {
                    let (after, outcome) = old(self)@.create_new(candidate@, content@);
                    final(self)@ == after && next == step.settled(outcome)
                },
                _ => final(self)@ == old(self)@ && next == step,
            },
            next.draws_left() <= step.draws_left(),
    {
        match step {
            PutStep::Create { tried, candidate } => {
                let outcome = self.create_new(candidate.as_str(), content);
                (PutStep::Create { tried, candidate }).settle(outcome)
            },
            other => other,
        }
    }

    /// Stores `content` under the first of `candidates` that is free, looking
    /// at no more than [`MAX_ATTEMPTS`] of them, and hands that identifier
    /// out. No entry that exists is touched.
    pub fn put_with(&mut self, candidates: &Vec<String>, content: &[u8]) -> (r: Result<
        String,
        StoreError,
    >)
        requires
            old(self).wf(),
        ensures
            final(self).wf(),
            (final(self)@, id_of(r)) == old(self)@.put_with(texts(candidates@), content@),
    {
        let ghost before = self@;
        let ghost tries = attempts(texts(candidates@));
        let mut step = PutStep::start();
        let mut i: usize = 0;
        let mut result: Result<String, StoreError> = Err(StoreError::Exhausted);
        proof {
            self.lemma_valid();
        }
        loop
            invariant_except_break
                self.wf(),
                self@ == before,
                before.valid(),
                tries == attempts(texts(candidates@)),
                step == (PutStep::Draw { tried: i }),
                i < MAX_ATTEMPTS,
                i <= candidates@.len(),
                forall|j: int| 0 <= j < i ==> !before.is_free(#[trigger] tries[j]),
            ensures
                self.wf(),
                (self@, id_of(result)) == before.put_with(texts(candidates@), content@),
            decreases MAX_ATTEMPTS - i,
        {
            proof {
                lemma_first_where(tries, |id: Seq<char>| before.is_free(id));
            }
            if i >= candidates.len() {
                result = Err(StoreError::Exhausted);
                break;
            }
            assert(tries[i as int] == candidates@[i as int]@);
            let offered = step.offer(candidates[i].clone());
            let served = self.serve(offered, content);
            match served {
                PutStep::Stored { id } => {
                    result = Ok(id);
                    break;
                },
                PutStep::Failed { error } => {
                    result = Err(error);
                    break;
                },
                other => {
                    step = other;
                    i += 1;
                },
            }
        }
        result
    }

    /// Stores `content` under an identifier that no paste has, and hands the
    /// identifier out. Candidates are drawn at random, at most
    /// [`MAX_ATTEMPTS`] of them, and the first that is free is taken. In a
    /// store without a root the put fails as a storage failure. In a store
    /// with a root it fails only as exhausted, and only when every one of
    /// [`MAX_ATTEMPTS`] phrases drawn was taken; so it succeeds on a store
    /// that holds nothing. A put that fails leaves the store as it was.
    pub fn put(&mut self, content: &[u8]) -> (r: Result<String, StoreError>)
        requires
            old(self).wf(),
        ensures
            final(self).wf(),
            match r {
                Ok(id) => {
                    &&& old(self)@.stored(final(self)@, id@, content@)
                    &&& final(self)@.get(id@) == Ok::<Seq<u8>, StoreError>(content@)
                    &&& is_phrase(id@)
                },
                Err(e) => final(self)@ == old(self)@,
            },
            !old(self)@.ready ==> r == Err::<String, StoreError>(StoreError::Storage),
            old(self)@.ready ==> r is Ok || (r == Err::<String, StoreError>(StoreError::Exhausted)
                && old(self)@.can_exhaust()),
            old(self)@.ready && old(self)@.entries == Map::<Seq<char>, Seq<u8>>::empty() ==> r is Ok,
    {
        let ghost before = self@;
        let ghost mut draws: Seq<Seq<char>> = Seq::empty();
        let mut result: Result<String, StoreError> = Err(StoreError::Exhausted);
        let mut step = PutStep::start().advance();
        loop
            invariant_except_break
                self.wf(),
                self@ == before,
                step is Create,
                step->Create_tried == draws.len(),
                draws.len() < MAX_ATTEMPTS,
                safe_identifier(step->candidate@),
                is_phrase(step->candidate@),
                before.all_taken(draws),
                draws.len() > 0 ==> before.ready,
            ensures
                self.wf(),
                match result {
                    Ok(id) => {
                        &&& before.stored(self@, id@, content@)
                        &&& self@.get(id@) == Ok::<Seq<u8>, StoreError>(content@)
                        &&& is_phrase(id@)
                    },
                    Err(e) => self@ == before,
                },
                !before.ready ==> result == Err::<String, StoreError>(StoreError::Storage),
                before.ready ==> result is Ok || (result == Err::<String, StoreError>(
                    StoreError::Exhausted,
                ) && before.can_exhaust()),
            decreases MAX_ATTEMPTS - draws.len(),
        {
            let ghost drawn = step->candidate@;
            let served = self.serve(step, content);
            match served {
                PutStep::Stored { id } => {
                    result = Ok(id);
                    break;
                },
                PutStep::Failed { error } => {
                    proof {
                        if before.ready {
                            draws = draws.push(drawn);
                            assert(before.all_taken(draws));
                        }
                    }
                    result = Err(error);
                    break;
                },
                other => {
                    proof {
                        draws = draws.push(drawn);
                    }
                    step = other.advance();
                },
            }
        }
        proof {
            if before.ready && before.entries == Map::<Seq<char>, Seq<u8>>::empty() && result is Err {
                let taken = choose|draws: Seq<Seq<char>>|
                    draws.len() == MAX_ATTEMPTS && #[trigger] before.all_taken(draws);
                assert(before.entries.contains_key(taken[0]));
            }
        }
        result
    }

    /// Looks a paste up: its content, byte for byte, if `id` names one.
    pub fn get(&self, id: &str) -> (r: Result<Vec<u8>, StoreError>)
        requires
            self.wf(),
        ensures
            bytes_of(r) == self@.get(id@),
    {
        match begin_get(id) {
            Err(e) => Err(e),
            Ok(()) => {
                let key = id.to_owned();
                let outcome = match self.find(&key) {
                    Some(i) => ReadOutcome::Found(slice_to_vec(self.pastes[i].content.as_slice())),
                    None => ReadOutcome::Missing,
                };
                finish_get(outcome)
            },
        }
    }
}

} // verus!
