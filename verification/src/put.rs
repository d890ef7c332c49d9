//! Storing a paste, one decision at a time.
//!
//! Finding a free identifier takes turns with the backing storage: a
//! candidate is drawn, the storage is asked to create it unless it exists,
//! and what it answers decides whether the paste is stored, another
//! candidate is drawn, or the put fails. [`PutStep`] is where such a put
//! stands; [`PutStep::offer`] and [`PutStep::settle`] move it on. Whoever owns
//! the storage runs the loop and does what each step asks for.

use vstd::prelude::*;
use crate::name::is_safe_identifier;
use crate::name::is_phrase;
use crate::name::phrase;
use crate::name::safe_identifier;
use crate::store::CreateOutcome;
use crate::store::StoreError;

verus! {

/// Number of candidates a put tries before it gives up.
pub const MAX_ATTEMPTS: usize = 32;

/// Where a put stands, and with it what is to be done next.
#[derive(Debug, PartialEq, Eq)]
pub enum PutStep {
    /// A candidate is to be drawn; `tried` candidates were turned down so far.
    Draw { tried: usize },
    /// The storage is to create `candidate` unless it exists.
    Create { tried: usize, candidate: String },
    /// The paste is stored under `id`.
    Stored { id: String },
    /// The put failed, and nothing was stored.
    Failed { error: StoreError },
}

impl PutStep {
    /// The step after one more candidate was turned down: another draw while
    /// fewer than [`MAX_ATTEMPTS`] were tried, else the put is exhausted.
    pub open spec fn after_miss(tried: usize) -> PutStep {
        if tried < MAX_ATTEMPTS - 1 {
            PutStep::Draw { tried: (tried + 1) as usize }
        } else {
            PutStep::Failed { error: StoreError::Exhausted }
        }
    }

    /// The step that follows when `candidate` is handed in. Only a step that
    /// asks for a draw takes one: a safe candidate goes on to the storage, any
    /// other counts as turned down.
    pub open spec fn offered(self, candidate: String) -> PutStep {
        match self {
            PutStep::Draw { tried } => if safe_identifier(candidate@) {
                PutStep::Create { tried, candidate }
            } else {
                Self::after_miss(tried)
            },
            _ => self,
        }
    }

    /// The step that follows when the storage has answered. Only a step that
    /// asks for a create takes an answer: a created entry ends the put, an
    /// existing one turns the candidate down, a failure ends the put.
    pub open spec fn settled(self, outcome: CreateOutcome) -> PutStep {
        match self {
            PutStep::Create { tried, candidate } => match outcome {
                CreateOutcome::Created => PutStep::Stored { id: candidate },
                CreateOutcome::AlreadyExists => Self::after_miss(tried),
                CreateOutcome::Failed => PutStep::Failed { error: StoreError::Storage },
            },
            _ => self,
        }
    }

    /// How many more draws a put at this step can still make.
    pub open spec fn draws_left(self) -> nat {
        match self {
            PutStep::Draw { tried } => if tried < MAX_ATTEMPTS {
                (MAX_ATTEMPTS - tried) as nat
            } else {
                1
            },
            PutStep::Create { tried, candidate } => if tried < MAX_ATTEMPTS {
                (MAX_ATTEMPTS - tried - 1) as nat
            } else {
                0
            },
            _ => 0,
        }
    }

    /// The first step of a put: nothing tried, a candidate is to be drawn.
    pub fn start() -> (step: PutStep)
        ensures
            step == (PutStep::Draw { tried: 0 }),
    {
        PutStep::Draw { tried: 0 }
    }

    fn turned_down(tried: usize) -> (step: PutStep)
        ensures
            step == Self::after_miss(tried),
    {
        if tried < MAX_ATTEMPTS - 1 {
            PutStep::Draw { tried: tried + 1 }
        } else {
            PutStep::Failed { error: StoreError::Exhausted }
        }
    }

    /// Hands a drawn candidate to the put. A candidate that is not a safe
    /// identifier never goes on to the storage.
    pub fn offer(self, candidate: String) -> (next: PutStep)
        ensures
            next == self.offered(candidate),
            next.draws_left() < self.draws_left() || next == self,
    {
        match self {
            PutStep::Draw { tried } => {
                if is_safe_identifier(candidate.as_str()) {
                    PutStep::Create { tried, candidate }
                } else {
                    Self::turned_down(tried)
                }
            },
            other => other,
        }
    }

    /// Hands the storage's answer to the put.
    pub fn settle(self, outcome: CreateOutcome) -> (next: PutStep)
        ensures
            next == self.settled(outcome),
            next.draws_left() <= self.draws_left(),
    {
        match self {
            PutStep::Create { tried, candidate } => match outcome {
                CreateOutcome::Created => PutStep::Stored { id: candidate },
                CreateOutcome::AlreadyExists => Self::turned_down(tried),
                CreateOutcome::Failed => PutStep::Failed { error: StoreError::Storage },
            },
            other => other,
        }
    }

    /// Draws the candidate that a step asks for. A step that asks for no draw
    /// is returned as it is. A drawn phrase is always a safe identifier, so
    /// what comes back for a draw is the create of that phrase, with the
    /// count of candidates turned down unchanged.
    pub fn advance(self) -> (next: PutStep)
        ensures
            !(self is Draw) ==> next == self,
            self is Draw ==> {
                &&& next is Create
                &&& next->Create_tried == self->Draw_tried
                &&& is_phrase(next->candidate@)
                &&& safe_identifier(next->candidate@)
            },
            !(next is Draw),
            next.draws_left() <= self.draws_left(),
    {
        match self {
            PutStep::Draw { tried } => {
                let candidate = phrase();
                (PutStep::Draw { tried }).offer(candidate)
            },
            other => other,
        }
    }
}

} // verus!
