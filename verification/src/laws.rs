//! What holds of the store whatever is done to it, proved from the model in
//! [`crate::store`].

use vstd::prelude::*;
use crate::name::safe_identifier;
use crate::put::PutStep;
use crate::seqs::lemma_first_where;
use crate::store::attempts;
use crate::store::CreateOutcome;
use crate::store::StoreError;
use crate::store::StoreModel;

verus! {

/// A put with given candidates either stores the content under a free
/// identifier, as [`StoreModel::stored`] says, or leaves the store as it was.
pub proof fn lemma_put_with_stores(
    before: StoreModel,
    candidates: Seq<Seq<char>>,
    content: Seq<u8>,
)
    ensures
        ({
            let (after, r) = before.put_with(candidates, content);
            match r {
                Ok(id) => before.stored(after, id, content),
                Err(e) => after == before,
            }
        }),
{
    lemma_first_where(attempts(candidates), |id: Seq<char>| before.is_free(id));
}

/// Round trip: what a put stored, a lookup of the identifier it handed out
/// gives back byte for byte. This holds of every content, the empty one too.
pub proof fn lemma_round_trip(
    before: StoreModel,
    after: StoreModel,
    id: Seq<char>,
    content: Seq<u8>,
)
    requires
        before.stored(after, id, content),
    ensures
        after.get(id) == Ok::<Seq<u8>, StoreError>(content),
{
}

/// The steps of a put agree with the store: when the storage answers a
/// create as the model says, a put that ends as stored has stored the content
/// as [`StoreModel::stored`] says and a lookup of the identifier gives it
/// back; a put that goes on or fails has left the store as it was.
pub proof fn lemma_settled_agrees(s: StoreModel, tried: usize, candidate: String, content: Seq<u8>)
    ensures
        ({
            let (after, outcome) = s.create_new(candidate@, content);
            match (PutStep::Create { tried, candidate }).settled(outcome) {
                PutStep::Stored { id } => {
                    &&& id == candidate
                    &&& s.stored(after, id@, content)
                    &&& after.get(id@) == Ok::<Seq<u8>, StoreError>(content)
                },
                _ => after == s,
            }
        }),
{
}

/// Nothing is lost: a store extends itself, extending carries over, and
/// every operation leads to a store that extends the one before.
pub proof fn lemma_operations_extend(
    s: StoreModel,
    id: Seq<char>,
    content: Seq<u8>,
    candidates: Seq<Seq<char>>,
)
    ensures
        s.extends(s),
        s.ensure_root().extends(s),
        s.create_new(id, content).0.extends(s),
        s.put_with(candidates, content).0.extends(s),
{
    lemma_put_with_stores(s, candidates, content);
}

/// Extending carries over: a store that extends one that extends `first`
/// extends `first`.
pub proof fn lemma_extends_transitive(first: StoreModel, second: StoreModel, third: StoreModel)
    requires
        second.extends(first),
        third.extends(second),
    ensures
        third.extends(first),
{
    assert forall|id: Seq<char>| #[trigger] first.entries.contains_key(id) implies (
    third.entries.contains_key(id) && third.entries[id] == first.entries[id]) by {
        assert(second.entries.contains_key(id));
    }
}

/// Uniqueness: two puts on one store never hand out the same identifier,
/// whatever happened to the store in between, and afterwards each identifier
/// still gives the content it was handed out for.
pub proof fn lemma_identifiers_distinct(
    s0: StoreModel,
    s1: StoreModel,
    id1: Seq<char>,
    content1: Seq<u8>,
    s2: StoreModel,
    s3: StoreModel,
    id2: Seq<char>,
    content2: Seq<u8>,
)
    requires
        s0.stored(s1, id1, content1),
        s2.extends(s1),
        s2.stored(s3, id2, content2),
    ensures
        id1 != id2,
        s3.get(id1) == Ok::<Seq<u8>, StoreError>(content1),
        s3.get(id2) == Ok::<Seq<u8>, StoreError>(content2),
{
    assert(s1.entries.contains_key(id1));
}

/// A lookup of a safe identifier under which nothing was stored answers
/// that the paste was not found: it is no storage failure and gives no
/// content.
pub proof fn lemma_unknown_not_found(s: StoreModel, id: Seq<char>)
    requires
        safe_identifier(id),
        !s.entries.contains_key(id),
    ensures
        s.get(id) == Err::<Seq<u8>, StoreError>(StoreError::NotFound),
{
}

/// Putting the root in place twice is the same as doing it once, and neither
/// call touches an entry.
pub proof fn lemma_ensure_root_idempotent(s: StoreModel)
    ensures
        s.ensure_root().ensure_root() == s.ensure_root(),
        s.ensure_root().entries == s.entries,
        s.valid() ==> s.ensure_root().valid(),
{
}

/// Every operation leads from a valid store to a valid one: no entry ever
/// gets an identifier that is not safe, and nothing is stored without a root.
pub proof fn lemma_operations_keep_valid(
    s: StoreModel,
    id: Seq<char>,
    content: Seq<u8>,
    candidates: Seq<Seq<char>>,
)
    requires
        s.valid(),
    ensures
        StoreModel::empty().valid(),
        s.ensure_root().valid(),
        s.create_new(id, content).0.valid(),
        s.put_with(candidates, content).0.valid(),
{
    lemma_put_with_stores(s, candidates, content);
}

/// Whether `id` holds a step to the parent directory: two dots and a path
/// separator in a row.
pub open spec fn holds_parent_step(id: Seq<char>) -> bool {
    exists|i: int|
        0 <= i && i + 2 < id.len() && #[trigger] id[i] == '.' && id[i + 1] == '.' && (id[i + 2]
            == '/' || id[i + 2] == '\\')
}

/// Whether `id` is an absolute path: it starts at a path separator.
pub open spec fn is_absolute(id: Seq<char>) -> bool {
    id.len() > 0 && (id[0] == '/' || id[0] == '\\')
}

/// Containment: an identifier that steps to a parent directory, or is an
/// absolute path, is no safe identifier. A lookup turns it down as invalid
/// whatever the store holds, an exclusive create under it fails and stores
/// nothing, and a put that draws it never hands it to the storage.
pub proof fn lemma_traversal_rejected(
    s: StoreModel,
    candidate: String,
    content: Seq<u8>,
    tried: usize,
)
    requires
        holds_parent_step(candidate@) || is_absolute(candidate@) || candidate@ == seq!['.', '.'],
    ensures
        !safe_identifier(candidate@),
        s.get(candidate@) == Err::<Seq<u8>, StoreError>(StoreError::Invalid),
        s.create_new(candidate@, content) == (s, CreateOutcome::Failed),
        !((PutStep::Draw { tried }).offered(candidate) is Create),
{
    let id = candidate@;
    if holds_parent_step(id) {
        let i = choose|i: int|
            0 <= i && i + 2 < id.len() && #[trigger] id[i] == '.' && id[i + 1] == '.' && (id[i + 2]
                == '/' || id[i + 2] == '\\');
        assert(crate::name::is_forbidden(id[i + 2]));
    } else if is_absolute(id) {
        assert(crate::name::is_forbidden(id[0]));
    }
}

/// One request to create an entry unless it exists.
pub struct CreateRequest {
    pub id: Seq<char>,
    pub content: Seq<u8>,
}

/// The store after the requests were served one after the other.
pub open spec fn served(s: StoreModel, requests: Seq<CreateRequest>) -> StoreModel
    decreases requests.len(),
{
    if requests.len() == 0 {
        s
    } else {
        served(s, requests.drop_last()).create_new(requests.last().id, requests.last().content).0
    }
}

/// What the request at position `k` was answered.
pub open spec fn answer(s: StoreModel, requests: Seq<CreateRequest>, k: int) -> CreateOutcome {
    served(s, requests.take(k)).create_new(requests[k].id, requests[k].content).1
}

/// Serving requests never loses an entry.
pub proof fn lemma_served_extends(s: StoreModel, requests: Seq<CreateRequest>)
    ensures
        served(s, requests).extends(s),
    decreases requests.len(),
{
    if requests.len() > 0 {
        lemma_served_extends(s, requests.drop_last());
    }
}

/// Serving a longer run of requests extends what a shorter run led to.
pub proof fn lemma_served_prefix(s: StoreModel, requests: Seq<CreateRequest>, k: int)
    requires
        0 <= k <= requests.len(),
    ensures
        served(s, requests).extends(served(s, requests.take(k))),
    decreases requests.len() - k,
{
    if k == requests.len() {
        assert(requests.take(k) =~= requests);
    } else {
        let shorter = requests.drop_last();
        assert(shorter.take(k) =~= requests.take(k));
        lemma_served_prefix(s, shorter, k);
        lemma_extends_transitive(served(s, requests.take(k)), served(s, shorter), served(s, requests));
    }
}

/// The store right after the request at position `i` was served holds its
/// identifier, if the request was answered `Created`.
proof fn lemma_created_is_held(s: StoreModel, requests: Seq<CreateRequest>, i: int)
    requires
        0 <= i < requests.len(),
        answer(s, requests, i) == CreateOutcome::Created,
    ensures
        safe_identifier(requests[i].id),
        served(s, requests.take(i + 1)).entries.contains_key(requests[i].id),
        served(s, requests.take(i + 1)).entries[requests[i].id] == requests[i].content,
{
    let just_after = requests.take(i + 1);
    assert(just_after.drop_last() =~= requests.take(i));
    assert(just_after.last() == requests[i]);
}

/// No writer is overwritten: however the create requests of many puts are
/// interleaved, once all are served every request that was answered
/// `Created`, the last one too, still reads back the content it stored.
pub proof fn lemma_created_reads_back(s: StoreModel, requests: Seq<CreateRequest>, i: int)
    requires
        0 <= i < requests.len(),
        answer(s, requests, i) == CreateOutcome::Created,
    ensures
        served(s, requests).get(requests[i].id) == Ok::<Seq<u8>, StoreError>(requests[i].content),
{
    lemma_created_is_held(s, requests, i);
    lemma_served_prefix(s, requests, i + 1);
}

/// Writers do not collide: however the create requests of many puts are
/// interleaved, no two of them are both answered `Created` for one
/// identifier.
pub proof fn lemma_writers_do_not_collide(
    s: StoreModel,
    requests: Seq<CreateRequest>,
    i: int,
    j: int,
)
    requires
        0 <= i < j < requests.len(),
        answer(s, requests, i) == CreateOutcome::Created,
        answer(s, requests, j) == CreateOutcome::Created,
    ensures
        requests[i].id != requests[j].id,
{
    lemma_created_is_held(s, requests, i);
    assert(requests.take(j).take(i + 1) =~= requests.take(i + 1));
    lemma_served_prefix(s, requests.take(j), i + 1);
    assert(served(s, requests.take(j)).entries.contains_key(requests[i].id));
}

} // verus!
