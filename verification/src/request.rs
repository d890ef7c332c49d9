//! What an upload request is allowed to store.
//!
//! Writing is open to whoever presents the shared secret token; reading is
//! open to all. An upload arrives as a form of named parts, each a run of
//! chunks; the paste is what was received for the first part that carries
//! the upload's field name, all of its chunks.

use vstd::prelude::*;
use vstd::utf8::encode_utf8;
use vstd::string::StringSliceAdditionalSpecFns;
use crate::seqs::first_where;
use crate::seqs::lemma_first_where;
use crate::store::StoreError;

verus! {

/// Name of the request header that carries the secret token.
pub const SECRET_TOKEN_HEADER: &'static str = "X-Secret-Token";

/// Name of the form field that carries the paste.
pub const MULTIPART_FIELD_NAME: &'static str = "baste_file";

/// What the request handlers share: the token that opens the store for
/// writing, and the directory that holds the pastes.
#[derive(Clone, Debug, Default)]
pub struct PasteManager {
    pub secret_token: String,
    pub storage_path: String,
}

/// One part of an upload form: its field name and the chunks received for it.
#[derive(Debug)]
pub struct Part {
    pub name: String,
    pub chunks: Vec<Vec<u8>>,
}

/// Why an upload was turned down before anything was stored.
#[derive(Clone, Copy, Debug, PartialEq, Eq, Structural)]
pub enum Rejection {
    /// The request carries no secret token.
    MissingToken,
    /// The token presented is not the secret token.
    WrongToken,
    /// No part of the form carries a paste.
    NoPayload,
    /// The paste is empty.
    EmptyPayload,
}

/// Whether `part` carries a paste: it has the upload's field name and at
/// least one chunk.
pub open spec fn carries_paste(part: Part) -> bool {
    part.name@ == MULTIPART_FIELD_NAME@ && part.chunks@.len() > 0
}

/// Whether a request that presents `token` may write: the token is there and
/// is, byte for byte, the secret.
pub open spec fn authorized(secret: Seq<char>, token: Option<Seq<u8>>) -> Result<(), Rejection> {
    match token {
        None => Err(Rejection::MissingToken),
        Some(t) => if t == encode_utf8(secret) {
            Ok(())
        } else {
            Err(Rejection::WrongToken)
        },
    }
}

/// The chunks put one after the other.
pub open spec fn chained(chunks: Seq<Vec<u8>>) -> Seq<u8>
    decreases chunks.len(),
{
    if chunks.len() == 0 {
        Seq::empty()
    } else {
        chained(chunks.drop_last()) + chunks.last()@
    }
}

/// What an upload stores: for an authorized request, all that was received
/// for the first part that carries a paste, its chunks in the order they
/// came, unless that is no byte at all.
pub open spec fn accepted(secret: Seq<char>, token: Option<Seq<u8>>, parts: Seq<Part>) -> Result<
    Seq<u8>,
    Rejection,
> {
    match authorized(secret, token) {
        Err(e) => Err(e),
        Ok(_) => match first_where(parts, |p: Part| carries_paste(p)) {
            None => Err(Rejection::NoPayload),
            Some(i) => if chained(parts[i].chunks@).len() == 0 {
                Err(Rejection::EmptyPayload)
            } else {
                Ok(chained(parts[i].chunks@))
            },
        },
    }
}

/// The bytes of an optional slice.
pub open spec fn bytes_in(token: Option<&[u8]>) -> Option<Seq<u8>> {
    match token {
        Some(t) => Some(t@),
        None => None,
    }
}

/// The bytes of the payload an upload was accepted with.
pub open spec fn payload_of(r: Result<Vec<u8>, Rejection>) -> Result<Seq<u8>, Rejection> {
    match r {
        Ok(payload) => Ok(payload@),
        Err(e) => Err(e),
    }
}

/// Whether two slices hold the same bytes.
fn same_bytes(a: &[u8], b: &[u8]) -> (same: bool)
    ensures
        same == (a@ == b@),
{
    if a.len() != b.len() {
        return false;
    }
    let mut i: usize = 0;
    while i < a.len()
        invariant
            a@.len() == b@.len(),
            i <= a@.len(),
            forall|j: int| 0 <= j < i ==> a@[j] == b@[j],
        decreases a@.len() - i,
    {
        if a[i] != b[i] {
            return false;
        }
        i += 1;
    }
    assert(a@ =~= b@);
    true
}

/// Whether the characters of `a` are those of `b`.
fn same_text(a: &str, b: &str) -> (same: bool)
    ensures
        same == (a@ == b@),
{
    let same = same_bytes(a.as_bytes(), b.as_bytes());
    proof {
        if a.spec_bytes() == b.spec_bytes() {
            vstd::utf8::encode_utf8_decode_utf8(a@);
            vstd::utf8::encode_utf8_decode_utf8(b@);
        }
    }
    same
}

impl PasteManager {
    /// Decides whether a request may write, from the token it presented.
    pub fn authorize(&self, token: Option<&[u8]>) -> (r: Result<(), Rejection>)
        ensures
            r == authorized(self.secret_token@, bytes_in(token)),
    {
        match token {
            None => Err(Rejection::MissingToken),
            Some(t) => {
                if same_bytes(self.secret_token.as_str().as_bytes(), t) {
                    Ok(())
                } else {
                    Err(Rejection::WrongToken)
                }
            },
        }
    }
}

/// Whether the chunks of a form field of that name are wanted: they are for
/// the field that carries the paste, and for no other.
pub fn wants_chunks(name: &str) -> (wanted: bool)
    ensures
        wanted == (name@ == MULTIPART_FIELD_NAME@),
{
    same_text(name, MULTIPART_FIELD_NAME)
}

/// Puts the chunks of one part together, in the order they came.
fn chain(chunks: &Vec<Vec<u8>>) -> (whole: Vec<u8>)
    ensures
        whole@ == chained(chunks@),
{
    let mut whole: Vec<u8> = Vec::new();
    let mut i: usize = 0;
    while i < chunks.len()
        invariant
            i <= chunks@.len(),
            whole@ == chained(chunks@.take(i as int)),
        decreases chunks@.len() - i,
    {
        assert(chunks@.take(i + 1).drop_last() =~= chunks@.take(i as int));
        whole.extend_from_slice(chunks[i].as_slice());
        i += 1;
    }
    assert(chunks@.take(i as int) =~= chunks@);
    whole
}

/// Decides what an upload request stores. The request must present the
/// secret token. Parts with another field name are passed over, and so is a
/// part without a chunk; the first part that carries a paste gives the paste,
/// which is every chunk received for it, in order. An empty paste is turned
/// down.
pub fn paste(manager: &PasteManager, token: Option<&[u8]>, parts: &Vec<Part>) -> (r: Result<
    Vec<u8>,
    Rejection,
>)
    ensures
        payload_of(r) == accepted(manager.secret_token@, bytes_in(token), parts@),
{
    match manager.authorize(token) {
        Err(e) => {
            return Err(e);
        },
        Ok(_) => {},
    }
    proof {
        lemma_first_where(parts@, |p: Part| carries_paste(p));
    }
    let mut i: usize = 0;
    while i < parts.len()
        invariant
            authorized(manager.secret_token@, bytes_in(token)) is Ok,
            i <= parts@.len(),
            forall|j: int| 0 <= j < i ==> !carries_paste(#[trigger] parts@[j]),
        decreases parts@.len() - i,
    {
        let part = &parts[i];
        if wants_chunks(part.name.as_str()) && part.chunks.len() > 0 {
            proof {
                lemma_first_where(parts@, |p: Part| carries_paste(p));
            }
            let payload = chain(&part.chunks);
            if payload.len() == 0 {
                return Err(Rejection::EmptyPayload);
            }
            return Ok(payload);
        }
        i += 1;
    }
    Err(Rejection::NoPayload)
}

/// The HTTP status that tells a client of `rejection`: every one of them is
/// a fault of the request.
pub fn rejection_status(rejection: Rejection) -> (status: u16)
    ensures
        status == 400,
{
    400
}

/// The HTTP status for each way the store can fail.
pub open spec fn status_of(error: StoreError) -> u16 {
    match error {
        StoreError::NotFound => 404,
        StoreError::Invalid => 400,
        StoreError::Storage => 500,
        StoreError::Exhausted => 500,
    }
}

/// The HTTP status that tells a client of `error`: a paste that is not there
/// is told apart from a request that is malformed and from a fault of the
/// service.
pub fn store_error_status(error: StoreError) -> (status: u16)
    ensures
        status == status_of(error),
{
    match error {
        StoreError::NotFound => 404,
        StoreError::Invalid => 400,
        StoreError::Storage => 500,
        StoreError::Exhausted => 500,
    }
}

} // verus!
