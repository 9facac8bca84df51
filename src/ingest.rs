//! Admission of submissions: the body-size cap, the photo form's `data` field,
//! and the status each outcome is answered with.

use vstd::prelude::*;
use crate::payload::PhotoPayload;

verus! {

/// Largest request body accepted, in bytes.
pub const MAX_BODY_BYTES: usize = 50 * 1024 * 1024;

/// Name of the form field that carries the image.
pub const PHOTO_FIELD: &'static str = "data";

/// One field of a multipart form, as read from the request.
pub struct FormField {
    pub name: String,
    pub bytes: Vec<u8>,
}

/// Why a submission was refused.
#[derive(Clone, Copy, PartialEq, Eq, Debug)]
pub enum IngestError {
    /// The body is larger than the cap.
    TooLarge,
    /// The photo form has no `data` field.
    MissingData,
    /// The body is not a well-formed submission of its kind.
    Malformed,
}

pub open spec fn fields_view(fields: Seq<FormField>) -> Seq<(Seq<char>, Seq<u8>)> {
    fields.map_values(|f: FormField| (f.name@, f.bytes@))
}

/// The bytes of the last field named `data`, if there is one.
pub open spec fn photo_field_of(fields: Seq<(Seq<char>, Seq<u8>)>) -> Option<Seq<u8>>
    decreases fields.len(),
{
    if fields.len() == 0 {
        None
    } else if fields.last().0 == PHOTO_FIELD@ {
        Some(fields.last().1)
    } else {
        photo_field_of(fields.drop_last())
    }
}

/// What admitting a photo submission of `body_len` bytes with these fields yields.
pub open spec fn photo_admission(body_len: int, fields: Seq<(Seq<char>, Seq<u8>)>) -> Result<Seq<u8>, IngestError> {
    if body_len > MAX_BODY_BYTES {
        Err(IngestError::TooLarge)
    } else {
        match photo_field_of(fields) {
            Some(b) => Ok(b),
            None => Err(IngestError::MissingData),
        }
    }
}

pub open spec fn status_of(r: Option<IngestError>) -> u16 {
    match r {
        None => 200,
        Some(IngestError::TooLarge) => 413,
        Some(_) => 400,
    }
}

/// Refuses a body over the cap, before anything reads its contents.
pub fn admit_body(body_len: usize) -> (r: Result<(), IngestError>)
    ensures
        r is Err <==> body_len > MAX_BODY_BYTES,
        r matches Err(e) ==> e == IngestError::TooLarge,
{
    if body_len > MAX_BODY_BYTES {
        Err(IngestError::TooLarge)
    } else {
        Ok(())
    }
}

/// The photo carried by a form: the last field named `data`; other fields are ignored.
pub fn decode_photo(fields: &Vec<FormField>) -> (r: Result<PhotoPayload, IngestError>)
    ensures
        match (r, photo_field_of(fields_view(fields@))) {
            (Ok(p), Some(b)) => p.bytes@ == b,
            (Err(e), None) => e == IngestError::MissingData,
            _ => false,
        },
{
    let ghost all = fields_view(fields@);
    let data = String::from_str(PHOTO_FIELD);
    let mut i: usize = fields.len();
    proof {
        assert(all.take(i as int) == all);
    }
    while i > 0
        invariant
            all == fields_view(fields@),
            data@ == PHOTO_FIELD@,
            i <= fields.len(),
            photo_field_of(all) == photo_field_of(all.take(i as int)),
        decreases i,
    {
        let f = &fields[i - 1];
        proof {
            let t = all.take(i as int);
            assert(t.drop_last() == all.take(i - 1));
            assert(t.last() == (f.name@, f.bytes@));
            if f.name@ == PHOTO_FIELD@ {
                assert(photo_field_of(t) == Some(f.bytes@));
            } else {
                assert(photo_field_of(t) == photo_field_of(all.take(i - 1)));
            }
        }
        if f.name == data {
            let bytes = f.bytes.clone();
            proof {
                assert(bytes@ =~= f.bytes@);
            }
            return Ok(PhotoPayload { bytes });
        }
        i = i - 1;
    }
    Err(IngestError::MissingData)
}

/// Admits a photo submission: the size cap first, then the form's `data` field.
pub fn ingest_photo(body_len: usize, fields: &Vec<FormField>) -> (r: Result<PhotoPayload, IngestError>)
    ensures
        match (r, photo_admission(body_len as int, fields_view(fields@))) {
            (Ok(p), Ok(b)) => p.bytes@ == b,
            (Err(e), Err(f)) => e == f,
            _ => false,
        },
{
    match admit_body(body_len) {
        Err(e) => Err(e),
        Ok(()) => decode_photo(fields),
    }
}

/// The HTTP status a submission is answered with.
pub fn status_code(outcome: Option<IngestError>) -> (r: u16)
    ensures
        r == status_of(outcome),
{
    match outcome {
        None => 200,
        Some(IngestError::TooLarge) => 413,
        Some(_) => 400,
    }
}

/// A body over the cap is refused as too large whatever it holds, so no field
/// of it is ever looked at.
pub proof fn lemma_oversized_refused(body_len: int, fields: Seq<(Seq<char>, Seq<u8>)>)
    requires
        body_len > MAX_BODY_BYTES,
    ensures
        photo_admission(body_len, fields) == Err::<Seq<u8>, IngestError>(IngestError::TooLarge),
        status_of(Some(IngestError::TooLarge)) == 413,
{
}

/// A form without a `data` field within the cap is refused as a client error
/// and yields no payload to notify about.
pub proof fn lemma_missing_data_refused(body_len: int, fields: Seq<(Seq<char>, Seq<u8>)>)
    requires
        body_len <= MAX_BODY_BYTES,
        forall|i: int| 0 <= i < fields.len() ==> fields[i].0 != PHOTO_FIELD@,
    ensures
        photo_admission(body_len, fields) == Err::<Seq<u8>, IngestError>(IngestError::MissingData),
        status_of(Some(IngestError::MissingData)) == 400,
    decreases fields.len(),
{
    if fields.len() > 0 {
        let rest = fields.drop_last();
        assert forall|i: int| 0 <= i < rest.len() implies rest[i].0 != PHOTO_FIELD@ by {
            assert(rest[i] == fields[i]);
        }
        lemma_missing_data_refused(body_len, rest);
    }
}

} // verus!
