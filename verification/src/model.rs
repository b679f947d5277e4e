//! The mathematical model of the registry: the ledger as a map from tag
//! identifier to tag record, and one transition function per operation.
//! The executable registry promises in its contracts to follow these
//! transitions exactly, and the library's laws are proved over them.

use vstd::prelude::*;

verus! {

/// Public status of a registered tag: `Okay` until a finder reports it,
/// `Found` until the owner claims it back.
#[derive(Clone, Copy, Debug, PartialEq, Eq, Structural)]
pub enum TagStatus {
    Okay,
    Found,
}

/// Why an operation was refused. Every precondition violation surfaces as
/// one of these; a failed operation never changes the ledger.
#[derive(Clone, Copy, Debug, PartialEq, Eq, Structural)]
pub enum Error {
    /// The call was not authorized by the required identity (the declared
    /// owner for registration, the stored owner for a claim).
    Unauthorized,
    /// Registration addressed a tag id that already has a record.
    AlreadyRegistered,
    /// An operation other than registration addressed a tag id with no
    /// record.
    NotRegistered,
}

/// One tag's record as specifications see it: the owning identity, the
/// public status, and the finder's message.
#[verifier::ext_equal]
pub ghost struct TagRecord {
    pub owner: Seq<char>,
    pub status: TagStatus,
    pub message: Seq<char>,
}

/// The record a fresh or freshly claimed tag carries: status `Okay`, no
/// message.
pub open spec fn fresh_record(owner: Seq<char>) -> TagRecord {
    TagRecord { owner, status: TagStatus::Okay, message: Seq::empty() }
}

/// Registration: authorization comes first (the caller must be the
/// identity being recorded as owner), then the tag id must be unbound.
/// On success a fresh record is appended; on failure the ledger is
/// returned unchanged.
pub open spec fn spec_register(
    ledger: Map<Seq<char>, TagRecord>,
    caller: Seq<char>,
    owner: Seq<char>,
    tag_id: Seq<char>,
) -> (Map<Seq<char>, TagRecord>, Result<(), Error>) {
    if caller != owner {
        (ledger, Err(Error::Unauthorized))
    } else if ledger.contains_key(tag_id) {
        (ledger, Err(Error::AlreadyRegistered))
    } else {
        (ledger.insert(tag_id, fresh_record(owner)), Ok(()))
    }
}

/// An anonymous finder's report: no gate. The record keeps its owner,
/// turns `Found`, and takes the message, overwriting any prior one.
pub open spec fn spec_report_found(
    ledger: Map<Seq<char>, TagRecord>,
    tag_id: Seq<char>,
    message: Seq<char>,
) -> (Map<Seq<char>, TagRecord>, Result<(), Error>) {
    if !ledger.contains_key(tag_id) {
        (ledger, Err(Error::NotRegistered))
    } else {
        (
            ledger.insert(
                tag_id,
                TagRecord { owner: ledger[tag_id].owner, status: TagStatus::Found, message },
            ),
            Ok(()),
        )
    }
}

/// A query: a copy of the record, or `NotRegistered`. No gate, no write.
pub open spec fn spec_get_tag_info(
    ledger: Map<Seq<char>, TagRecord>,
    tag_id: Seq<char>,
) -> Result<TagRecord, Error> {
    if ledger.contains_key(tag_id) {
        Ok(ledger[tag_id])
    } else {
        Err(Error::NotRegistered)
    }
}

/// A claim: the record must exist and the caller must be its stored owner;
/// the record is then reset to status `Okay` with an empty message. Claiming
/// a record that is already `Okay` is deliberately permitted.
pub open spec fn spec_claim_item(
    ledger: Map<Seq<char>, TagRecord>,
    caller: Seq<char>,
    tag_id: Seq<char>,
) -> (Map<Seq<char>, TagRecord>, Result<(), Error>) {
    if !ledger.contains_key(tag_id) {
        (ledger, Err(Error::NotRegistered))
    } else if caller != ledger[tag_id].owner {
        (ledger, Err(Error::Unauthorized))
    } else {
        (ledger.insert(tag_id, fresh_record(ledger[tag_id].owner)), Ok(()))
    }
}

} // verus!
