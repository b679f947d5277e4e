//! The registry's laws, stated and proved over the model's transition
//! functions. The executable operations' contracts tie them to these
//! transitions, so each law carries over to the running registry.

use vstd::prelude::*;

use crate::model::Error;
use crate::model::TagRecord;
use crate::model::fresh_record;
use crate::model::spec_claim_item;
use crate::model::spec_get_tag_info;
use crate::model::spec_register;
use crate::model::spec_report_found;

verus! {

/// Registration is unique and append-only: once a registration of
/// `tag_id` by `owner` has succeeded, a later registration attempt for the
/// same tag id by any authorized `other_owner` is refused with
/// `AlreadyRegistered`, the ledger is left unchanged, and the record keeps
/// its original owner. (An attempt lacking authorization is refused even
/// earlier, with `Unauthorized`, and changes nothing either.)
pub proof fn lemma_registration_unique(
    ledger: Map<Seq<char>, TagRecord>,
    owner: Seq<char>,
    tag_id: Seq<char>,
    other_owner: Seq<char>,
)
    requires
        spec_register(ledger, owner, owner, tag_id).1 is Ok,
    ensures
        spec_register(spec_register(ledger, owner, owner, tag_id).0, other_owner, other_owner, tag_id).1
            == Err::<(), Error>(Error::AlreadyRegistered),
        spec_register(spec_register(ledger, owner, owner, tag_id).0, other_owner, other_owner, tag_id).0
            == spec_register(ledger, owner, owner, tag_id).0,
        spec_register(ledger, owner, owner, tag_id).0[tag_id].owner == owner,
{
}

/// The registration gate: a register call not authorized by the declared
/// owner is refused with `Unauthorized` and leaves the ledger unchanged,
/// whatever the ledger holds.
pub proof fn lemma_register_requires_owner_auth(
    ledger: Map<Seq<char>, TagRecord>,
    caller: Seq<char>,
    owner: Seq<char>,
    tag_id: Seq<char>,
)
    requires
        caller != owner,
    ensures
        spec_register(ledger, caller, owner, tag_id) == (ledger, Err::<(), Error>(
            Error::Unauthorized,
        )),
{
}

/// The claim gate: a claim of a registered tag not authorized by the
/// identity stored on the tag's record is refused with `Unauthorized` and
/// leaves the ledger unchanged — the caller cannot substitute an identity
/// of their own for the stored owner.
pub proof fn lemma_claim_requires_stored_owner_auth(
    ledger: Map<Seq<char>, TagRecord>,
    caller: Seq<char>,
    tag_id: Seq<char>,
)
    requires
        ledger.contains_key(tag_id),
        caller != ledger[tag_id].owner,
    ensures
        spec_claim_item(ledger, caller, tag_id) == (ledger, Err::<(), Error>(Error::Unauthorized)),
{
}

/// The anonymous report: no gate is consulted, so a report succeeds
/// exactly when the tag is registered, and is refused with `NotRegistered`,
/// the ledger unchanged, otherwise.
pub proof fn lemma_anonymous_report(
    ledger: Map<Seq<char>, TagRecord>,
    tag_id: Seq<char>,
    message: Seq<char>,
)
    ensures
        ledger.contains_key(tag_id) ==> spec_report_found(ledger, tag_id, message).1 == Ok::<
            (),
            Error,
        >(()),
        !ledger.contains_key(tag_id) ==> spec_report_found(ledger, tag_id, message) == (
            ledger,
            Err::<(), Error>(Error::NotRegistered),
        ),
{
}

/// The state round-trip: for any registered tag, a claim authorized by the
/// stored owner, made after a report, succeeds and restores status `Okay`
/// and an empty message — independent of the reported message.
pub proof fn lemma_report_claim_round_trip(
    ledger: Map<Seq<char>, TagRecord>,
    tag_id: Seq<char>,
    message: Seq<char>,
)
    requires
        ledger.contains_key(tag_id),
    ensures
        ({
            let reported = spec_report_found(ledger, tag_id, message).0;
            let claimed = spec_claim_item(reported, ledger[tag_id].owner, tag_id);
            claimed.1 == Ok::<(), Error>(()) && claimed.0[tag_id] == fresh_record(
                ledger[tag_id].owner,
            )
        }),
{
}

/// Query purity: what a query returns is a function of the ledger and the
/// tag id alone, so two queries of an unchanged ledger agree. (That a
/// query changes nothing is already in `get_tag_info`'s signature: it
/// takes the registry by shared reference.)
pub proof fn lemma_query_pure(
    ledger_before: Map<Seq<char>, TagRecord>,
    ledger_after: Map<Seq<char>, TagRecord>,
    tag_id: Seq<char>,
)
    requires
        ledger_before == ledger_after,
    ensures
        spec_get_tag_info(ledger_before, tag_id) == spec_get_tag_info(ledger_after, tag_id),
{
}

} // verus!
