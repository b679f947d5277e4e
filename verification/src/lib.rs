//! A lost-and-found tag registry: a keyed ledger binding a physical-item
//! identifier to an owning identity and a public status. Only the owner may
//! create or reset a binding, while anyone may report an item found.

mod model;
mod registry;
mod laws;

pub use model::Error;
pub use model::TagRecord;
pub use model::TagStatus;
pub use model::fresh_record;
pub use model::spec_claim_item;
pub use model::spec_get_tag_info;
pub use model::spec_register;
pub use model::spec_report_found;
pub use registry::SecureTagContract;
pub use registry::TagInfo;
pub use laws::lemma_registration_unique;
pub use laws::lemma_register_requires_owner_auth;
pub use laws::lemma_claim_requires_stored_owner_auth;
pub use laws::lemma_anonymous_report;
pub use laws::lemma_report_claim_round_trip;
pub use laws::lemma_query_pure;
