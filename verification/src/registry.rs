//! The executable registry: a ledger of tag entries with unique tag ids,
//! and the four operations of the state machine. Each operation's contract
//! says that the ledger and the returned value follow the model's
//! transition function exactly.
//!
//! Authorization is handed in as a plain value: `caller` is the identity
//! that the surrounding host has already authenticated for the current
//! call. The registry compares it against the required identity and
//! refuses the operation with `Unauthorized` on a mismatch.

use vstd::prelude::*;

use crate::model::Error;
use crate::model::TagRecord;
use crate::model::TagStatus;
use crate::model::spec_claim_item;
use crate::model::spec_get_tag_info;
use crate::model::spec_register;
use crate::model::spec_report_found;

verus! {

/// A copy of one tag's record, as handed to callers of `get_tag_info`.
#[derive(Debug)]
pub struct TagInfo {
    /// The identity recorded as controlling the tag.
    pub owner: String,
    /// The tag's public status.
    pub status: TagStatus,
    /// The finder's message; meaningful only while `status` is `Found`.
    pub message: String,
}

impl View for TagInfo {
    type V = TagRecord;

    open spec fn view(&self) -> TagRecord {
        TagRecord { owner: self.owner@, status: self.status, message: self.message@ }
    }
}

/// One stored binding: a tag id and its record.
struct TagEntry {
    tag_id: String,
    info: TagInfo,
}

/// No two entries bind the same tag id.
spec fn unique_keys(s: Seq<TagEntry>) -> bool {
    forall|i: int, j: int| 0 <= i < j < s.len() ==> s[i].tag_id@ != s[j].tag_id@
}

/// The ledger a sequence of entries stands for, later entries shadowing
/// earlier ones (with unique keys nothing is ever shadowed).
spec fn entries_model(s: Seq<TagEntry>) -> Map<Seq<char>, TagRecord>
    decreases s.len(),
{
    if s.len() == 0 {
        Map::empty()
    } else {
        entries_model(s.drop_last()).insert(s.last().tag_id@, s.last().info@)
    }
}

/// A key is bound in the model exactly when some entry carries it.
proof fn lemma_model_contains(s: Seq<TagEntry>, t: Seq<char>)
    ensures
        entries_model(s).contains_key(t) <==> (exists|i: int|
            0 <= i < s.len() && s[i].tag_id@ == t),
    decreases s.len(),
{
    if s.len() > 0 {
        let prefix = s.drop_last();
        lemma_model_contains(prefix, t);
        assert(forall|i: int| 0 <= i < prefix.len() ==> prefix[i] == s[i]);
        if s.last().tag_id@ == t {
            assert(s[s.len() - 1].tag_id@ == t);
        } else {
            if entries_model(s).contains_key(t) {
                let i = choose|i: int| 0 <= i < prefix.len() && prefix[i].tag_id@ == t;
                assert(s[i].tag_id@ == t);
            }
            if exists|i: int| 0 <= i < s.len() && s[i].tag_id@ == t {
                let i = choose|i: int| 0 <= i < s.len() && s[i].tag_id@ == t;
                assert(i != s.len() - 1);
                assert(prefix[i].tag_id@ == t);
            }
        }
    }
}

/// With unique keys, the model binds each entry's key to that entry's
/// record.
proof fn lemma_model_index(s: Seq<TagEntry>, i: int)
    requires
        unique_keys(s),
        0 <= i < s.len(),
    ensures
        entries_model(s).contains_key(s[i].tag_id@),
        entries_model(s)[s[i].tag_id@] == s[i].info@,
    decreases s.len(),
{
    let prefix = s.drop_last();
    if i < s.len() - 1 {
        assert(forall|k: int| 0 <= k < prefix.len() ==> prefix[k] == s[k]);
        lemma_model_index(prefix, i);
        assert(s.last().tag_id@ != s[i].tag_id@);
    }
}

/// Overwriting the entry at a position, key kept, turns the model's
/// binding for that key into the new record and touches nothing else.
proof fn lemma_model_update(s: Seq<TagEntry>, i: int, e: TagEntry)
    requires
        unique_keys(s),
        0 <= i < s.len(),
        e.tag_id@ == s[i].tag_id@,
    ensures
        unique_keys(s.update(i, e)),
        entries_model(s.update(i, e)) == entries_model(s).insert(e.tag_id@, e.info@),
    decreases s.len(),
{
    let s2 = s.update(i, e);
    assert(forall|k: int| 0 <= k < s.len() ==> s2[k].tag_id@ == s[k].tag_id@);
    let prefix = s.drop_last();
    if i == s.len() - 1 {
        assert(s2.drop_last() =~= prefix);
        assert(s2.last() == e);
        assert(entries_model(s2) =~= entries_model(s).insert(e.tag_id@, e.info@));
    } else {
        assert(forall|k: int| 0 <= k < prefix.len() ==> prefix[k] == s[k]);
        lemma_model_update(prefix, i, e);
        assert(s2.drop_last() =~= prefix.update(i, e));
        assert(s2.last() == s.last());
        assert(s.last().tag_id@ != e.tag_id@);
        assert(entries_model(s2) =~= entries_model(s).insert(e.tag_id@, e.info@));
    }
}

/// Appending an entry whose key is unbound keeps the keys unique and adds
/// exactly that binding to the model.
proof fn lemma_model_push(s: Seq<TagEntry>, e: TagEntry)
    requires
        unique_keys(s),
        !entries_model(s).contains_key(e.tag_id@),
    ensures
        unique_keys(s.push(e)),
        entries_model(s.push(e)) == entries_model(s).insert(e.tag_id@, e.info@),
{
    lemma_model_contains(s, e.tag_id@);
    assert(forall|i: int| 0 <= i < s.len() ==> s.push(e)[i] == s[i]);
    assert(s.push(e).drop_last() =~= s);
    assert(s.push(e).last() == e);
    assert(entries_model(s.push(e)) == entries_model(s).insert(e.tag_id@, e.info@));
}

/// The registry: the whole tag ledger, owned exclusively by this value.
pub struct SecureTagContract {
    entries: Vec<TagEntry>,
}

impl View for SecureTagContract {
    type V = Map<Seq<char>, TagRecord>;

    /// The ledger as a map from tag identifier to record.
    closed spec fn view(&self) -> Map<Seq<char>, TagRecord> {
        entries_model(self.entries@)
    }
}

impl SecureTagContract {
    /// The registry's internal invariant: no tag id is bound twice.
    pub closed spec fn well_formed(&self) -> bool {
        unique_keys(self.entries@)
    }

    /// An empty ledger: no tag is registered.
    pub fn new() -> (r: SecureTagContract)
        ensures
            r.well_formed(),
            r@ == Map::<Seq<char>, TagRecord>::empty(),
    {
        SecureTagContract { entries: Vec::new() }
    }

    /// The position of the entry binding `tag_id`, if any.
    fn find(&self, tag_id: &String) -> (r: Option<usize>)
        ensures
            match r {
                Some(i) => i < self.entries@.len() && self.entries@[i as int].tag_id@ == tag_id@,
                None => forall|j: int|
                    0 <= j < self.entries@.len() ==> self.entries@[j].tag_id@ != tag_id@,
            },
    {
        let mut i: usize = 0;
        while i < self.entries.len()
            invariant
                i <= self.entries@.len(),
                forall|j: int| 0 <= j < i ==> self.entries@[j].tag_id@ != tag_id@,
            decreases self.entries@.len() - i,
        {
            if self.entries[i].tag_id == *tag_id {
                return Some(i);
            }
            i = i + 1;
        }
        None
    }

    /// Registers `tag_id` to `owner`: refused with `Unauthorized` when the
    /// call is not authorized by `owner`, with `AlreadyRegistered` when the
    /// tag already has a record; otherwise a fresh `Okay` record is created.
    /// A failed call leaves the ledger untouched.
    pub fn register_tag(&mut self, caller: &String, owner: String, tag_id: String) -> (r: Result<
        (),
        Error,
    >)
        requires
            old(self).well_formed(),
        ensures
            final(self).well_formed(),
            final(self)@ == spec_register(old(self)@, caller@, owner@, tag_id@).0,
            r == spec_register(old(self)@, caller@, owner@, tag_id@).1,
    {
        if !(*caller == owner) {
            return Err(Error::Unauthorized);
        }
        proof {
            lemma_model_contains(self.entries@, tag_id@);
        }
        match self.find(&tag_id) {
            Some(_) => Err(Error::AlreadyRegistered),
            None => {
                let entry = TagEntry {
                    tag_id,
                    info: TagInfo { owner, status: TagStatus::Okay, message: String::new() },
                };
                proof {
                    lemma_model_push(self.entries@, entry);
                }
                self.entries.push(entry);
                Ok(())
            },
        }
    }

    /// Marks a registered tag as found and stores the finder's message,
    /// overwriting any prior one. No gate: anyone may report. Refused with
    /// `NotRegistered`, the ledger untouched, when the tag has no record.
    pub fn report_found(&mut self, tag_id: &String, message: String) -> (r: Result<(), Error>)
        requires
            old(self).well_formed(),
        ensures
            final(self).well_formed(),
            final(self)@ == spec_report_found(old(self)@, tag_id@, message@).0,
            r == spec_report_found(old(self)@, tag_id@, message@).1,
    {
        proof {
            lemma_model_contains(self.entries@, tag_id@);
        }
        match self.find(tag_id) {
            None => Err(Error::NotRegistered),
            Some(i) => {
                proof {
                    lemma_model_index(self.entries@, i as int);
                }
                let entry = TagEntry {
                    tag_id: self.entries[i].tag_id.clone(),
                    info: TagInfo {
                        owner: self.entries[i].info.owner.clone(),
                        status: TagStatus::Found,
                        message,
                    },
                };
                proof {
                    lemma_model_update(self.entries@, i as int, entry);
                }
                self.entries[i] = entry;
                Ok(())
            },
        }
    }

    /// Returns a copy of the tag's record, or `NotRegistered` when the tag
    /// has no record. No gate: the status is deliberately public. Takes the
    /// registry by shared reference, so the ledger cannot change.
    pub fn get_tag_info(&self, tag_id: &String) -> (r: Result<TagInfo, Error>)
        requires
            self.well_formed(),
        ensures
            (match r {
                Ok(info) => Ok(info@),
                Err(e) => Err(e),
            }) == spec_get_tag_info(self@, tag_id@),
    {
        proof {
            lemma_model_contains(self.entries@, tag_id@);
        }
        match self.find(tag_id) {
            None => Err(Error::NotRegistered),
            Some(i) => {
                proof {
                    lemma_model_index(self.entries@, i as int);
                }
                Ok(
                    TagInfo {
                        owner: self.entries[i].info.owner.clone(),
                        status: self.entries[i].info.status,
                        message: self.entries[i].info.message.clone(),
                    },
                )
            },
        }
    }

    /// Resets a tag to status `Okay` with an empty message. The caller must
    /// be the identity stored as the tag's owner, whatever identity a
    /// finder or bystander might offer; otherwise refused with
    /// `Unauthorized`. Refused with `NotRegistered` when the tag has no
    /// record. A failed call leaves the ledger untouched; claiming a tag
    /// that is already `Okay` is permitted.
    pub fn claim_item(&mut self, caller: &String, tag_id: &String) -> (r: Result<(), Error>)
        requires
            old(self).well_formed(),
        ensures
            final(self).well_formed(),
            final(self)@ == spec_claim_item(old(self)@, caller@, tag_id@).0,
            r == spec_claim_item(old(self)@, caller@, tag_id@).1,
    {
        proof {
            lemma_model_contains(self.entries@, tag_id@);
        }
        match self.find(tag_id) {
            None => Err(Error::NotRegistered),
            Some(i) => {
                proof {
                    lemma_model_index(self.entries@, i as int);
                }
                if !(*caller == self.entries[i].info.owner) {
                    return Err(Error::Unauthorized);
                }
                let entry = TagEntry {
                    tag_id: self.entries[i].tag_id.clone(),
                    info: TagInfo {
                        owner: self.entries[i].info.owner.clone(),
                        status: TagStatus::Okay,
                        message: String::new(),
                    },
                };
                proof {
                    lemma_model_update(self.entries@, i as int, entry);
                }
                self.entries[i] = entry;
                Ok(())
            },
        }
    }
}

} // verus!
