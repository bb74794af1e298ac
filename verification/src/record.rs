use vstd::prelude::*;

verus! {

/// Mathematical model of a stored record: its three fields as character
/// sequences.
pub ghost struct RecordModel {
    pub domain: Seq<char>,
    pub owner: Seq<char>,
    pub target: Seq<char>,
}

/// A registry record: the registered domain name (a redundant copy of the
/// lookup key's suffix), the identity credited as its owner, and the current
/// resolution target.
///
/// The owner is immutable after creation; the target may be rewritten, but
/// only through a call authenticated as the owner.
pub struct DomainRecord {
    pub domain: String,
    pub owner: String,
    pub target: String,
}

impl View for DomainRecord {
    type V = RecordModel;

    open spec fn view(&self) -> RecordModel {
        RecordModel { domain: self.domain@, owner: self.owner@, target: self.target@ }
    }
}

impl DomainRecord {
    /// An owned copy of the record, field for field.
    pub fn duplicate(&self) -> (r: DomainRecord)
        ensures
            r@ == self@,
    {
        DomainRecord {
            domain: self.domain.clone(),
            owner: self.owner.clone(),
            target: self.target.clone(),
        }
    }
}

/// The target every domain carries right after registration: the empty
/// string, until the owner sets one.
pub open spec fn default_target() -> Seq<char> {
    Seq::<char>::empty()
}

} // verus!
