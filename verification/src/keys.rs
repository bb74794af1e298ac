use vstd::prelude::*;
use vstd::string::StringExecFns;

verus! {

/// Storage-key derivation: the key for a domain is a fixed namespace prefix
/// followed by the domain name itself.
pub open spec fn key_of(domain: Seq<char>) -> Seq<char> {
    "domain_name."@ + domain
}

/// Derives the storage key under which a domain's record is persisted.
pub fn get_domain_full_key(domain: &str) -> (key: String)
    ensures
        key@ == key_of(domain@),
{
    let mut key = String::from_str("domain_name.");
    key.append(domain);
    key
}

/// Distinct domain names derive distinct storage keys: prepending one fixed
/// prefix to every domain is injective, so no two domains can collide on a
/// key, whatever characters the domain names contain.
pub proof fn lemma_key_of_injective(d1: Seq<char>, d2: Seq<char>)
    requires
        d1 != d2,
    ensures
        key_of(d1) != key_of(d2),
{
    if key_of(d1) == key_of(d2) {
        let p = "domain_name."@;
        assert(p + d1 == p + d2);
        assert((p + d1).len() == p.len() + d1.len());
        assert((p + d2).len() == p.len() + d2.len());
        assert(d1.len() == d2.len());
        assert forall|i: int| 0 <= i < d1.len() implies d1[i] == d2[i] by {
            assert((p + d1)[p.len() + i] == d1[i]);
            assert((p + d2)[p.len() + i] == d2[i]);
        }
        assert(d1 =~= d2);
    }
}

} // verus!
