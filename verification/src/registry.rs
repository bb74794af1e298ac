use vstd::prelude::*;
use crate::keys::{get_domain_full_key, key_of, lemma_key_of_injective};
use crate::record::{default_target, DomainRecord, RecordModel};
use crate::store::StateStore;

verus! {

/// Outcome of a mutating registry operation.
#[derive(Clone, Copy, Debug, PartialEq, Eq, Structural)]
pub enum Status {
    /// The operation took effect.
    Success,
    /// `register` found the domain already taken; nothing changed.
    AlreadyRegistered,
    /// `set_target` was called by an identity other than the owner; nothing
    /// changed.
    Unauthorized,
    /// `set_target` found no record for the domain; nothing changed.
    DomainNotFound,
}

/// The registry state as a map from domain name to its record.
pub type RegistryMap = Map<Seq<char>, RecordModel>;

/// What `register` does to the registry state, and the status it reports:
/// a taken domain is refused untouched; a fresh one gets a record owned by
/// the registrant, with the default target.
pub open spec fn spec_register(m: RegistryMap, domain: Seq<char>, registrant: Seq<char>) -> (
    RegistryMap,
    Status,
) {
    if m.dom().contains(domain) {
        (m, Status::AlreadyRegistered)
    } else {
        (
            m.insert(
                domain,
                RecordModel { domain, owner: registrant, target: default_target() },
            ),
            Status::Success,
        )
    }
}

/// What `set_target` does to the registry state, and the status it reports:
/// an unregistered domain is a defined error, a caller other than the owner
/// changes nothing, and the owner rewrites the target and nothing else.
pub open spec fn spec_set_target(
    m: RegistryMap,
    domain: Seq<char>,
    target: Seq<char>,
    registrant: Seq<char>,
) -> (RegistryMap, Status) {
    if !m.dom().contains(domain) {
        (m, Status::DomainNotFound)
    } else if m[domain].owner != registrant {
        (m, Status::Unauthorized)
    } else {
        (
            m.insert(
                domain,
                RecordModel { domain: m[domain].domain, owner: m[domain].owner, target },
            ),
            Status::Success,
        )
    }
}

/// What `resolve` returns: the stored target of a registered domain, and the
/// empty string for an unregistered one. A registered domain whose target is
/// still the default is thus indistinguishable from an unregistered one.
pub open spec fn spec_resolve(m: RegistryMap, domain: Seq<char>) -> Seq<char> {
    if m.dom().contains(domain) {
        m[domain].target
    } else {
        Seq::<char>::empty()
    }
}

/// A store map read through key derivation: the registry state it encodes.
pub open spec fn domain_view(sm: RegistryMap) -> RegistryMap {
    Map::new(
        |d: Seq<char>| sm.dom().contains(key_of(d)),
        |d: Seq<char>| sm[key_of(d)],
    )
}

/// Writing a record under a domain's derived key inserts it at that domain
/// and, keys being injective, at no other.
proof fn lemma_domain_view_insert(sm: RegistryMap, d: Seq<char>, rec: RecordModel)
    ensures
        domain_view(sm.insert(key_of(d), rec)) == domain_view(sm).insert(d, rec),
{
    let v2 = domain_view(sm.insert(key_of(d), rec));
    let m2 = domain_view(sm).insert(d, rec);
    assert forall|d0: Seq<char>| v2.dom().contains(d0) == m2.dom().contains(d0) by {
        if d0 != d {
            lemma_key_of_injective(d0, d);
        }
    }
    assert forall|d0: Seq<char>| v2.dom().contains(d0) implies v2[d0] == m2[d0] by {
        if d0 != d {
            lemma_key_of_injective(d0, d);
        }
    }
    assert(v2 =~= m2);
}

/// The registration service. It holds the injected state store and exposes
/// the three public operations; its view is the map from registered domain
/// to record.
///
/// Trust boundary: the registrant identity handed to the mutating operations
/// is supplied by the host. The registry performs no authentication of its
/// own; it only compares that identity for equality against the stored
/// owner.
pub struct EnigmaDNSContract {
    store: StateStore,
}

impl View for EnigmaDNSContract {
    type V = RegistryMap;

    closed spec fn view(&self) -> RegistryMap {
        domain_view(self.store@)
    }
}

impl EnigmaDNSContract {
    /// Internal shape of the injected store is intact.
    pub closed spec fn wf(self) -> bool {
        self.store.wf()
    }

    /// A registry in which every domain is still unregistered.
    pub fn new() -> (c: EnigmaDNSContract)
        ensures
            c.wf(),
            c@ == Map::<Seq<char>, RecordModel>::empty(),
    {
        let c = EnigmaDNSContract { store: StateStore::new() };
        proof {
            assert(c@ =~= Map::<Seq<char>, RecordModel>::empty());
        }
        c
    }

    /// The record registered for `domain`, if any.
    pub fn get_info(&self, domain: &str) -> (r: Option<&DomainRecord>)
        requires
            self.wf(),
        ensures
            match r {
                Some(record) => self@.dom().contains(domain@) && record@ == self@[domain@],
                None => !self@.dom().contains(domain@),
            },
    {
        let key = get_domain_full_key(domain);
        self.store.read(&key)
    }

    /// Whether `domain` is registered.
    pub fn is_registered(&self, domain: &str) -> (r: bool)
        requires
            self.wf(),
        ensures
            r == self@.dom().contains(domain@),
    {
        match self.get_info(domain) {
            Some(_) => true,
            None => false,
        }
    }

    /// Registers `domain` to `registrant`: refused with `AlreadyRegistered`
    /// if a record exists (whoever owns it), otherwise a new record with the
    /// default target is persisted and the call reports `Success`. Exactly
    /// one store write happens, and only on the success path.
    pub fn register(&mut self, domain: String, registrant: String) -> (status: Status)
        requires
            old(self).wf(),
        ensures
            final(self).wf(),
            final(self)@ == spec_register(old(self)@, domain@, registrant@).0,
            status == spec_register(old(self)@, domain@, registrant@).1,
    {
        if self.is_registered(domain.as_str()) {
            return Status::AlreadyRegistered;
        }

        let key = get_domain_full_key(domain.as_str());
        let ghost d = domain@;

        let new_info = DomainRecord { domain, owner: registrant, target: String::new() };

        proof {
            lemma_domain_view_insert(self.store@, d, new_info@);
        }
        self.store.write(key, new_info);

        Status::Success
    }

    /// Rewrites the target of `domain` to `target`, provided `registrant`
    /// equals the stored owner: an unregistered domain reports
    /// `DomainNotFound`, a non-owner reports `Unauthorized`, and in both of
    /// those cases no state changes. The owner's call overwrites the full
    /// record — same domain, same owner, new target — and reports `Success`.
    pub fn set_target(&mut self, domain: String, target: String, registrant: String) -> (status:
        Status)
        requires
            old(self).wf(),
        ensures
            final(self).wf(),
            final(self)@ == spec_set_target(old(self)@, domain@, target@, registrant@).0,
            status == spec_set_target(old(self)@, domain@, target@, registrant@).1,
    {
        let cur_info = match self.get_info(domain.as_str()) {
            Some(record) => record.duplicate(),
            None => {
                return Status::DomainNotFound;
            },
        };

        if !(cur_info.owner == registrant) {
            return Status::Unauthorized;
        }

        let key = get_domain_full_key(domain.as_str());
        let ghost d = domain@;

        let new_info = DomainRecord {
            domain: cur_info.domain,
            owner: cur_info.owner,
            target,
        };

        proof {
            lemma_domain_view_insert(self.store@, d, new_info@);
        }
        self.store.write(key, new_info);

        Status::Success
    }

    /// Resolves `domain`: the stored target verbatim if the domain is
    /// registered, the empty string otherwise.
    pub fn resolve(&self, domain: String) -> (target: String)
        requires
            self.wf(),
        ensures
            target@ == spec_resolve(self@, domain@),
    {
        match self.get_info(domain.as_str()) {
            Some(record) => record.target.clone(),
            None => String::new(),
        }
    }
}

/// An unregistered domain resolves to the empty string.
pub proof fn lemma_resolve_unregistered(m: RegistryMap, d: Seq<char>)
    requires
        !m.dom().contains(d),
    ensures
        spec_resolve(m, d) == Seq::<char>::empty(),
{
}

/// Registering a fresh domain succeeds; a second registration, by anyone,
/// is refused and leaves the owner and target from the first call in place.
pub proof fn lemma_register_fresh_then_again(
    m: RegistryMap,
    d: Seq<char>,
    o: Seq<char>,
    o2: Seq<char>,
)
    requires
        !m.dom().contains(d),
    ensures
        ({
            let (m1, st1) = spec_register(m, d, o);
            let (m2, st2) = spec_register(m1, d, o2);
            st1 == Status::Success && st2 == Status::AlreadyRegistered && m2 == m1
                && m1[d].owner == o && m1[d].target == default_target()
        }),
{
}

/// Right after registration a domain resolves to the default target.
pub proof fn lemma_register_then_resolve_default(m: RegistryMap, d: Seq<char>, o: Seq<char>)
    requires
        !m.dom().contains(d),
    ensures
        spec_resolve(spec_register(m, d, o).0, d) == default_target(),
{
}

/// The registrant of a fresh domain may set its target: the call succeeds
/// and the domain then resolves to the new target.
pub proof fn lemma_register_then_set_target_by_owner(
    m: RegistryMap,
    d: Seq<char>,
    t: Seq<char>,
    o: Seq<char>,
)
    requires
        !m.dom().contains(d),
    ensures
        ({
            let m1 = spec_register(m, d, o).0;
            let (m2, st) = spec_set_target(m1, d, t, o);
            st == Status::Success && spec_resolve(m2, d) == t
        }),
{
}

/// A caller other than the owner cannot change a registered domain: the call
/// reports `Unauthorized`, the state is untouched, and the domain resolves
/// as before.
pub proof fn lemma_set_target_wrong_owner(
    m: RegistryMap,
    d: Seq<char>,
    t: Seq<char>,
    o2: Seq<char>,
)
    requires
        m.dom().contains(d),
        m[d].owner != o2,
    ensures
        spec_set_target(m, d, t, o2) == (m, Status::Unauthorized),
        spec_resolve(spec_set_target(m, d, t, o2).0, d) == spec_resolve(m, d),
{
}

/// Setting the target of an unregistered domain, by anyone, is the defined
/// error `DomainNotFound` and changes nothing.
pub proof fn lemma_set_target_unregistered(
    m: RegistryMap,
    d: Seq<char>,
    t: Seq<char>,
    o: Seq<char>,
)
    requires
        !m.dom().contains(d),
    ensures
        spec_set_target(m, d, t, o) == (m, Status::DomainNotFound),
{
}

/// An owner is immutable: neither operation, with any arguments, changes the
/// owner of a domain that is already registered.
pub proof fn lemma_owner_immutable(
    m: RegistryMap,
    d: Seq<char>,
    d2: Seq<char>,
    t: Seq<char>,
    o: Seq<char>,
)
    requires
        m.dom().contains(d),
    ensures
        spec_register(m, d2, o).0[d].owner == m[d].owner,
        spec_set_target(m, d2, t, o).0[d].owner == m[d].owner,
{
}

/// A record is never deleted: a domain registered before any call to either
/// operation is still registered after it.
pub proof fn lemma_registered_forever(
    m: RegistryMap,
    d: Seq<char>,
    d2: Seq<char>,
    t: Seq<char>,
    o: Seq<char>,
)
    requires
        m.dom().contains(d),
    ensures
        spec_register(m, d2, o).0.dom().contains(d),
        spec_set_target(m, d2, t, o).0.dom().contains(d),
{
}

} // verus!
