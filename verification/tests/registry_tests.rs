use enigmadns::keys::get_domain_full_key;
use enigmadns::registry::{EnigmaDNSContract, Status};

fn s(text: &str) -> String {
    text.to_string()
}

#[test]
fn resolve_unregistered_is_empty() {
    let registry = EnigmaDNSContract::new();
    assert_eq!(registry.resolve(s("nobody.eng")), "");
    assert_eq!(registry.resolve(s("")), "");
}

#[test]
fn register_fresh_succeeds_second_attempt_refused() {
    let mut registry = EnigmaDNSContract::new();
    assert_eq!(registry.register(s("alice.eng"), s("0xA1")), Status::Success);
    assert_eq!(
        registry.register(s("alice.eng"), s("0xB2")),
        Status::AlreadyRegistered
    );
    assert_eq!(
        registry.register(s("alice.eng"), s("0xA1")),
        Status::AlreadyRegistered
    );
    let record = registry.get_info("alice.eng").unwrap();
    assert_eq!(record.owner, "0xA1");
    assert_eq!(record.target, "");
    assert_eq!(record.domain, "alice.eng");
}

#[test]
fn register_sets_default_target() {
    let mut registry = EnigmaDNSContract::new();
    assert_eq!(registry.register(s("alice.eng"), s("0xA1")), Status::Success);
    assert_eq!(registry.resolve(s("alice.eng")), "");
}

#[test]
fn owner_sets_target_and_domain_resolves_to_it() {
    let mut registry = EnigmaDNSContract::new();
    assert_eq!(registry.register(s("alice.eng"), s("0xA1")), Status::Success);
    assert_eq!(
        registry.set_target(s("alice.eng"), s("10.0.0.1"), s("0xA1")),
        Status::Success
    );
    assert_eq!(registry.resolve(s("alice.eng")), "10.0.0.1");
}

#[test]
fn non_owner_cannot_set_target() {
    let mut registry = EnigmaDNSContract::new();
    assert_eq!(registry.register(s("alice.eng"), s("0xA1")), Status::Success);
    assert_eq!(
        registry.set_target(s("alice.eng"), s("10.0.0.1"), s("0xA1")),
        Status::Success
    );
    assert_eq!(
        registry.set_target(s("alice.eng"), s("6.6.6.6"), s("0xB2")),
        Status::Unauthorized
    );
    assert_eq!(registry.resolve(s("alice.eng")), "10.0.0.1");
    let record = registry.get_info("alice.eng").unwrap();
    assert_eq!(record.owner, "0xA1");
}

#[test]
fn set_target_on_unregistered_domain_reports_not_found() {
    let mut registry = EnigmaDNSContract::new();
    assert_eq!(
        registry.set_target(s("ghost.eng"), s("10.0.0.1"), s("0xA1")),
        Status::DomainNotFound
    );
    assert_eq!(registry.resolve(s("ghost.eng")), "");
    assert!(!registry.is_registered("ghost.eng"));
}

#[test]
fn key_derivation_prefixes_the_domain() {
    assert_eq!(get_domain_full_key("alice.eng"), "domain_name.alice.eng");
    assert_eq!(get_domain_full_key(""), "domain_name.");
}

#[test]
fn key_derivation_distinct_domains_distinct_keys() {
    let adversarial = [
        "alice.eng",
        "bob.eng",
        "",
        "domain_name.",
        "domain_name.alice.eng",
        ".",
        "alice.eng.",
        ".alice.eng",
    ];
    for (i, d1) in adversarial.iter().enumerate() {
        for (j, d2) in adversarial.iter().enumerate() {
            let k1 = get_domain_full_key(d1);
            let k2 = get_domain_full_key(d2);
            assert_eq!(i == j, k1 == k2, "keys for {:?} and {:?}", d1, d2);
        }
    }
}

#[test]
fn domains_with_key_like_names_stay_separate() {
    let mut registry = EnigmaDNSContract::new();
    assert_eq!(
        registry.register(s("domain_name.alice.eng"), s("0xC3")),
        Status::Success
    );
    assert_eq!(registry.register(s("alice.eng"), s("0xA1")), Status::Success);
    assert_eq!(
        registry.set_target(s("alice.eng"), s("10.0.0.1"), s("0xA1")),
        Status::Success
    );
    assert_eq!(registry.resolve(s("domain_name.alice.eng")), "");
    assert_eq!(registry.resolve(s("alice.eng")), "10.0.0.1");
    let record = registry.get_info("domain_name.alice.eng").unwrap();
    assert_eq!(record.owner, "0xC3");
}

#[test]
fn end_to_end_scenario() {
    let mut registry = EnigmaDNSContract::new();
    assert_eq!(registry.register(s("alice.eng"), s("0xA1")), Status::Success);
    assert_eq!(
        registry.register(s("alice.eng"), s("0xB2")),
        Status::AlreadyRegistered
    );
    assert_eq!(
        registry.set_target(s("alice.eng"), s("10.0.0.1"), s("0xA1")),
        Status::Success
    );
    assert_eq!(registry.resolve(s("alice.eng")), "10.0.0.1");
    assert_eq!(
        registry.set_target(s("alice.eng"), s("1.1.1.1"), s("0xB2")),
        Status::Unauthorized
    );
    assert_eq!(registry.resolve(s("alice.eng")), "10.0.0.1");
}

#[test]
fn is_registered_tracks_registration() {
    let mut registry = EnigmaDNSContract::new();
    assert!(!registry.is_registered("alice.eng"));
    assert_eq!(registry.register(s("alice.eng"), s("0xA1")), Status::Success);
    assert!(registry.is_registered("alice.eng"));
    assert!(!registry.is_registered("bob.eng"));
}

#[test]
fn get_info_returns_the_whole_record() {
    let mut registry = EnigmaDNSContract::new();
    assert!(registry.get_info("alice.eng").is_none());
    assert_eq!(registry.register(s("alice.eng"), s("0xA1")), Status::Success);
    assert_eq!(
        registry.set_target(s("alice.eng"), s("10.0.0.1"), s("0xA1")),
        Status::Success
    );
    let record = registry.get_info("alice.eng").unwrap();
    assert_eq!(record.domain, "alice.eng");
    assert_eq!(record.owner, "0xA1");
    assert_eq!(record.target, "10.0.0.1");
}

#[test]
fn owner_may_rewrite_target_repeatedly() {
    let mut registry = EnigmaDNSContract::new();
    assert_eq!(registry.register(s("alice.eng"), s("0xA1")), Status::Success);
    assert_eq!(
        registry.set_target(s("alice.eng"), s("10.0.0.1"), s("0xA1")),
        Status::Success
    );
    assert_eq!(
        registry.set_target(s("alice.eng"), s("10.0.0.2"), s("0xA1")),
        Status::Success
    );
    assert_eq!(registry.resolve(s("alice.eng")), "10.0.0.2");
    assert_eq!(
        registry.set_target(s("alice.eng"), s(""), s("0xA1")),
        Status::Success
    );
    assert_eq!(registry.resolve(s("alice.eng")), "");
}

#[test]
fn registrations_are_independent() {
    let mut registry = EnigmaDNSContract::new();
    assert_eq!(registry.register(s("alice.eng"), s("0xA1")), Status::Success);
    assert_eq!(registry.register(s("bob.eng"), s("0xB2")), Status::Success);
    assert_eq!(
        registry.set_target(s("alice.eng"), s("10.0.0.1"), s("0xA1")),
        Status::Success
    );
    assert_eq!(
        registry.set_target(s("bob.eng"), s("10.0.0.2"), s("0xB2")),
        Status::Success
    );
    assert_eq!(registry.resolve(s("alice.eng")), "10.0.0.1");
    assert_eq!(registry.resolve(s("bob.eng")), "10.0.0.2");
    assert_eq!(
        registry.set_target(s("bob.eng"), s("6.6.6.6"), s("0xA1")),
        Status::Unauthorized
    );
    assert_eq!(registry.resolve(s("bob.eng")), "10.0.0.2");
}
