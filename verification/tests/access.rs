use credential_trust::access_control::{AccessControlPolicy, CredentialAccessControl, StoreError};
use credential_trust::attributes::AttributeSet;
use credential_trust::identifier::Identifier;
use credential_trust::store::{VerifiedAttributes, VerifiedAttributesStore};

fn identity(tag: u8) -> Identifier {
    Identifier::from_bytes(vec![tag; 20])
}

#[test]
fn store_returns_what_was_put_until_expiry() {
    let mut store = VerifiedAttributesStore::new();
    let id = identity(1);
    store.put(&id, AttributeSet::new().with_attribute(b"role", b"admin"), 100);
    assert!(store.get(&id, 0).unwrap().has(b"role", b"admin"));
    assert!(store.get(&id, 99).unwrap().has(b"role", b"admin"));
    assert!(store.get(&id, 100).is_none());
    assert!(store.get(&id, 101).is_none());
    assert!(store.get(&identity(2), 0).is_none());
}

#[test]
fn expired_entry_reads_as_absent_not_as_empty() {
    let mut store = VerifiedAttributesStore::new();
    let id = identity(1);
    store.put(&id, AttributeSet::new(), 100);
    assert!(store.get(&id, 99).unwrap().is_empty());
    assert!(store.get(&id, 100).is_none());
    assert_eq!(store.len(), 1);
}

#[test]
fn put_replaces_the_whole_entry() {
    let mut store = VerifiedAttributesStore::new();
    let id = identity(1);
    store.put(&id, AttributeSet::new().with_attribute(b"role", b"admin").with_attribute(b"team", b"x"), 100);
    store.put(&id, AttributeSet::new().with_attribute(b"role", b"user"), 200);
    let attrs = store.get(&id, 150).unwrap();
    assert!(attrs.has(b"role", b"user"));
    assert!(attrs.get(b"team").is_none());
    assert_eq!(attrs.len(), 1);
    assert_eq!(store.len(), 1);
}

#[test]
fn remove_drops_the_entry() {
    let mut store = VerifiedAttributesStore::new();
    let id = identity(1);
    let other = identity(2);
    store.put(&id, AttributeSet::new(), 100);
    store.put(&other, AttributeSet::new(), 100);
    store.remove(&id);
    assert!(store.get(&id, 0).is_none());
    assert!(store.get(&other, 0).is_some());
    store.remove(&id);
    assert_eq!(store.len(), 1);
}

#[test]
fn verified_attributes_keep_their_parts() {
    let entry = VerifiedAttributes::new(AttributeSet::new().with_attribute(b"a", b"b"), 77);
    assert_eq!(entry.expiry(), 77);
    assert!(entry.attributes().has(b"a", b"b"));
}

#[test]
fn policy_role_admin() {
    let guard = CredentialAccessControl::new(AccessControlPolicy::new().require(b"role", b"admin"));
    let mut store = VerifiedAttributesStore::new();
    let admin = identity(1);
    let user = identity(2);
    let nobody = identity(3);
    store.put(&admin, AttributeSet::new().with_attribute(b"role", b"admin").with_attribute(b"team", b"x"), 100);
    store.put(&user, AttributeSet::new().with_attribute(b"role", b"user"), 100);

    assert!(guard.is_authorized(&store, &admin, 10));
    assert!(!guard.is_authorized(&store, &user, 10));
    assert!(!guard.is_authorized(&store, &nobody, 10));
}

#[test]
fn empty_policy_wants_an_entry_and_nothing_more() {
    let guard = CredentialAccessControl::new(AccessControlPolicy::new());
    assert_eq!(guard.policy().len(), 0);
    let mut store = VerifiedAttributesStore::new();
    let with_attributes = identity(1);
    let with_empty_entry = identity(2);
    let without_entry = identity(3);
    store.put(&with_attributes, AttributeSet::new().with_attribute(b"role", b"user"), 100);
    store.put(&with_empty_entry, AttributeSet::new(), 100);

    assert!(guard.is_authorized(&store, &with_attributes, 10));
    assert!(guard.is_authorized(&store, &with_empty_entry, 10));
    assert!(!guard.is_authorized(&store, &without_entry, 10));
    assert!(!guard.is_authorized(&store, &with_empty_entry, 100));
}

#[test]
fn every_pair_of_the_policy_must_match() {
    let policy = AccessControlPolicy::new().require(b"role", b"admin").require(b"team", b"x");
    assert_eq!(policy.len(), 2);
    assert!(policy.is_satisfied_by(&AttributeSet::new().with_attribute(b"team", b"x").with_attribute(b"role", b"admin")));
    assert!(!policy.is_satisfied_by(&AttributeSet::new().with_attribute(b"role", b"admin")));
    assert!(!policy.is_satisfied_by(&AttributeSet::new().with_attribute(b"team", b"x")));
    assert!(!policy.is_satisfied_by(&AttributeSet::new().with_attribute(b"role", b"admin").with_attribute(b"team", b"y")));
    assert!(!policy.is_satisfied_by(&AttributeSet::new()));
}

#[test]
fn extra_attributes_do_not_matter() {
    let policy = AccessControlPolicy::from_pairs(vec![(b"role".to_vec(), b"admin".to_vec())]);
    let attrs = AttributeSet::new().with_attribute(b"role", b"admin");
    assert!(policy.is_satisfied_by(&attrs));
    assert!(policy.is_satisfied_by(&attrs.with_attribute(b"colour", b"blue")));
}

#[test]
fn stale_attributes_deny() {
    let guard = CredentialAccessControl::new(AccessControlPolicy::new().require(b"role", b"admin"));
    let mut store = VerifiedAttributesStore::new();
    let admin = identity(1);
    store.put(&admin, AttributeSet::new().with_attribute(b"role", b"admin"), 100);
    assert!(guard.is_authorized(&store, &admin, 99));
    assert!(!guard.is_authorized(&store, &admin, 100));
}

#[test]
fn unavailable_store_denies() {
    let guard = CredentialAccessControl::new(AccessControlPolicy::new());
    let attrs = AttributeSet::new();
    assert!(!guard.decide(Err(StoreError::StoreUnavailable)));
    assert!(!guard.decide(Ok(None)));
    assert!(guard.decide(Ok(Some(&attrs))));

    let strict = CredentialAccessControl::new(AccessControlPolicy::new().require(b"role", b"admin"));
    assert!(!strict.decide(Ok(Some(&attrs))));
    assert!(strict.decide(Ok(Some(&AttributeSet::new().with_attribute(b"role", b"admin")))));
    assert!(!strict.decide(Err(StoreError::StoreUnavailable)));
}
