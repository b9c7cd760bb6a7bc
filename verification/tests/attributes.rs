use credential_trust::attributes::AttributeSet;
use credential_trust::byte_map::{bytes_eq, copy_bytes, ByteMap};
use credential_trust::identifier::{Identifier, IDENTIFIER_LEN};
use credential_trust::trust_context::TrustContext;

#[test]
fn empty_set_has_no_attributes() {
    let set = AttributeSet::new();
    assert_eq!(set.len(), 0);
    assert!(set.is_empty());
    assert!(set.get(b"role").is_none());
}

#[test]
fn insert_then_get() {
    let mut set = AttributeSet::new();
    set.insert(b"role".to_vec(), b"admin".to_vec());
    assert_eq!(set.get(b"role"), Some(&b"admin".to_vec()));
    assert!(set.get(b"team").is_none());
    assert_eq!(set.len(), 1);
    assert!(!set.is_empty());
}

#[test]
fn insert_replaces_the_value_of_a_name() {
    let set = AttributeSet::new()
        .with_attribute(b"role", b"user")
        .with_attribute(b"role", b"admin");
    assert_eq!(set.len(), 1);
    assert_eq!(set.get(b"role"), Some(&b"admin".to_vec()));
}

#[test]
fn insertion_order_is_irrelevant() {
    let a = AttributeSet::new().with_attribute(b"role", b"admin").with_attribute(b"team", b"x");
    let b = AttributeSet::new().with_attribute(b"team", b"x").with_attribute(b"role", b"admin");
    assert!(a.same_as(&b));
    assert!(b.same_as(&a));
}

#[test]
fn sets_with_different_values_differ() {
    let a = AttributeSet::new().with_attribute(b"role", b"admin");
    let b = AttributeSet::new().with_attribute(b"role", b"user");
    let c = AttributeSet::new().with_attribute(b"role", b"admin").with_attribute(b"team", b"x");
    let d = AttributeSet::new().with_attribute(b"rank", b"admin");
    assert!(!a.same_as(&b));
    assert!(!a.same_as(&c));
    assert!(!c.same_as(&a));
    assert!(!a.same_as(&d));
}

#[test]
fn has_wants_the_exact_value() {
    let set = AttributeSet::new().with_attribute(b"role", b"admin");
    assert!(set.has(b"role", b"admin"));
    assert!(!set.has(b"role", b"admi"));
    assert!(!set.has(b"role", b"admin "));
    assert!(!set.has(b"team", b"admin"));
}

#[test]
fn remove_takes_one_name_out() {
    let mut set = AttributeSet::new().with_attribute(b"role", b"admin").with_attribute(b"team", b"x");
    set.remove(b"role");
    assert!(set.get(b"role").is_none());
    assert_eq!(set.get(b"team"), Some(&b"x".to_vec()));
    set.remove(b"absent");
    assert_eq!(set.len(), 1);
}

#[test]
fn clone_is_the_same_set() {
    let set = AttributeSet::new().with_attribute(b"role", b"admin").with_attribute(b"team", b"x");
    let copy = set.clone();
    assert!(copy.same_as(&set));
    assert_eq!(copy.len(), 2);
}

#[test]
fn to_pairs_lists_each_attribute_once() {
    let set = AttributeSet::new()
        .with_attribute(b"role", b"admin")
        .with_attribute(b"team", b"x")
        .with_attribute(b"role", b"owner");
    let mut pairs = set.to_pairs();
    pairs.sort();
    assert_eq!(
        pairs,
        vec![(b"role".to_vec(), b"owner".to_vec()), (b"team".to_vec(), b"x".to_vec())]
    );
}

#[test]
fn byte_map_binds_and_unbinds() {
    let mut map: ByteMap<u32> = ByteMap::new();
    assert_eq!(map.len(), 0);
    map.insert(b"a".to_vec(), 1);
    map.insert(b"b".to_vec(), 2);
    map.insert(b"a".to_vec(), 3);
    assert_eq!(map.len(), 2);
    assert_eq!(map.get(b"a"), Some(&3));
    assert_eq!(map.get(b"b"), Some(&2));
    assert!(map.contains_key(b"b"));
    assert!(!map.contains_key(b"c"));
    assert_eq!(map.remove(b"a"), Some(3));
    assert_eq!(map.remove(b"a"), None);
    assert_eq!(map.len(), 1);
    assert_eq!(map.key_at(0), &b"b".to_vec());
    assert_eq!(map.value_at(0), &2);
}

#[test]
fn bytes_are_compared_and_copied() {
    assert!(bytes_eq(b"abc", b"abc"));
    assert!(!bytes_eq(b"abc", b"abd"));
    assert!(!bytes_eq(b"abc", b"ab"));
    assert!(bytes_eq(b"", b""));
    assert_eq!(copy_bytes(b"abc"), b"abc".to_vec());
}

#[test]
fn identifier_is_its_bytes() {
    let a = Identifier::from_bytes(vec![7u8; 20]);
    let b = Identifier::from_bytes(vec![7u8; 20]);
    let c = Identifier::from_bytes(vec![8u8; 20]);
    assert!(a.equals(&b));
    assert!(!a.equals(&c));
    assert!(a.clone().equals(&a));
    assert_eq!(a.as_bytes(), &[7u8; 20][..]);
}

#[test]
fn identifier_is_well_formed_at_the_canonical_length() {
    assert_eq!(IDENTIFIER_LEN, 20);
    assert!(Identifier::from_bytes(vec![1u8; 20]).well_formed());
    assert!(!Identifier::from_bytes(vec![1u8; 19]).well_formed());
    assert!(!Identifier::from_bytes(vec![1u8; 21]).well_formed());
    assert!(!Identifier::from_bytes(Vec::new()).well_formed());
}

#[test]
fn trust_context_keeps_what_it_was_made_with() {
    let authority = Identifier::from_bytes(vec![3u8; 20]);
    let context = TrustContext::new("test_trust_context_id".to_string(), authority.clone());
    assert_eq!(context.id(), "test_trust_context_id");
    assert!(context.authority().equals(&authority));
    let copy = context.clone();
    assert_eq!(copy.id(), "test_trust_context_id");
    assert!(copy.authority().equals(&authority));
}

#[test]
fn equality_is_that_of_the_values() {
    assert_eq!(Identifier::from_bytes(vec![7u8; 20]), Identifier::from_bytes(vec![7u8; 20]));
    assert_ne!(Identifier::from_bytes(vec![7u8; 20]), Identifier::from_bytes(vec![7u8; 19]));
    assert_eq!(
        AttributeSet::new().with_attribute(b"a", b"1").with_attribute(b"b", b"2"),
        AttributeSet::new().with_attribute(b"b", b"2").with_attribute(b"a", b"1")
    );
    assert_ne!(AttributeSet::new().with_attribute(b"a", b"1"), AttributeSet::new());
}
