use std::time::Duration;

use credential_trust::access_control::{AccessControlPolicy, CredentialAccessControl};
use credential_trust::attributes::AttributeSet;
use credential_trust::credential::{issue_credential, verify, CredentialData};
use credential_trust::enrollment::{
    AddMember, CreateToken, EnrollmentError, EnrollmentRequest, EnrollmentService, OneTimeToken,
};
use credential_trust::identifier::Identifier;
use credential_trust::store::VerifiedAttributesStore;
use credential_trust::trust_context::TrustContext;

fn identity(tag: u8) -> Identifier {
    Identifier::from_bytes(vec![tag; 20])
}

fn superuser() -> AttributeSet {
    AttributeSet::new().with_attribute(b"is_superuser", b"true")
}

#[test]
fn add_member_grants_attributes_at_once() {
    let authority = identity(1);
    let member = identity(2);
    let mut service = EnrollmentService::new(authority.clone(), 600);
    assert!(service.member_attributes(&member).is_none());
    assert_eq!(service.add_member(&authority, &member, superuser()), Ok(()));
    assert!(service.member_attributes(&member).unwrap().same_as(&superuser()));
}

#[test]
fn add_member_replaces_earlier_attributes() {
    let authority = identity(1);
    let member = identity(2);
    let mut service = EnrollmentService::new(authority.clone(), 600);
    service.add_member(&authority, &member, superuser()).unwrap();
    service.add_member(&authority, &member, AttributeSet::new().with_attribute(b"role", b"user")).unwrap();
    let granted = service.member_attributes(&member).unwrap();
    assert!(granted.has(b"role", b"user"));
    assert_eq!(granted.len(), 1);
}

#[test]
fn add_member_by_another_caller_is_unauthorized() {
    let authority = identity(1);
    let member = identity(2);
    let mut service = EnrollmentService::new(authority, 600);
    assert_eq!(service.add_member(&member, &member, superuser()), Err(EnrollmentError::Unauthorized));
    assert!(service.member_attributes(&member).is_none());
}

#[test]
fn add_member_with_malformed_identifier_is_invalid() {
    let authority = identity(1);
    let malformed = Identifier::from_bytes(vec![2u8; 5]);
    let mut service = EnrollmentService::new(authority.clone(), 600);
    assert_eq!(service.add_member(&authority, &malformed, superuser()), Err(EnrollmentError::InvalidArgument));
    assert!(service.member_attributes(&malformed).is_none());
    assert_eq!(service.add_member(&malformed, &malformed, superuser()), Err(EnrollmentError::Unauthorized));
}

#[test]
fn serve_add_member_request() {
    let authority = identity(1);
    let member = identity(2);
    let mut service = EnrollmentService::new(authority.clone(), 600);
    let request = AddMember::new(member.clone()).with_attributes(superuser());
    assert!(request.member().equals(&member));
    assert!(request.attributes().same_as(&superuser()));
    assert_eq!(service.serve_add_member(&authority, request), Ok(()));
    assert!(service.member_attributes(&member).unwrap().same_as(&superuser()));
}

#[test]
fn new_add_member_has_no_attributes() {
    let request = AddMember::new(identity(2));
    assert!(request.attributes().is_empty());
}

#[test]
fn token_is_redeemed_once() {
    let authority = identity(1);
    let id1 = identity(2);
    let id2 = identity(3);
    let mut service = EnrollmentService::new(authority.clone(), 600);
    let tok = service.create_token(&authority, superuser(), Some(60), b"code-1".to_vec(), 1000).unwrap();
    assert_eq!(tok.code(), b"code-1");

    assert_eq!(service.redeem_token(&tok, &id1, 1010), Ok(()));
    assert!(service.member_attributes(&id1).unwrap().same_as(&superuser()));

    assert_eq!(service.redeem_token(&tok, &id1, 1011), Err(EnrollmentError::TokenNotFound));
    assert_eq!(service.redeem_token(&tok, &id2, 1011), Err(EnrollmentError::TokenNotFound));
    assert!(service.member_attributes(&id2).is_none());
}

#[test]
fn of_many_redeemers_one_wins() {
    let authority = identity(1);
    let mut service = EnrollmentService::new(authority.clone(), 600);
    let tok = service.create_token(&authority, superuser(), Some(60), b"race".to_vec(), 1000).unwrap();
    let mut wins = 0;
    let mut losses = 0;
    for tag in 10u8..30 {
        match service.redeem_token(&tok, &identity(tag), 1001) {
            Ok(()) => wins += 1,
            Err(e) => {
                assert_eq!(e, EnrollmentError::TokenNotFound);
                losses += 1;
            }
        }
    }
    assert_eq!(wins, 1);
    assert_eq!(losses, 19);
    assert!(service.member_attributes(&identity(10)).is_some());
    assert!(service.member_attributes(&identity(11)).is_none());
}

#[test]
fn zero_duration_token_is_never_found() {
    let authority = identity(1);
    let mut service = EnrollmentService::new(authority.clone(), 600);
    let tok = service.create_token(&authority, superuser(), Some(0), b"zero".to_vec(), 1000).unwrap();
    assert!(!service.is_redeemable(&tok, 1000));
    assert_eq!(service.redeem_token(&tok, &identity(2), 1000), Err(EnrollmentError::TokenNotFound));
    assert_eq!(service.redeem_token(&tok, &identity(2), 1001), Err(EnrollmentError::TokenNotFound));
    assert!(service.member_attributes(&identity(2)).is_none());
}

#[test]
fn token_expires_at_now_plus_duration() {
    let authority = identity(1);
    let mut service = EnrollmentService::new(authority.clone(), 600);
    let tok = service.create_token(&authority, superuser(), Some(60), b"c".to_vec(), 1000).unwrap();
    assert!(service.is_redeemable(&tok, 1059));
    assert!(!service.is_redeemable(&tok, 1060));
    assert_eq!(service.redeem_token(&tok, &identity(2), 1060), Err(EnrollmentError::TokenNotFound));
    assert_eq!(service.redeem_token(&tok, &identity(2), 1059), Ok(()));
}

#[test]
fn absent_duration_means_the_default() {
    let authority = identity(1);
    let mut service = EnrollmentService::new(authority.clone(), 600);
    let tok = service.create_token(&authority, superuser(), None, b"c".to_vec(), 1000).unwrap();
    assert!(service.is_redeemable(&tok, 1599));
    assert!(!service.is_redeemable(&tok, 1600));
}

#[test]
fn negative_duration_is_invalid() {
    let authority = identity(1);
    let mut service = EnrollmentService::new(authority.clone(), 600);
    assert_eq!(
        service.create_token(&authority, superuser(), Some(-1), b"c".to_vec(), 1000).err(),
        Some(EnrollmentError::InvalidArgument)
    );
    assert!(!service.is_redeemable(&OneTimeToken::from_code(b"c".to_vec()), 1000));
}

#[test]
fn create_token_by_another_caller_is_unauthorized() {
    let authority = identity(1);
    let mut service = EnrollmentService::new(authority, 600);
    assert_eq!(
        service.create_token(&identity(2), superuser(), Some(-1), b"c".to_vec(), 1000).err(),
        Some(EnrollmentError::Unauthorized)
    );
    assert_eq!(
        service.serve_create_token(&identity(2), CreateToken::new(), b"c".to_vec(), 1000).err(),
        Some(EnrollmentError::Unauthorized)
    );
}

#[test]
fn unknown_token_is_not_found() {
    let mut service = EnrollmentService::new(identity(1), 600);
    let tok = OneTimeToken::from_code(b"never-minted".to_vec());
    assert_eq!(service.redeem_token(&tok, &identity(2), 0), Err(EnrollmentError::TokenNotFound));
    let malformed = Identifier::from_bytes(Vec::new());
    assert_eq!(service.redeem_token(&tok, &malformed, 0), Err(EnrollmentError::TokenNotFound));
}

#[test]
fn malformed_presenter_leaves_the_token_in_place() {
    let authority = identity(1);
    let mut service = EnrollmentService::new(authority.clone(), 600);
    let tok = service.create_token(&authority, superuser(), Some(60), b"c".to_vec(), 1000).unwrap();
    let malformed = Identifier::from_bytes(vec![1u8; 3]);
    assert_eq!(service.redeem_token(&tok, &malformed, 1001), Err(EnrollmentError::InvalidArgument));
    assert!(service.is_redeemable(&tok, 1001));
    assert_eq!(service.redeem_token(&tok, &identity(2), 1001), Ok(()));
}

#[test]
fn create_token_request_builders() {
    let request = CreateToken::new();
    assert!(request.token_duration().is_none());
    assert!(request.token_duration_secs().is_none());
    assert!(request.attributes().is_empty());

    let request = CreateToken::new()
        .with_attributes(superuser())
        .with_duration(Some(Duration::from_secs(60)));
    assert_eq!(request.token_duration(), Some(Duration::from_secs(60)));
    assert_eq!(request.token_duration_secs(), Some(60));
    assert!(request.attributes().same_as(&superuser()));
}

#[test]
fn duration_is_kept_in_whole_seconds() {
    let request = CreateToken::new().with_duration(Some(Duration::from_millis(1999)));
    assert_eq!(request.token_duration_secs(), Some(1));
    assert_eq!(request.token_duration(), Some(Duration::from_secs(1)));
    let request = request.with_duration(None);
    assert_eq!(request.token_duration(), None);
    let request = request.with_duration_secs(Some(7));
    assert_eq!(request.token_duration(), Some(Duration::new(7, 0)));
}

#[test]
fn serve_create_token_request() {
    let authority = identity(1);
    let mut service = EnrollmentService::new(authority.clone(), 600);
    let request = CreateToken::new().with_attributes(superuser()).with_duration(Some(Duration::from_secs(60)));
    let tok = service.serve_create_token(&authority, request, b"c".to_vec(), 1000).unwrap();
    assert!(service.is_redeemable(&tok, 1059));
    assert!(!service.is_redeemable(&tok, 1060));

    let tok = service.serve_create_token(&authority, CreateToken::new(), b"d".to_vec(), 1000).unwrap();
    assert!(service.is_redeemable(&tok, 1599));
    assert!(!service.is_redeemable(&tok, 1600));
}

#[test]
fn requests_come_in_two_variants() {
    let requests = vec![
        EnrollmentRequest::AddMember(AddMember::new(identity(2))),
        EnrollmentRequest::CreateToken(CreateToken::new()),
    ];
    let authority = identity(1);
    let mut service = EnrollmentService::new(authority.clone(), 600);
    let mut minted = 0;
    for request in requests {
        match request {
            EnrollmentRequest::AddMember(r) => assert_eq!(service.serve_add_member(&authority, r), Ok(())),
            EnrollmentRequest::CreateToken(r) => {
                assert!(service.serve_create_token(&authority, r, b"x".to_vec(), 0).is_ok());
                minted += 1;
            }
        }
    }
    assert_eq!(minted, 1);
    assert!(service.member_attributes(&identity(2)).unwrap().is_empty());
}

#[test]
fn token_to_guard_end_to_end() {
    let authority = identity(1);
    let client = identity(2);
    let second_client = identity(3);
    let mut service = EnrollmentService::new(authority.clone(), 600);
    let context = TrustContext::new("project".to_string(), authority.clone());
    let mut store = VerifiedAttributesStore::new();

    let request = CreateToken::new().with_attributes(superuser()).with_duration(Some(Duration::from_secs(60)));
    let token = service.serve_create_token(&authority, request, b"one-time".to_vec(), 1000).unwrap();
    assert_eq!(service.redeem_token(&token, &client, 1005), Ok(()));

    let stored = service.member_attributes(&client).unwrap().clone();
    let data = CredentialData::new(0, client.clone(), stored, 1010, 60);
    let credential = issue_credential(&authority, data, Some(b"signature".to_vec())).unwrap();

    let attributes = verify(&credential, &context, 1011, true).unwrap();
    store.put(credential.subject(), attributes, credential.expiry());

    let guard = CredentialAccessControl::new(AccessControlPolicy::new().require(b"is_superuser", b"true"));
    assert!(guard.is_authorized(&store, &client, 1012));
    assert!(!guard.is_authorized(&store, &second_client, 1012));
    assert!(!guard.is_authorized(&store, &client, 1070));
}

#[test]
fn member_credential_data_carries_the_granted_attributes() {
    let authority = identity(1);
    let member = identity(2);
    let mut service = EnrollmentService::new(authority.clone(), 600);
    assert!(service.member_credential_data(&member, 0, 1000, 60).is_none());
    service.add_member(&authority, &member, superuser()).unwrap();
    let data = service.member_credential_data(&member, 0, 1000, 60).unwrap();
    assert_eq!(data.attributes(), &superuser());
    assert_eq!(data.subject(), &member);
    assert_eq!(data.expiry(), 1060);
    assert!(data.schema().is_known());
}
