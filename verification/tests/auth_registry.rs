use auth_registry::pallet::Pallet;
use auth_registry::records::{AuthInfo, Error, Event, OrgInfo};

const ROOT: u64 = 0;
const ALICE: u64 = 1;
const BOB: u64 = 2;
const CAROL: u64 = 3;

fn bytes(s: &str) -> Vec<u8> {
    s.as_bytes().to_vec()
}

#[test]
fn scenario_register_approve_claim() {
    let mut p = Pallet::new();

    let r = p.orgReg(ALICE, bytes("ORG1"), bytes("Acme"));
    assert!(matches!(r, Ok(Event::OrgRegSuccess(a, c, n))
        if a == ALICE && c == bytes("ORG1") && n == bytes("Acme")));
    let org = p.org(&bytes("ORG1")).expect("registered organization is stored");
    assert_eq!(org.status, false);
    assert_eq!(org.name, bytes("Acme"));

    let r = p.orgApprove(ROOT, bytes("ORG1"), true);
    assert!(matches!(r, Ok(Event::OrgApproveSuccess(a, c, s))
        if a == ROOT && c == bytes("ORG1") && s));
    assert_eq!(p.org(&bytes("ORG1")).unwrap().status, true);

    let r = p.authRight(ALICE, bytes("HASH1"), bytes("desc"), bytes("ORG1"), 11);
    assert!(matches!(r, Ok(Event::AuthRightSuccessed(a, h, c))
        if a == ALICE && h == bytes("HASH1") && c == bytes("ORG1")));
    assert_eq!(p.authright(&bytes("HASH1")), Some(&ALICE));
    let detail = p.authdetail(&bytes("HASH1")).expect("claim detail is stored");
    assert_eq!(detail.hash, bytes("HASH1"));
    assert_eq!(detail.account_id, ALICE);
    assert_eq!(detail.blocknumber, 11);
    assert_eq!(detail.description, bytes("desc"));
    assert_eq!(detail.orgcode, bytes("ORG1"));
}

#[test]
fn scenario_claim_without_registration() {
    let mut p = Pallet::new();
    let r = p.authRight(BOB, bytes("HASH1"), bytes("x"), bytes("ORG1"), 5);
    assert!(matches!(r, Err(Error::NoSuchOrg)));
    assert!(p.authright(&bytes("HASH1")).is_none());
    assert!(p.authdetail(&bytes("HASH1")).is_none());
}

#[test]
fn scenario_claim_before_approval() {
    let mut p = Pallet::new();
    assert!(p.orgReg(BOB, bytes("ORG2"), bytes("Beta")).is_ok());
    let r = p.authRight(CAROL, bytes("HASH2"), bytes("y"), bytes("ORG2"), 7);
    assert!(matches!(r, Err(Error::StatusNotAllow)));
    assert!(p.authright(&bytes("HASH2")).is_none());
    assert!(p.authdetail(&bytes("HASH2")).is_none());
}

#[test]
fn scenario_double_registration() {
    let mut p = Pallet::new();
    assert!(p.orgReg(ALICE, bytes("ORG1"), bytes("Acme")).is_ok());
    let r = p.orgReg(BOB, bytes("ORG1"), bytes("Other"));
    assert!(matches!(r, Err(Error::OrgAlreadyExist)));
    let org = p.org(&bytes("ORG1")).expect("first registration is kept");
    assert_eq!(org.code, bytes("ORG1"));
    assert_eq!(org.name, bytes("Acme"));
    assert_eq!(org.status, false);
}

#[test]
fn registration_keeps_first_record() {
    let mut p = Pallet::new();
    assert!(p.orgReg(ALICE, bytes("ORG9"), bytes("First")).is_ok());
    assert!(p.orgApprove(ROOT, bytes("ORG9"), true).is_ok());
    let r = p.orgReg(CAROL, bytes("ORG9"), bytes("Second"));
    assert!(matches!(r, Err(Error::OrgAlreadyExist)));
    let org = p.org(&bytes("ORG9")).unwrap();
    assert_eq!(org.name, bytes("First"));
    assert_eq!(org.status, true);
}

#[test]
fn approval_last_wins() {
    let mut p = Pallet::new();
    assert!(p.orgReg(ALICE, bytes("ORG1"), bytes("Acme")).is_ok());
    assert!(p.orgApprove(ROOT, bytes("ORG1"), true).is_ok());
    assert!(p.orgApprove(ROOT, bytes("ORG1"), false).is_ok());
    assert!(p.orgApprove(ROOT, bytes("ORG1"), true).is_ok());
    let org = p.org(&bytes("ORG1")).unwrap();
    assert_eq!(org.status, true);
    assert_eq!(org.code, bytes("ORG1"));
    assert_eq!(org.name, bytes("Acme"));
}

#[test]
fn approval_of_unknown_org_fails() {
    let mut p = Pallet::new();
    let r = p.orgApprove(ROOT, bytes("NOPE"), true);
    assert!(matches!(r, Err(Error::NoSuchOrg)));
    assert!(p.org(&bytes("NOPE")).is_none());
}

#[test]
fn revoked_organization_cannot_sponsor() {
    let mut p = Pallet::new();
    assert!(p.orgReg(ALICE, bytes("ORG1"), bytes("Acme")).is_ok());
    assert!(p.orgApprove(ROOT, bytes("ORG1"), true).is_ok());
    assert!(p.orgApprove(ROOT, bytes("ORG1"), false).is_ok());
    let r = p.authRight(ALICE, bytes("HASH3"), bytes("d"), bytes("ORG1"), 9);
    assert!(matches!(r, Err(Error::StatusNotAllow)));
    assert!(p.authright(&bytes("HASH3")).is_none());
    assert!(p.authdetail(&bytes("HASH3")).is_none());
}

#[test]
fn claim_is_unique() {
    let mut p = Pallet::new();
    assert!(p.orgReg(ALICE, bytes("ORG1"), bytes("Acme")).is_ok());
    assert!(p.orgReg(BOB, bytes("ORG2"), bytes("Beta")).is_ok());
    assert!(p.orgApprove(ROOT, bytes("ORG1"), true).is_ok());
    assert!(p.orgApprove(ROOT, bytes("ORG2"), true).is_ok());
    assert!(p.authRight(ALICE, bytes("HASH1"), bytes("first"), bytes("ORG1"), 4).is_ok());
    let r = p.authRight(BOB, bytes("HASH1"), bytes("second"), bytes("ORG2"), 6);
    assert!(matches!(r, Err(Error::HashAlreadyExist)));
    assert_eq!(p.authright(&bytes("HASH1")), Some(&ALICE));
    assert_eq!(p.authdetail(&bytes("HASH1")).unwrap().description, bytes("first"));
}

#[test]
fn failed_claim_writes_nothing() {
    let mut p = Pallet::new();
    assert!(p.orgReg(ALICE, bytes("ORG1"), bytes("Acme")).is_ok());

    let r = p.authRight(ALICE, bytes("HASH1"), bytes("d"), bytes("MISSING"), 3);
    assert!(matches!(r, Err(Error::NoSuchOrg)));
    assert!(p.authright(&bytes("HASH1")).is_none());
    assert!(p.authdetail(&bytes("HASH1")).is_none());

    let r = p.authRight(ALICE, bytes("HASH1"), bytes("d"), bytes("ORG1"), 3);
    assert!(matches!(r, Err(Error::StatusNotAllow)));
    assert!(p.authright(&bytes("HASH1")).is_none());
    assert!(p.authdetail(&bytes("HASH1")).is_none());
}

#[test]
fn claims_against_distinct_hashes_coexist() {
    let mut p = Pallet::new();
    assert!(p.orgReg(ALICE, bytes("ORG1"), bytes("Acme")).is_ok());
    assert!(p.orgApprove(ROOT, bytes("ORG1"), true).is_ok());
    assert!(p.authRight(ALICE, bytes("H1"), bytes("a"), bytes("ORG1"), 1).is_ok());
    assert!(p.authRight(BOB, bytes("H2"), bytes("b"), bytes("ORG1"), 2).is_ok());
    assert_eq!(p.authright(&bytes("H1")), Some(&ALICE));
    assert_eq!(p.authright(&bytes("H2")), Some(&BOB));
    assert_eq!(p.authdetail(&bytes("H1")).unwrap().blocknumber, 1);
    assert_eq!(p.authdetail(&bytes("H2")).unwrap().blocknumber, 2);
}

#[test]
fn record_constructors_keep_fields() {
    let org = OrgInfo::new(bytes("C"), bytes("N"), true);
    assert_eq!(org.code, bytes("C"));
    assert_eq!(org.name, bytes("N"));
    assert_eq!(org.status, true);

    let detail = AuthInfo::new(bytes("H"), CAROL, 77, bytes("D"), bytes("C"));
    assert_eq!(detail.hash, bytes("H"));
    assert_eq!(detail.account_id, CAROL);
    assert_eq!(detail.blocknumber, 77);
    assert_eq!(detail.description, bytes("D"));
    assert_eq!(detail.orgcode, bytes("C"));
}

#[test]
fn empty_keys_are_ordinary_keys() {
    let mut p = Pallet::new();
    assert!(p.orgReg(ALICE, bytes(""), bytes("")).is_ok());
    assert!(matches!(p.orgReg(BOB, bytes(""), bytes("x")), Err(Error::OrgAlreadyExist)));
    assert!(p.orgApprove(ROOT, bytes(""), true).is_ok());
    assert!(p.authRight(ALICE, bytes(""), bytes(""), bytes(""), 0).is_ok());
    assert_eq!(p.authright(&bytes("")), Some(&ALICE));
}
