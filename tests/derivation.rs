use multisig_wallet::account::{
    create_multisig_wallet, derive_multisig_account, parse_signatories, sort_ids,
};
use multisig_wallet::chain::ChainError;

const ALICE: &str = "5GrwvaEF5zXb26Fz9rcQpDWS57CtERHpNehXCPcNoHGKutQY";
const BOB: &str = "5FHneW46xGXgs5mUiveU4sbTyGBzmstUspZC92UhjJM694ty";
const CHARLIE: &str = "5FLSigC9HGRKVhB9FiEo4Y3koPsNmBmLJbpXg2mp1hXcS59Y";
const DAVE: &str = "5DAAnrj7VHTznn2AWBemMuyBwZWs6FNFjdyVXUeYum3PTXFy";

fn names(list: &[&str]) -> Vec<String> {
    list.iter().map(|s| s.to_string()).collect()
}

#[test]
fn parses_a_known_public_key() {
    let id = parse_signatories(ALICE).unwrap();
    assert_eq!(
        hex::encode(id),
        "d43593c715fdd31c61141abd04a99fd6822c8558854ccde39a5684e7a56da27d"
    );
}

#[test]
fn rejects_a_malformed_signatory() {
    match parse_signatories("not-an-address") {
        Err(ChainError::ParseError(bad)) => assert_eq!(bad, "not-an-address"),
        _ => panic!("expected a parse error"),
    }
}

#[test]
fn rejects_a_corrupted_checksum() {
    let corrupted = "5GrwvaEF5zXb26Fz9rcQpDWS57CtERHpNehXCPcNoHGKutQZ";
    assert!(matches!(parse_signatories(corrupted), Err(ChainError::ParseError(_))));
}

#[test]
fn derivation_ignores_signatory_order() {
    let m = create_multisig_wallet(names(&[ALICE, BOB, CHARLIE]), 2).unwrap();
    let again = create_multisig_wallet(names(&[CHARLIE, ALICE, BOB]), 2).unwrap();
    assert_eq!(m, again);
    let other = create_multisig_wallet(names(&[BOB, CHARLIE, ALICE]), 2).unwrap();
    assert_eq!(m, other);
}

#[test]
fn derivation_depends_on_threshold() {
    let two = create_multisig_wallet(names(&[ALICE, BOB, CHARLIE]), 2).unwrap();
    let three = create_multisig_wallet(names(&[ALICE, BOB, CHARLIE]), 3).unwrap();
    assert_ne!(two, three);
}

#[test]
fn derivation_depends_on_members() {
    let abc = create_multisig_wallet(names(&[ALICE, BOB, CHARLIE]), 2).unwrap();
    let abd = create_multisig_wallet(names(&[ALICE, BOB, DAVE]), 2).unwrap();
    let ab = create_multisig_wallet(names(&[ALICE, BOB]), 2).unwrap();
    assert_ne!(abc, abd);
    assert_ne!(abc, ab);
    assert_ne!(abd, ab);
}

#[test]
fn derived_address_spells_the_derived_account() {
    let address = create_multisig_wallet(names(&[ALICE, BOB, CHARLIE]), 2).unwrap();
    let ids = vec![
        parse_signatories(BOB).unwrap(),
        parse_signatories(ALICE).unwrap(),
        parse_signatories(CHARLIE).unwrap(),
    ];
    let account = derive_multisig_account(&ids, 2);
    assert_eq!(parse_signatories(&address).unwrap(), account);
    assert!(address.starts_with('5'));
    assert!(!ids.contains(&account));
}

#[test]
fn derivation_reports_the_first_bad_signatory() {
    let r = create_multisig_wallet(names(&[ALICE, "bad-one", "bad-two"]), 2);
    match r {
        Err(ChainError::ParseError(bad)) => assert_eq!(bad, "bad-one"),
        _ => panic!("expected a parse error"),
    }
}

#[test]
fn empty_signatory_list_still_derives() {
    let a = create_multisig_wallet(Vec::new(), 1).unwrap();
    let b = create_multisig_wallet(Vec::new(), 2).unwrap();
    assert_ne!(a, b);
}

#[test]
fn sorting_orders_bytes_lexicographically() {
    let mut a = [0u8; 32];
    let mut b = [0u8; 32];
    let mut c = [0u8; 32];
    a[0] = 2;
    b[0] = 1;
    b[31] = 9;
    c[0] = 1;
    c[1] = 1;
    let sorted = sort_ids(&vec![a, c, b, a]);
    assert_eq!(sorted, vec![b, c, a, a]);
}

#[test]
fn derives_the_known_multisig_address() {
    let m = create_multisig_wallet(names(&[ALICE, BOB, CHARLIE]), 2).unwrap();
    assert_eq!(m, "5DjYJStmdZ2rcqXbXGX7TW85JsrW6uG4y9MUcLq2BoPMpRA7");
    let m3 = create_multisig_wallet(names(&[CHARLIE, BOB, ALICE]), 3).unwrap();
    assert_eq!(m3, "5EAkPWNziBqEnrw6hkjFVu6EJej7Xf9wEK4CXir6YDS4kvUL");
}
