use ed25519_dalek::{Keypair, PublicKey, SecretKey, Signer};
use social_attest::{
    check_signature, decimal_string, registration_message, scalar_message, signature_well_formed,
    AttestError, Context, Contract, SignatureCheck, NANOS_PER_DAY, ONE_MONTH, ONE_YEAR, SIX_MONTHS,
    THREE_MONTHS, TWO_YEARS, VALIDITY_WINDOW,
};

fn authority() -> Keypair {
    let secret = SecretKey::from_bytes(&[7u8; 32]).unwrap();
    let public = PublicKey::from(&secret);
    Keypair { secret, public }
}

fn sign(message: &str) -> Vec<u8> {
    authority().sign(message.as_bytes()).to_bytes().to_vec()
}

fn registry() -> Contract {
    Contract::new(authority().public.to_bytes().to_vec())
}

fn ctx(signer: &str, height: u64, now: u64) -> Context {
    Context { signer_account_id: signer.to_string(), block_height: height, block_timestamp: now }
}

fn s(x: &str) -> String {
    x.to_string()
}

fn register(c: &mut Contract, cx: &Context, platform: &str, handle: &str, proof: &str, deadline: u64) -> Result<(), AttestError> {
    let msg = format!("{},{},{},{},{}", cx.signer_account_id, platform, handle, proof, deadline);
    c.register_social(cx, s(platform), sign(&msg), s(handle), s(proof), deadline)
}

#[test]
fn test_new() {
    let key = bs58::decode("6BTMQWnxGDrzWizymRMdnRsofDMRJ1assMUrym6kSEj9").into_vec().unwrap();
    let sig: Vec<u8> = [
        225, 188, 213, 178, 192, 139, 107, 15, 58, 47, 90, 64, 245, 45, 197, 123, 190, 21, 181, 27, 114,
        213, 34, 40, 211, 221, 112, 189, 130, 75, 175, 141, 127, 253, 140, 173, 29, 6, 31, 225, 249, 65,
        180, 105, 14, 119, 176, 147, 148, 252, 93, 18, 249, 191, 110, 223, 239, 43, 14, 150, 222, 74, 118,
        2,
    ]
    .to_vec();
    let proof = "0x11e231e6fbd69343389ba9b6179b0108b914ad3e687172ba5d7748212058477d63e4aa09114e9a9b23b3cae4da7300577809b650bdf8842e0d1fae6cb8144f1c1c";
    let mut contract = Contract::new(key);
    let first = ctx("genadop.testnet", 0, 2000);
    let r1 = contract.register_social(&first, s("lens"), sig.clone(), s("genadop.lens"), s(proof), 10);
    println!("go ..{:?}", r1);
    assert_eq!(r1, Ok(()));
    let later = ctx("genadop.testnet", 0, 7876000000002000);
    let r2 = contract.register_social(&later, s("lens"), sig.clone(), s("genadop.lens"), s(proof), 10);
    println!("go ..{:?}", r2);
    assert_eq!(r2, Ok(()));
}

#[test]
fn alice_registers_lens_then_replay_expires() {
    let mut c = registry();
    let now = 1_000;
    let at10 = ctx("alice", 10, now);
    assert_eq!(register(&mut c, &at10, "lens", "alice.lens", "proof1", 100), Ok(()));
    let rec = c.record(&s("alice")).unwrap();
    let lens = rec.social(&s("lens")).unwrap();
    assert_eq!(lens.handle, "alice.lens");
    assert_eq!(lens.proof, "proof1");
    assert_eq!(lens.issued_date, now);
    assert_eq!(lens.expiry_date, now + 7_776_000_000_000_000);
    let at150 = ctx("alice", 150, now + 5);
    assert_eq!(register(&mut c, &at150, "lens", "alice.lens", "proof1", 100), Err(AttestError::ExpiredRequest));
}

#[test]
fn expired_handle_is_reclaimed_by_another_identity() {
    let mut c = registry();
    assert_eq!(register(&mut c, &ctx("a", 1, 100), "twitter", "h1", "pa", 50), Ok(()));
    let after = 100 + VALIDITY_WINDOW + 1;
    assert_eq!(register(&mut c, &ctx("b", 2, after), "twitter", "h1", "pb", 50), Ok(()));
    assert_eq!(c.handle_holder(&s("twitter"), &s("h1")), Some(&s("b")));
}

#[test]
fn renewal_by_same_identity_never_conflicts() {
    let mut c = registry();
    assert_eq!(register(&mut c, &ctx("a", 1, 100), "twitter", "h1", "p1", 50), Ok(()));
    let first = c.record(&s("a")).unwrap().social(&s("twitter")).unwrap().expiry_date;
    assert_eq!(register(&mut c, &ctx("a", 2, 200), "twitter", "h1", "p2", 50), Ok(()));
    let second = c.record(&s("a")).unwrap().social(&s("twitter")).unwrap().expiry_date;
    assert!(second >= first);
    assert_eq!(second, 200 + VALIDITY_WINDOW);
}

#[test]
fn live_handle_of_another_identity_conflicts() {
    let mut c = registry();
    assert_eq!(register(&mut c, &ctx("a", 1, 100), "twitter", "h1", "pa", 50), Ok(()));
    assert_eq!(register(&mut c, &ctx("b", 2, 200), "twitter", "h1", "pb", 50), Err(AttestError::HandleConflict));
    assert_eq!(c.handle_holder(&s("twitter"), &s("h1")), Some(&s("a")));
    assert!(c.record(&s("b")).is_none());
}

#[test]
fn conflict_also_for_identity_with_a_record() {
    let mut c = registry();
    assert_eq!(register(&mut c, &ctx("a", 1, 100), "twitter", "h1", "pa", 50), Ok(()));
    assert_eq!(register(&mut c, &ctx("b", 1, 100), "twitter", "other", "pb", 50), Ok(()));
    assert_eq!(register(&mut c, &ctx("b", 2, 200), "twitter", "h1", "pc", 50), Err(AttestError::HandleConflict));
}

#[test]
fn deadline_reached_is_expired_whatever_the_signature() {
    let mut c = registry();
    let cx = ctx("a", 50, 100);
    assert_eq!(c.register_social(&cx, s("lens"), vec![1, 2, 3], s("h"), s("p"), 50), Err(AttestError::ExpiredRequest));
    assert_eq!(c.register_social(&cx, s("lens"), vec![1, 2, 3], s("h"), s("p"), 10), Err(AttestError::ExpiredRequest));
    assert_eq!(c.update_access_key(&cx, vec![], 3, 50), Err(AttestError::ExpiredRequest));
    assert_eq!(c.update_contract_age(&cx, vec![], 3, 49), Err(AttestError::ExpiredRequest));
    assert!(c.record(&s("a")).is_none());
}

#[test]
fn altered_field_is_unauthorized() {
    let mut c = registry();
    let cx = ctx("a", 1, 100);
    let sig = sign("a,lens,h,p,50");
    assert_eq!(c.register_social(&cx, s("farcaster"), sig.clone(), s("h"), s("p"), 50), Err(AttestError::UnauthorizedSignature));
    assert_eq!(c.register_social(&cx, s("lens"), sig.clone(), s("h2"), s("p"), 50), Err(AttestError::UnauthorizedSignature));
    assert_eq!(c.register_social(&cx, s("lens"), sig.clone(), s("h"), s("p2"), 50), Err(AttestError::UnauthorizedSignature));
    assert_eq!(c.register_social(&cx, s("lens"), sig.clone(), s("h"), s("p"), 51), Err(AttestError::UnauthorizedSignature));
    assert_eq!(c.register_social(&ctx("b", 1, 100), s("lens"), sig.clone(), s("h"), s("p"), 50), Err(AttestError::UnauthorizedSignature));
    assert!(c.record(&s("a")).is_none());
    assert_eq!(c.register_social(&cx, s("lens"), sig, s("h"), s("p"), 50), Ok(()));
}

#[test]
fn scalar_replay_is_accepted() {
    let mut c = registry();
    let cx = ctx("a", 1, 100);
    let sig = sign("a,7,50");
    assert_eq!(c.update_access_key(&cx, sig.clone(), 7, 50), Ok(()));
    assert_eq!(c.update_access_key(&ctx("a", 49, 100), sig.clone(), 7, 50), Ok(()));
    assert_eq!(c.update_access_key(&cx, sig, 8, 50), Err(AttestError::UnauthorizedSignature));
    assert_eq!(c.record(&s("a")).unwrap().access_key_count(), Some(7));
}

#[test]
fn updates_touch_only_their_own_field() {
    let mut c = registry();
    let cx = ctx("a", 1, 100);
    assert_eq!(register(&mut c, &cx, "lens", "a.lens", "p", 50), Ok(()));
    assert_eq!(c.update_contract_age(&cx, sign("a,42,50"), 42, 50), Ok(()));
    assert_eq!(c.update_access_key(&cx, sign("a,9,50"), 9, 50), Ok(()));
    let rec = c.record(&s("a")).unwrap();
    assert_eq!(rec.access_key_count(), Some(9));
    assert_eq!(rec.account_age(), Some(42));
    assert_eq!(rec.social(&s("lens")).unwrap().handle, "a.lens");
    assert_eq!(c.update_contract_age(&cx, sign("a,43,50"), 43, 50), Ok(()));
    let rec = c.record(&s("a")).unwrap();
    assert_eq!(rec.access_key_count(), Some(9));
    assert_eq!(rec.account_age(), Some(43));
    assert_eq!(rec.social(&s("lens")).unwrap().proof, "p");
}

#[test]
fn scalar_update_creates_record() {
    let mut c = registry();
    let cx = ctx("z", 1, 100);
    assert_eq!(c.update_contract_age(&cx, sign("z,340282366920938463463374607431768211455,50"), u128::MAX, 50), Ok(()));
    let rec = c.record(&s("z")).unwrap();
    assert_eq!(rec.account_age(), Some(u128::MAX));
    assert_eq!(rec.access_key_count(), None);
    assert!(rec.social(&s("lens")).is_none());
}

#[test]
fn resubmitted_live_proof_is_duplicate() {
    let mut c = registry();
    assert_eq!(register(&mut c, &ctx("a", 1, 100), "lens", "h", "p", 50), Ok(()));
    assert_eq!(register(&mut c, &ctx("a", 2, 200), "lens", "h", "p", 50), Err(AttestError::DuplicateProof));
    assert_eq!(c.record(&s("a")).unwrap().social(&s("lens")).unwrap().issued_date, 100);
}

#[test]
fn malformed_signatures() {
    let mut c = registry();
    let cx = ctx("a", 1, 100);
    assert_eq!(c.register_social(&cx, s("lens"), vec![0u8; 63], s("h"), s("p"), 50), Err(AttestError::MalformedSignature));
    assert_eq!(c.update_access_key(&cx, vec![0u8; 65], 1, 50), Err(AttestError::MalformedSignature));
    let mut high = vec![0u8; 64];
    high[63] = 0x20;
    assert_eq!(c.update_contract_age(&cx, high, 1, 50), Err(AttestError::MalformedSignature));
    assert_eq!(c.update_contract_age(&cx, vec![0u8; 64], 1, 50), Err(AttestError::UnauthorizedSignature));
}

#[test]
fn signature_check_outcomes() {
    let key = authority().public.to_bytes().to_vec();
    let sig = sign("hello");
    assert_eq!(check_signature(&key, "hello", &sig), SignatureCheck::Valid);
    assert_eq!(check_signature(&key, "hellO", &sig), SignatureCheck::Invalid);
    assert_eq!(check_signature(&key, "hello", &sig[..10]), SignatureCheck::Malformed);
    assert!(signature_well_formed(&sig));
    assert!(!signature_well_formed(&[0xffu8; 64]));
}

#[test]
fn decimal_and_messages() {
    assert_eq!(decimal_string(0), "0");
    assert_eq!(decimal_string(7), "7");
    assert_eq!(decimal_string(10), "10");
    assert_eq!(decimal_string(1234567890), "1234567890");
    assert_eq!(decimal_string(u128::MAX), "340282366920938463463374607431768211455");
    assert_eq!(registration_message(&s("alice"), &s("lens"), &s("alice.lens"), &s("proof1"), 100), "alice,lens,alice.lens,proof1,100");
    assert_eq!(scalar_message(&s("bob"), 25, 18446744073709551615), "bob,25,18446744073709551615");
}

#[test]
fn access_key_predicates() {
    let mut c = registry();
    assert!(!c.connected_to_5_contracts(&s("a")));
    let cx = ctx("a", 1, 100);
    assert_eq!(c.update_contract_age(&cx, sign("a,1,50"), 1, 50), Ok(()));
    assert!(!c.connected_to_5_contracts(&s("a")));
    assert_eq!(c.update_access_key(&cx, sign("a,10,50"), 10, 50), Ok(()));
    assert!(c.connected_to_5_contracts(&s("a")));
    assert!(c.connected_to_10_contracts(&s("a")));
    assert!(!c.connected_to_20_contracts(&s("a")));
    assert_eq!(c.update_access_key(&cx, sign("a,4,50"), 4, 50), Ok(()));
    assert!(!c.connected_to_5_contracts(&s("a")));
}

#[test]
fn age_predicates() {
    let mut c = registry();
    let cx = ctx("a", 1, 100);
    assert!(!c.is_a_month_old(&s("a"), ONE_MONTH));
    assert_eq!(c.update_access_key(&cx, sign("a,1,50"), 1, 50), Ok(()));
    assert!(!c.is_a_month_old(&s("a"), ONE_MONTH));
    assert_eq!(c.update_contract_age(&cx, sign("a,1000,50"), 1000, 50), Ok(()));
    assert!(c.is_a_month_old(&s("a"), 1000 + ONE_MONTH));
    assert!(!c.is_a_month_old(&s("a"), 999 + ONE_MONTH));
    assert!(c.is_three_month_old(&s("a"), 1000 + THREE_MONTHS));
    assert!(!c.six_month_old(&s("a"), 1000 + SIX_MONTHS));
    assert!(c.six_month_old(&s("a"), 1001 + SIX_MONTHS));
    assert!(c.is_one_year_old(&s("a"), 1000 + ONE_YEAR));
    assert!(!c.is_two_year_old(&s("a"), 999 + TWO_YEARS));
    assert!(c.is_two_year_old(&s("a"), 1000 + TWO_YEARS));
    assert!(!c.is_a_month_old(&s("a"), 500));
    assert_eq!(ONE_MONTH, 30 * 24 * 60 * 60 * 1_000_000_000);
    assert_eq!(TWO_YEARS, 2 * 365 * NANOS_PER_DAY);
}

#[test]
fn platform_predicates() {
    let mut c = registry();
    assert!(!c.connected_to_lens(&s("a"), 0));
    assert_eq!(register(&mut c, &ctx("a", 1, 100), "lens", "h", "p", 50), Ok(()));
    assert!(c.connected_to_lens(&s("a"), 100));
    assert!(c.connected_to_lens(&s("a"), 99 + VALIDITY_WINDOW));
    assert!(!c.connected_to_lens(&s("a"), 100 + VALIDITY_WINDOW));
    assert!(!c.connected_to_farcaster(&s("a")));
    assert_eq!(register(&mut c, &ctx("a", 1, 100), "farcaster", "f", "p", 50), Ok(()));
    assert!(c.connected_to_farcaster(&s("a")));
    assert!(c.connected_to_platform(&s("a"), s("lens")));
    assert!(!c.connected_to_platform(&s("a"), s("twitter")));
    assert!(!c.connected_to_platform(&s("b"), s("lens")));
}

#[test]
fn stale_index_entry_does_not_block() {
    let mut c = registry();
    assert_eq!(register(&mut c, &ctx("a", 1, 100), "twitter", "h1", "p1", 50), Ok(()));
    assert_eq!(register(&mut c, &ctx("a", 1, 110), "twitter", "h2", "p2", 50), Ok(()));
    assert_eq!(c.handle_holder(&s("twitter"), &s("h1")), Some(&s("a")));
    assert_eq!(register(&mut c, &ctx("b", 1, 120), "twitter", "h1", "pb", 50), Ok(()));
    assert_eq!(c.handle_holder(&s("twitter"), &s("h1")), Some(&s("b")));
    assert_eq!(register(&mut c, &ctx("c", 1, 130), "twitter", "h2", "pc", 50), Err(AttestError::HandleConflict));
}
