use auction_registry::factory::Factory;
use auction_registry::msg::{AuctionContractInfo, InitMsg, QueryAnswer};

fn s(x: &str) -> String {
    x.to_string()
}

fn new_factory() -> Factory {
    Factory::new(
        s("admin"),
        InitMsg {
            entropy: s("seed entropy"),
            auction_contract: AuctionContractInfo { code_id: 1, code_hash: s("h") },
        },
    )
}

fn is_error_answer(f: &Factory, addr: &str, key: &str) -> bool {
    matches!(
        f.list_my_auctions(&s(addr), &s(key), None),
        QueryAnswer::ViewingKeyError { .. }
    )
}

#[test]
fn created_key_authenticates() {
    let mut f = new_factory();
    let key = f.create_viewing_key(&s("alice"), &s("some entropy"));
    assert_eq!(key.len(), 16);
    assert!(f.is_key_valid(&s("alice"), &key));
    assert!(!f.is_key_valid(&s("alice"), &s("guess")));
    assert!(!f.is_key_valid(&s("bob"), &key));
}

#[test]
fn create_replaces_the_old_key() {
    let mut f = new_factory();
    let first = f.create_viewing_key(&s("alice"), &s("one"));
    let second = f.create_viewing_key(&s("alice"), &s("two"));
    assert_ne!(first, second);
    assert!(!f.is_key_valid(&s("alice"), &first));
    assert!(f.is_key_valid(&s("alice"), &second));
}

#[test]
fn set_key_stores_supplied_material() {
    let mut f = new_factory();
    f.set_viewing_key(&s("alice"), &s("my own key"));
    assert!(f.is_key_valid(&s("alice"), &s("my own key")));
    f.set_viewing_key(&s("alice"), &s("a different key"));
    assert!(!f.is_key_valid(&s("alice"), &s("my own key")));
    assert!(f.is_key_valid(&s("alice"), &s("a different key")));
}

#[test]
fn absent_key_answers_false_not_error() {
    let f = new_factory();
    assert!(!f.is_key_valid(&s("nobody"), &s("anything")));
}

#[test]
fn key_derivation_is_deterministic_per_state() {
    let mut f1 = new_factory();
    let mut f2 = new_factory();
    // same seed, same entropy, same address: the same key
    assert_eq!(
        f1.create_viewing_key(&s("alice"), &s("e")),
        f2.create_viewing_key(&s("alice"), &s("e"))
    );
    // the seed advanced, so a repeat differs even with equal entropy
    assert_ne!(
        f1.create_viewing_key(&s("alice"), &s("e")),
        f2.create_viewing_key(&s("bob"), &s("e"))
    );
}

#[test]
fn authentication_symmetry_between_queries() {
    let mut f = new_factory();
    // no key set
    assert_eq!(!f.is_key_valid(&s("alice"), &s("k")), is_error_answer(&f, "alice", "k"));
    f.set_viewing_key(&s("alice"), &s("right"));
    // wrong key
    assert_eq!(
        !f.is_key_valid(&s("alice"), &s("wrong")),
        is_error_answer(&f, "alice", "wrong")
    );
    // right key
    assert_eq!(
        !f.is_key_valid(&s("alice"), &s("right")),
        is_error_answer(&f, "alice", "right")
    );
    assert!(f.is_key_valid(&s("alice"), &s("right")));
    assert!(!is_error_answer(&f, "alice", "right"));
}

#[test]
fn error_text_identical_for_wrong_and_absent() {
    let mut f = new_factory();
    let absent = match f.list_my_auctions(&s("alice"), &s("k"), None) {
        QueryAnswer::ViewingKeyError { error } => error,
        _ => panic!("expected an error"),
    };
    f.set_viewing_key(&s("alice"), &s("right"));
    let wrong = match f.list_my_auctions(&s("alice"), &s("bad"), None) {
        QueryAnswer::ViewingKeyError { error } => error,
        _ => panic!("expected an error"),
    };
    assert_eq!(absent, wrong);
}
