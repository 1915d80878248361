use auction_registry::error::RegistryError;
use auction_registry::factory::Factory;
use auction_registry::msg::{
    AuctionContractInfo, FilterTypes, InitMsg, QueryAnswer, RegisterAuctionInfo,
};

fn s(x: &str) -> String {
    x.to_string()
}

fn new_factory() -> Factory {
    Factory::new(
        s("admin"),
        InitMsg {
            entropy: s("init entropy"),
            auction_contract: AuctionContractInfo { code_id: 5, code_hash: s("hash") },
        },
    )
}

/// A factory with symbols 0 "AAA" (6 decimals), 1 "SLL" (6), 2 "BDD" (8).
fn factory_with_symbols() -> Factory {
    let mut f = new_factory();
    assert_eq!(f.intern_symbol(s("AAA"), 6), Some(0));
    assert_eq!(f.intern_symbol(s("SLL"), 6), Some(1));
    assert_eq!(f.intern_symbol(s("BDD"), 8), Some(2));
    f
}

fn reg_info(index: u32, label: &str) -> RegisterAuctionInfo {
    RegisterAuctionInfo {
        index,
        label: s(label),
        sell_symbol: 1,
        bid_symbol: 2,
        sell_amount: 1000,
        minimum_bid: 100,
        ends_at: 2_000_000_000,
    }
}

#[test]
fn register_then_list_active_shows_one_record() {
    let mut f = factory_with_symbols();
    let auction = s("auction7");
    assert_eq!(f.register_auction(&auction, s("S"), reg_info(7, "seven")), Ok(()));
    let active = f.list_active();
    assert_eq!(active.len(), 1);
    assert_eq!(active[0].address, "auction7");
    assert_eq!(active[0].label, "seven");
    assert_eq!(active[0].pair, "SLL-BDD");
    assert_eq!(active[0].sell_amount, 1000);
    assert_eq!(active[0].sell_decimals, 6);
    assert_eq!(active[0].minimum_bid, 100);
    assert_eq!(active[0].bid_decimals, 8);
    assert_eq!(active[0].ends_at, 2_000_000_000);
}

#[test]
fn full_lifecycle_register_bid_close() {
    let mut f = factory_with_symbols();
    let auction = s("auction7");
    assert_eq!(f.register_auction(&auction, s("S"), reg_info(7, "seven")), Ok(()));
    assert_eq!(f.register_bidder(&auction, 7, &s("B")), Ok(()));

    f.set_viewing_key(&s("B"), &s("valid key"));
    match f.list_my_auctions(&s("B"), &s("valid key"), Some(FilterTypes::Active)) {
        QueryAnswer::ListMyAuctions { active, closed } => {
            assert!(closed.is_none());
            let active = active.expect("active lists expected");
            assert!(active.as_seller.is_none());
            let as_bidder = active.as_bidder.expect("bidder list expected");
            assert_eq!(as_bidder.len(), 1);
            assert_eq!(as_bidder[0].address, "auction7");
        },
        _ => panic!("unexpected answer"),
    }

    assert_eq!(
        f.close_auction(&auction, 7, &s("S"), Some(s("B")), Some(150), 1_700_000_000),
        Ok(())
    );
    assert!(f.list_active().is_empty());
    match f.query_active_auctions() {
        QueryAnswer::ListActiveAuctions { active } => assert!(active.is_none()),
        _ => panic!("unexpected answer"),
    }

    let (closed, next) = f.list_closed(None, 200);
    assert_eq!(closed.len(), 1);
    assert_eq!(closed[0].index, Some(0));
    assert_eq!(closed[0].winning_bid, Some(150));
    assert_eq!(closed[0].bid_decimals, Some(8));
    assert_eq!(closed[0].timestamp, 1_700_000_000);
    assert_eq!(next, None);

    // the closed index has left the bidder's active sets entirely
    match f.list_my_auctions(&s("B"), &s("valid key"), Some(FilterTypes::Active)) {
        QueryAnswer::ListMyAuctions { active, .. } => assert!(active.is_none()),
        _ => panic!("unexpected answer"),
    }
    match f.list_my_auctions(&s("B"), &s("valid key"), Some(FilterTypes::Closed)) {
        QueryAnswer::ListMyAuctions { active, closed } => {
            assert!(active.is_none());
            let closed = closed.expect("closed lists expected");
            assert!(closed.as_seller.is_none());
            let won = closed.won.expect("won list expected");
            assert_eq!(won.len(), 1);
            assert_eq!(won[0].winning_bid, Some(150));
            assert_eq!(won[0].index, None);
        },
        _ => panic!("unexpected answer"),
    }
}

#[test]
fn list_active_sorted_by_pair_then_index() {
    let mut f = factory_with_symbols();
    let mk = |index: u32, sell: u16, bid: u16| RegisterAuctionInfo {
        index,
        label: s("x"),
        sell_symbol: sell,
        bid_symbol: bid,
        sell_amount: 10,
        minimum_bid: 1,
        ends_at: 1,
    };
    assert_eq!(f.register_auction(&s("a3"), s("S"), mk(3, 2, 1)), Ok(()));
    assert_eq!(f.register_auction(&s("a1"), s("S"), mk(1, 1, 2)), Ok(()));
    assert_eq!(f.register_auction(&s("a0"), s("S"), mk(0, 1, 2)), Ok(()));
    let active = f.list_active();
    assert_eq!(active.len(), 3);
    // pair (1,2) before (2,1); within (1,2) index 0 before 1
    assert_eq!(active[0].address, "a0");
    assert_eq!(active[1].address, "a1");
    assert_eq!(active[2].address, "a3");
    assert_eq!(active[0].pair, "SLL-BDD");
    assert_eq!(active[2].pair, "BDD-SLL");
}

#[test]
fn change_auction_info_applies_only_given_fields() {
    let mut f = factory_with_symbols();
    let auction = s("a");
    assert_eq!(f.register_auction(&auction, s("S"), reg_info(1, "one")), Ok(()));
    assert_eq!(f.change_auction_info(&auction, 1, Some(42), None), Ok(()));
    let active = f.list_active();
    assert_eq!(active[0].ends_at, 42);
    assert_eq!(active[0].minimum_bid, 100);
    assert_eq!(f.change_auction_info(&auction, 1, None, Some(7)), Ok(()));
    let active = f.list_active();
    assert_eq!(active[0].ends_at, 42);
    assert_eq!(active[0].minimum_bid, 7);
}

#[test]
fn duplicate_index_rejected_live_and_retired() {
    let mut f = factory_with_symbols();
    let auction = s("a");
    assert_eq!(f.register_auction(&auction, s("S"), reg_info(7, "x")), Ok(()));
    assert_eq!(
        f.register_auction(&s("other"), s("T"), reg_info(7, "y")),
        Err(RegistryError::DuplicateIndex)
    );
    assert_eq!(f.close_auction(&auction, 7, &s("S"), None, None, 5), Ok(()));
    // the index was retired to the ledger and is never recycled
    assert_eq!(
        f.register_auction(&s("other"), s("T"), reg_info(7, "y")),
        Err(RegistryError::DuplicateIndex)
    );
}

#[test]
fn registry_errors() {
    let mut f = factory_with_symbols();
    let auction = s("a");
    assert_eq!(f.register_auction(&auction, s("S"), reg_info(1, "x")), Ok(()));

    assert_eq!(
        f.register_bidder(&auction, 9, &s("B")),
        Err(RegistryError::UnknownAuction)
    );
    assert_eq!(
        f.change_auction_info(&auction, 9, Some(1), None),
        Err(RegistryError::UnknownAuction)
    );
    assert_eq!(
        f.close_auction(&auction, 9, &s("S"), None, None, 5),
        Err(RegistryError::UnknownAuction)
    );
    assert_eq!(
        f.close_auction(&auction, 1, &s("not-S"), None, None, 5),
        Err(RegistryError::SellerMismatch)
    );
    // only the auction instance itself may mutate its record
    assert_eq!(
        f.register_bidder(&s("intruder"), 1, &s("B")),
        Err(RegistryError::Unauthorized)
    );
    assert_eq!(
        f.close_auction(&s("intruder"), 1, &s("S"), None, None, 5),
        Err(RegistryError::Unauthorized)
    );
    assert_eq!(
        f.change_auction_info(&s("intruder"), 1, Some(1), None),
        Err(RegistryError::Unauthorized)
    );
}

#[test]
fn admin_toggles() {
    let mut f = new_factory();
    assert_eq!(f.set_status(&s("stranger"), true), Err(RegistryError::Unauthorized));
    assert_eq!(f.create_auction_check(), Ok(()));
    assert_eq!(f.set_status(&s("admin"), true), Ok(()));
    assert_eq!(f.create_auction_check(), Err(RegistryError::Stopped));
    assert_eq!(f.set_status(&s("admin"), false), Ok(()));
    assert_eq!(f.create_auction_check(), Ok(()));
    assert_eq!(
        f.new_auction_contract(&s("stranger"), AuctionContractInfo { code_id: 9, code_hash: s("h") }),
        Err(RegistryError::Unauthorized)
    );
    assert_eq!(
        f.new_auction_contract(&s("admin"), AuctionContractInfo { code_id: 9, code_hash: s("h") }),
        Ok(())
    );
}

#[test]
fn remove_bidder_is_idempotent_and_silent() {
    let mut f = factory_with_symbols();
    let auction = s("a");
    assert_eq!(f.register_auction(&auction, s("S"), reg_info(1, "x")), Ok(()));
    assert_eq!(f.register_bidder(&auction, 1, &s("B")), Ok(()));
    // removing twice in a row: no error on the second call, and a no-op
    assert_eq!(f.remove_bidder(&auction, 1, &s("B")), Ok(()));
    assert_eq!(f.remove_bidder(&auction, 1, &s("B")), Ok(()));
    // an index that is not live is not an error either
    assert_eq!(f.remove_bidder(&auction, 99, &s("B")), Ok(()));

    f.set_viewing_key(&s("B"), &s("k"));
    match f.list_my_auctions(&s("B"), &s("k"), Some(FilterTypes::Active)) {
        QueryAnswer::ListMyAuctions { active, .. } => assert!(active.is_none()),
        _ => panic!("unexpected answer"),
    }
}

#[test]
fn register_bidder_is_idempotent() {
    let mut f = factory_with_symbols();
    let auction = s("a");
    assert_eq!(f.register_auction(&auction, s("S"), reg_info(1, "x")), Ok(()));
    assert_eq!(f.register_bidder(&auction, 1, &s("B")), Ok(()));
    assert_eq!(f.register_bidder(&auction, 1, &s("B")), Ok(()));
    f.set_viewing_key(&s("B"), &s("k"));
    match f.list_my_auctions(&s("B"), &s("k"), Some(FilterTypes::Active)) {
        QueryAnswer::ListMyAuctions { active, .. } => {
            let as_bidder = active.expect("active").as_bidder.expect("bidder");
            assert_eq!(as_bidder.len(), 1);
        },
        _ => panic!("unexpected answer"),
    }
}
