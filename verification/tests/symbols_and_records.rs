use auction_registry::factory::Factory;
use auction_registry::msg::{
    AuctionContractInfo, FilterTypes, InitMsg, QueryAnswer, RegisterAuctionInfo,
};
use auction_registry::symbols::SymbolTable;

fn s(x: &str) -> String {
    x.to_string()
}

#[test]
fn interning_is_stable_and_pairs_render() {
    let mut t = SymbolTable::new();
    assert_eq!(t.intern(s("ABC"), 3), Some(0));
    assert_eq!(t.intern(s("XYZ"), 9), Some(1));
    // a symbol already present keeps its first index and decimals
    assert_eq!(t.intern(s("ABC"), 7), Some(0));
    assert_eq!(t.decimals(0), 3);
    assert_eq!(t.decimals(1), 9);
    assert_eq!(t.pair_string(0, 1), "ABC-XYZ");
    assert_eq!(t.pair_string(1, 0), "XYZ-ABC");
    // an index that was never interned contributes an empty symbol
    assert_eq!(t.pair_string(0, 40), "ABC-");
    assert_eq!(t.decimals(40), 0);
}

#[test]
fn register_info_converts_to_stored_record() {
    let info = RegisterAuctionInfo {
        index: 3,
        label: s("lbl"),
        sell_symbol: 1,
        bid_symbol: 2,
        sell_amount: 55,
        minimum_bid: 7,
        ends_at: 99,
    };
    let stored = info.to_store_auction_info(s("addr"));
    assert_eq!(stored.address, "addr");
    assert_eq!(stored.label, "lbl");
    assert_eq!(stored.sell_symbol, 1);
    assert_eq!(stored.bid_symbol, 2);
    assert_eq!(stored.sell_amount, 55);
    assert_eq!(stored.minimum_bid, 7);
    assert_eq!(stored.ends_at, 99);

    let closed = stored.to_store_closed_auction_info(Some(60), 1234);
    assert_eq!(closed.address, "addr");
    assert_eq!(closed.label, "lbl");
    assert_eq!(closed.sell_symbol, 1);
    assert_eq!(closed.bid_symbol, 2);
    assert_eq!(closed.sell_amount, 55);
    assert_eq!(closed.winning_bid, Some(60));
    assert_eq!(closed.timestamp, 1234);

    let unsold = stored.to_store_closed_auction_info(None, 1235);
    assert_eq!(unsold.winning_bid, None);
}

#[test]
fn filter_all_returns_both_categories() {
    let mut f = Factory::new(
        s("admin"),
        InitMsg {
            entropy: s("e"),
            auction_contract: AuctionContractInfo { code_id: 1, code_hash: s("h") },
        },
    );
    assert_eq!(f.intern_symbol(s("ONE"), 1), Some(0));
    assert_eq!(f.intern_symbol(s("TWO"), 2), Some(1));
    let mk = |index: u32| RegisterAuctionInfo {
        index,
        label: s("x"),
        sell_symbol: 0,
        bid_symbol: 1,
        sell_amount: 10,
        minimum_bid: 1,
        ends_at: 1,
    };
    // one auction the seller closed, one still live
    assert_eq!(f.register_auction(&s("a0"), s("S"), mk(0)), Ok(()));
    assert_eq!(f.close_auction(&s("a0"), 0, &s("S"), None, None, 100), Ok(()));
    assert_eq!(f.register_auction(&s("a1"), s("S"), mk(1)), Ok(()));

    f.set_viewing_key(&s("S"), &s("k"));
    match f.list_my_auctions(&s("S"), &s("k"), Some(FilterTypes::All)) {
        QueryAnswer::ListMyAuctions { active, closed } => {
            let active = active.expect("active expected");
            let as_seller = active.as_seller.expect("active as_seller expected");
            assert_eq!(as_seller.len(), 1);
            assert_eq!(as_seller[0].address, "a1");
            assert!(active.as_bidder.is_none());
            let closed = closed.expect("closed expected");
            let sold = closed.as_seller.expect("closed as_seller expected");
            assert_eq!(sold.len(), 1);
            assert_eq!(sold[0].address, "a0");
            // closed unsold: no winning bid, so nobody won it
            assert!(closed.won.is_none());
        },
        _ => panic!("unexpected answer"),
    }

    // an uninvolved address with a valid key sees nothing at all
    f.set_viewing_key(&s("N"), &s("k2"));
    match f.list_my_auctions(&s("N"), &s("k2"), None) {
        QueryAnswer::ListMyAuctions { active, closed } => {
            assert!(active.is_none());
            assert!(closed.is_none());
        },
        _ => panic!("unexpected answer"),
    }
}

#[test]
fn closed_seller_lists_are_reverse_chronological() {
    let mut f = Factory::new(
        s("admin"),
        InitMsg {
            entropy: s("e"),
            auction_contract: AuctionContractInfo { code_id: 1, code_hash: s("h") },
        },
    );
    assert_eq!(f.intern_symbol(s("ONE"), 1), Some(0));
    let mk = |index: u32| RegisterAuctionInfo {
        index,
        label: s("x"),
        sell_symbol: 0,
        bid_symbol: 0,
        sell_amount: 10,
        minimum_bid: 1,
        ends_at: 1,
    };
    for i in 0..3u32 {
        let addr = format!("a{}", i);
        assert_eq!(f.register_auction(&addr, s("S"), mk(i)), Ok(()));
        assert_eq!(
            f.close_auction(&addr, i, &s("S"), None, None, 100 + u64::from(i)),
            Ok(())
        );
    }
    f.set_viewing_key(&s("S"), &s("k"));
    match f.list_my_auctions(&s("S"), &s("k"), Some(FilterTypes::Closed)) {
        QueryAnswer::ListMyAuctions { closed, .. } => {
            let sold = closed.expect("closed").as_seller.expect("as_seller");
            assert_eq!(sold.len(), 3);
            assert_eq!(sold[0].timestamp, 102);
            assert_eq!(sold[1].timestamp, 101);
            assert_eq!(sold[2].timestamp, 100);
        },
        _ => panic!("unexpected answer"),
    }
}
