use auction_registry::factory::Factory;
use auction_registry::msg::{AuctionContractInfo, InitMsg, QueryAnswer, RegisterAuctionInfo};

fn s(x: &str) -> String {
    x.to_string()
}

fn mk(index: u32, label: &str) -> RegisterAuctionInfo {
    RegisterAuctionInfo {
        index,
        label: s(label),
        sell_symbol: 0,
        bid_symbol: 1,
        sell_amount: 10,
        minimum_bid: 1,
        ends_at: 1,
    }
}

/// A factory with `n` auctions already closed, at timestamps 100, 101, ...
fn factory_with_closed(n: u32) -> Factory {
    let mut f = Factory::new(
        s("admin"),
        InitMsg {
            entropy: s("e"),
            auction_contract: AuctionContractInfo { code_id: 1, code_hash: s("h") },
        },
    );
    assert_eq!(f.intern_symbol(s("ONE"), 1), Some(0));
    assert_eq!(f.intern_symbol(s("TWO"), 2), Some(1));
    for i in 0..n {
        let addr = format!("auction{}", i);
        assert_eq!(f.register_auction(&addr, s("S"), mk(i, "x")), Ok(()));
        assert_eq!(
            f.close_auction(&addr, i, &s("S"), None, None, 100 + u64::from(i)),
            Ok(())
        );
    }
    f
}

#[test]
fn page_of_one_then_cursor_continues() {
    let f = factory_with_closed(2);
    // most recent first: position 1, with a cursor equal to its position
    let (page, next) = f.list_closed(None, 1);
    assert_eq!(page.len(), 1);
    assert_eq!(page[0].index, Some(1));
    assert_eq!(page[0].timestamp, 101);
    assert_eq!(next, Some(1));
    // the follow-up returns the earlier one and no further cursor
    let (page, next) = f.list_closed(Some(1), 1);
    assert_eq!(page.len(), 1);
    assert_eq!(page[0].index, Some(0));
    assert_eq!(page[0].timestamp, 100);
    assert_eq!(next, None);
}

#[test]
fn cursor_is_stable_under_later_closes() {
    let mut f = factory_with_closed(2);
    let (page1, next) = f.list_closed(None, 1);
    assert_eq!(next, Some(1));
    // two more auctions close after the cursor was fetched
    for i in 10..12u32 {
        let addr = format!("auction{}", i);
        assert_eq!(f.register_auction(&addr, s("S"), mk(i, "x")), Ok(()));
        assert_eq!(
            f.close_auction(&addr, i, &s("S"), None, None, 200 + u64::from(i)),
            Ok(())
        );
    }
    // the fetched page itself would now start later, but the cursor still
    // names the same records as before
    let (page2, next2) = f.list_closed(Some(1), 1);
    assert_eq!(page2.len(), 1);
    assert_eq!(page2[0].index, Some(0));
    assert_eq!(page2[0].timestamp, 100);
    assert_eq!(next2, None);
    assert_eq!(page1[0].index, Some(1));
}

#[test]
fn reverse_chronological_order_and_default_size() {
    let f = factory_with_closed(3);
    let (page, next) = f.list_closed(None, 200);
    assert_eq!(page.len(), 3);
    assert_eq!(page[0].index, Some(2));
    assert_eq!(page[1].index, Some(1));
    assert_eq!(page[2].index, Some(0));
    assert_eq!(next, None);
    match f.query_closed_auctions(None, None) {
        QueryAnswer::ListClosedAuctions { closed } => {
            let closed = closed.expect("closed list expected");
            assert_eq!(closed.len(), 3);
            assert_eq!(closed[0].timestamp, 102);
        },
        _ => panic!("unexpected answer"),
    }
}

#[test]
fn per_address_pages_follow_the_same_cursor_scheme() {
    let mut f = factory_with_closed(0);
    // closes by two sellers interleaved: positions 0,2 belong to S, 1 to T
    for (i, seller) in [(0u32, "S"), (1, "T"), (2, "S")] {
        let addr = format!("auction{}", i);
        assert_eq!(f.register_auction(&addr, s(seller), mk(i, "x")), Ok(()));
        assert_eq!(
            f.close_auction(&addr, i, &s(seller), None, None, 100 + u64::from(i)),
            Ok(())
        );
    }
    let (page, next) = f.closed.page_for(&s("S"), false, None, 1);
    assert_eq!(page, vec![2]);
    assert_eq!(next, Some(2));
    let (page, next) = f.closed.page_for(&s("S"), false, Some(2), 5);
    assert_eq!(page, vec![0]);
    assert_eq!(next, None);
    // T's single record, and nobody won anything
    let (page, next) = f.closed.page_for(&s("T"), false, None, 5);
    assert_eq!(page, vec![1]);
    assert_eq!(next, None);
    let (page, next) = f.closed.page_for(&s("S"), true, None, 5);
    assert!(page.is_empty());
    assert_eq!(next, None);
}

#[test]
fn empty_page_is_omitted() {
    let f = factory_with_closed(0);
    match f.query_closed_auctions(None, None) {
        QueryAnswer::ListClosedAuctions { closed } => assert!(closed.is_none()),
        _ => panic!("unexpected answer"),
    }
    let (page, next) = f.list_closed(None, 5);
    assert!(page.is_empty());
    assert_eq!(next, None);
    // a cursor of zero draws from nothing
    let (page, next) = f.list_closed(Some(0), 5);
    assert!(page.is_empty());
    assert_eq!(next, None);
}
