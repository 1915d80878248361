use auction_registry::error::RegistryError;
use auction_registry::factory::Factory;
use auction_registry::msg::{
    AuctionContractInfo, HandleAnswer, HandleMsg, InitMsg, QueryAnswer, QueryMsg,
    RegisterAuctionInfo, ResponseStatus,
};

fn s(x: &str) -> String {
    x.to_string()
}

fn new_factory() -> Factory {
    let mut f = Factory::new(
        s("admin"),
        InitMsg {
            entropy: s("e"),
            auction_contract: AuctionContractInfo { code_id: 1, code_hash: s("h") },
        },
    );
    assert_eq!(f.intern_symbol(s("ONE"), 1), Some(0));
    assert_eq!(f.intern_symbol(s("TWO"), 2), Some(1));
    f
}

fn register_msg(index: u32) -> HandleMsg {
    HandleMsg::RegisterAuction {
        seller: s("S"),
        auction: RegisterAuctionInfo {
            index,
            label: s("x"),
            sell_symbol: 0,
            bid_symbol: 1,
            sell_amount: 10,
            minimum_bid: 1,
            ends_at: 1,
        },
        sell_contract: auction_registry::msg::ContractInfo {
            code_hash: s("ch"),
            address: s("token"),
        },
    }
}

fn assert_success(r: Result<HandleAnswer, RegistryError>) {
    match r {
        Ok(HandleAnswer::Status { status, message }) => {
            assert!(matches!(status, ResponseStatus::Success));
            assert!(message.is_none());
        },
        _ => panic!("expected a success status"),
    }
}

#[test]
fn lifecycle_through_messages() {
    let mut f = new_factory();
    let auction = s("auction0");
    assert_success(f.handle(&auction, 10, register_msg(0)));
    assert_success(f.handle(&auction, 11, HandleMsg::RegisterBidder { index: 0, bidder: s("B") }));
    let key = match f.handle(&s("B"), 12, HandleMsg::CreateViewingKey { entropy: s("n") }) {
        Ok(HandleAnswer::ViewingKey { key }) => key,
        _ => panic!("expected a viewing key"),
    };
    match f.query(QueryMsg::IsKeyValid { address: s("B"), viewing_key: key.clone() }) {
        QueryAnswer::IsKeyValid { is_valid } => assert!(is_valid),
        _ => panic!("unexpected answer"),
    }
    assert_success(f.handle(
        &auction,
        13,
        HandleMsg::CloseAuction {
            index: 0,
            seller: s("S"),
            bidder: Some(s("B")),
            winning_bid: Some(9),
        },
    ));
    match f.query(QueryMsg::ListActiveAuctions {}) {
        QueryAnswer::ListActiveAuctions { active } => assert!(active.is_none()),
        _ => panic!("unexpected answer"),
    }
    match f.query(QueryMsg::ListClosedAuctions { before: None, page_size: None }) {
        QueryAnswer::ListClosedAuctions { closed } => {
            let closed = closed.expect("closed list expected");
            assert_eq!(closed.len(), 1);
            assert_eq!(closed[0].winning_bid, Some(9));
            assert_eq!(closed[0].timestamp, 13);
        },
        _ => panic!("unexpected answer"),
    }
    match f.query(QueryMsg::ListMyAuctions {
        address: s("B"),
        viewing_key: key,
        filter: None,
    }) {
        QueryAnswer::ListMyAuctions { active, closed } => {
            assert!(active.is_none());
            let won = closed.expect("closed").won.expect("won");
            assert_eq!(won.len(), 1);
        },
        _ => panic!("unexpected answer"),
    }
}

#[test]
fn creation_policy_through_messages() {
    let mut f = new_factory();
    let create = || HandleMsg::CreateAuction {
        label: s("l"),
        sell_contract: auction_registry::msg::ContractInfo { code_hash: s("a"), address: s("x") },
        bid_contract: auction_registry::msg::ContractInfo { code_hash: s("b"), address: s("y") },
        sell_amount: 5,
        minimum_bid: 1,
        ends_at: 9,
        description: None,
    };
    assert_success(f.handle(&s("anyone"), 1, create()));
    assert!(matches!(
        f.handle(&s("anyone"), 2, HandleMsg::SetStatus { stop: true }),
        Err(RegistryError::Unauthorized)
    ));
    assert_success(f.handle(&s("admin"), 3, HandleMsg::SetStatus { stop: true }));
    assert!(matches!(f.handle(&s("anyone"), 4, create()), Err(RegistryError::Stopped)));
    assert_success(f.handle(&s("admin"), 5, HandleMsg::SetStatus { stop: false }));
    assert_success(f.handle(&s("anyone"), 6, create()));
}

#[test]
fn set_viewing_key_echoes_and_stores() {
    let mut f = new_factory();
    match f.handle(
        &s("alice"),
        1,
        HandleMsg::SetViewingKey { key: s("pw"), padding: Some(s("xxxx")) },
    ) {
        Ok(HandleAnswer::ViewingKey { key }) => assert_eq!(key, "pw"),
        _ => panic!("expected the key back"),
    }
    match f.query(QueryMsg::IsKeyValid { address: s("alice"), viewing_key: s("pw") }) {
        QueryAnswer::IsKeyValid { is_valid } => assert!(is_valid),
        _ => panic!("unexpected answer"),
    }
}
