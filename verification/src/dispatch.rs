use vstd::prelude::*;
use crate::active::{add_bidder_m, change_m, has_index, remove_bidder_m, ActiveRecordModel};
use crate::closed::{has_closed_index, opt_view, ClosedRecordModel};
use crate::error::RegistryError;
use crate::factory::Factory;
use crate::keys::{advance_seed, key_chars, key_valid, mix64, str_hash};
use crate::msg::{HandleAnswer, HandleMsg, QueryAnswer, QueryMsg, ResponseStatus};
use crate::query::{
    matches_active_list, matches_closed_page, matches_my_auctions, keys_of,
    viewing_key_error_chars, DEFAULT_PAGE_SIZE,
};
use crate::closed::{page_positions};

verus! {

/// The generic success answer.
pub open spec fn success_answer(r: Result<HandleAnswer, RegistryError>) -> bool {
    r matches Ok(a) && a == (HandleAnswer::Status {
        status: ResponseStatus::Success,
        message: Option::None,
    })
}

impl Factory {
    /// Dispatches one mutating message on behalf of `caller`, whose
    /// identity the host runtime authenticated.  The caller policy is
    /// enforced per message class: registry transitions only for the
    /// auction instance the record names, status and version toggles only
    /// for the admin, creation for anyone while the factory runs, and
    /// viewing-key management for anyone.  A failure commits nothing.
    pub fn handle(&mut self, caller: &String, timestamp: u64, msg: HandleMsg) -> (r: Result<
        HandleAnswer,
        RegistryError,
    >)
        requires
            old(self).wf(),
            msg matches HandleMsg::RegisterAuction { auction, .. } ==> auction.sell_amount > 0
                && old(self).active@.len() + old(self).closed@.len() < 0xffff_ffff,
        ensures
            final(self).wf(),
            msg matches HandleMsg::CreateAuction { .. } ==> *final(self) == *old(self) && (if old(
                self,
            ).stopped {
                r == Err::<HandleAnswer, RegistryError>(RegistryError::Stopped)
            } else {
                success_answer(r)
            }),
            msg matches HandleMsg::RegisterAuction { seller, auction, .. } ==> {
                &&& Factory::same_but_registry(*old(self), *final(self))
                &&& final(self).closed == old(self).closed
                &&& ((has_index(old(self).active@, auction.index) || has_closed_index(
                    old(self).closed@,
                    auction.index,
                )) ==> r == Err::<HandleAnswer, RegistryError>(RegistryError::DuplicateIndex)
                    && *final(self) == *old(self))
                &&& (!(has_index(old(self).active@, auction.index) || has_closed_index(
                    old(self).closed@,
                    auction.index,
                )) ==> success_answer(r) && final(self).active@ =~~= old(self).active@.push(
                    ActiveRecordModel {
                        index: auction.index,
                        seller: seller@,
                        address: caller@,
                        label: auction.label@,
                        sell_symbol: auction.sell_symbol,
                        bid_symbol: auction.bid_symbol,
                        sell_amount: auction.sell_amount,
                        minimum_bid: auction.minimum_bid,
                        ends_at: auction.ends_at,
                        bidders: Seq::empty(),
                    },
                ))
            },
            msg matches HandleMsg::RegisterBidder { index, bidder } ==> {
                &&& Factory::same_but_registry(*old(self), *final(self))
                &&& final(self).closed == old(self).closed
                &&& (!has_index(old(self).active@, index) ==> r == Err::<
                    HandleAnswer,
                    RegistryError,
                >(RegistryError::UnknownAuction) && *final(self) == *old(self))
                &&& forall|k: int|
                    #![trigger old(self).active@[k]]
                    0 <= k < old(self).active@.len() && old(self).active@[k].index == index ==> {
                        &&& (old(self).active@[k].address != caller@ ==> r == Err::<
                            HandleAnswer,
                            RegistryError,
                        >(RegistryError::Unauthorized) && *final(self) == *old(self))
                        &&& (old(self).active@[k].address == caller@ ==> success_answer(r)
                            && final(self).active@ =~~= add_bidder_m(
                            old(self).active@,
                            index,
                            bidder@,
                        ))
                    }
            },
            msg matches HandleMsg::RemoveBidder { index, bidder } ==> {
                &&& Factory::same_but_registry(*old(self), *final(self))
                &&& final(self).closed == old(self).closed
                &&& (!has_index(old(self).active@, index) ==> success_answer(r) && *final(self)
                    == *old(self))
                &&& forall|k: int|
                    #![trigger old(self).active@[k]]
                    0 <= k < old(self).active@.len() && old(self).active@[k].index == index ==> {
                        &&& (old(self).active@[k].address != caller@ ==> r == Err::<
                            HandleAnswer,
                            RegistryError,
                        >(RegistryError::Unauthorized) && *final(self) == *old(self))
                        &&& (old(self).active@[k].address == caller@ ==> success_answer(r)
                            && final(self).active@ =~~= remove_bidder_m(
                            old(self).active@,
                            index,
                            bidder@,
                        ))
                    }
            },
            msg matches HandleMsg::ChangeAuctionInfo { index, ends_at, minimum_bid } ==> {
                &&& Factory::same_but_registry(*old(self), *final(self))
                &&& final(self).closed == old(self).closed
                &&& (!has_index(old(self).active@, index) ==> r == Err::<
                    HandleAnswer,
                    RegistryError,
                >(RegistryError::UnknownAuction) && *final(self) == *old(self))
                &&& forall|k: int|
                    #![trigger old(self).active@[k]]
                    0 <= k < old(self).active@.len() && old(self).active@[k].index == index ==> {
                        &&& (old(self).active@[k].address != caller@ ==> r == Err::<
                            HandleAnswer,
                            RegistryError,
                        >(RegistryError::Unauthorized) && *final(self) == *old(self))
                        &&& (old(self).active@[k].address == caller@ ==> success_answer(r)
                            && final(self).active@ =~~= change_m(
                            old(self).active@,
                            index,
                            ends_at,
                            minimum_bid,
                        ))
                    }
            },
            msg matches HandleMsg::CloseAuction { index, seller, bidder, winning_bid } ==> {
                &&& Factory::same_but_registry(*old(self), *final(self))
                &&& (!has_index(old(self).active@, index) ==> r == Err::<
                    HandleAnswer,
                    RegistryError,
                >(RegistryError::UnknownAuction) && *final(self) == *old(self))
                &&& forall|k: int|
                    #![trigger old(self).active@[k]]
                    0 <= k < old(self).active@.len() && old(self).active@[k].index == index ==> {
                        &&& (old(self).active@[k].address != caller@ ==> r == Err::<
                            HandleAnswer,
                            RegistryError,
                        >(RegistryError::Unauthorized) && *final(self) == *old(self))
                        &&& (old(self).active@[k].address == caller@ && old(self).active@[k].seller
                            != seller@ ==> r == Err::<HandleAnswer, RegistryError>(
                            RegistryError::SellerMismatch,
                        ) && *final(self) == *old(self))
                        &&& (old(self).active@[k].address == caller@ && old(self).active@[k].seller
                            == seller@ ==> success_answer(r) && final(self).active@ =~~= old(
                            self,
                        ).active@.remove(k) && final(self).closed@ =~~= old(self).closed@.push(
                            ClosedRecordModel {
                                index,
                                seller: old(self).active@[k].seller,
                                winner: opt_view(bidder),
                                address: old(self).active@[k].address,
                                label: old(self).active@[k].label,
                                sell_symbol: old(self).active@[k].sell_symbol,
                                bid_symbol: old(self).active@[k].bid_symbol,
                                sell_amount: old(self).active@[k].sell_amount,
                                winning_bid,
                                timestamp,
                            },
                        ))
                    }
            },
            msg matches HandleMsg::NewAuctionContract { auction_contract } ==> {
                &&& (caller@ != old(self).admin@ ==> r == Err::<HandleAnswer, RegistryError>(
                    RegistryError::Unauthorized,
                ) && *final(self) == *old(self))
                &&& (caller@ == old(self).admin@ ==> success_answer(r) && final(self).versions@
                    =~= old(self).versions@.push(auction_contract) && *final(self) == (Factory {
                    versions: final(self).versions,
                    ..*old(self)
                }))
            },
            msg matches HandleMsg::SetStatus { stop } ==> {
                &&& (caller@ != old(self).admin@ ==> r == Err::<HandleAnswer, RegistryError>(
                    RegistryError::Unauthorized,
                ) && *final(self) == *old(self))
                &&& (caller@ == old(self).admin@ ==> success_answer(r) && *final(self) == (Factory {
                    stopped: stop,
                    ..*old(self)
                }))
            },
            msg matches HandleMsg::CreateViewingKey { entropy } ==> {
                &&& Factory::same_but_keys(*old(self), *final(self))
                &&& final(self).auth.seed == advance_seed(old(self).auth.seed, entropy@)
                &&& (r matches Ok(a) && a matches HandleAnswer::ViewingKey { key } && key@
                    == key_chars(mix64(final(self).auth.seed, str_hash(caller@)))
                    && final(self).auth.verifier_map() =~= old(self).auth.verifier_map().insert(
                    caller@,
                    str_hash(key@),
                ))
            },
            msg matches HandleMsg::SetViewingKey { key, .. } ==> {
                &&& Factory::same_but_keys(*old(self), *final(self))
                &&& final(self).auth.seed == old(self).auth.seed
                &&& final(self).auth.verifier_map() =~= old(self).auth.verifier_map().insert(
                    caller@,
                    str_hash(key@),
                )
                &&& (r matches Ok(a) && a matches HandleAnswer::ViewingKey { key: k } && k@
                    == key@)
            },
    {
        match msg {
            HandleMsg::CreateAuction { .. } => {
                match self.create_auction_check() {
                    Ok(()) => Ok(
                        HandleAnswer::Status {
                            status: ResponseStatus::Success,
                            message: None,
                        },
                    ),
                    Err(e) => Err(e),
                }
            },
            HandleMsg::RegisterAuction { seller, auction, sell_contract: _ } => {
                match self.register_auction(caller, seller, auction) {
                    Ok(()) => Ok(
                        HandleAnswer::Status {
                            status: ResponseStatus::Success,
                            message: None,
                        },
                    ),
                    Err(e) => Err(e),
                }
            },
            HandleMsg::CloseAuction { index, seller, bidder, winning_bid } => {
                match self.close_auction(caller, index, &seller, bidder, winning_bid, timestamp) {
                    Ok(()) => Ok(
                        HandleAnswer::Status {
                            status: ResponseStatus::Success,
                            message: None,
                        },
                    ),
                    Err(e) => Err(e),
                }
            },
            HandleMsg::RegisterBidder { index, bidder } => {
                match self.register_bidder(caller, index, &bidder) {
                    Ok(()) => Ok(
                        HandleAnswer::Status {
                            status: ResponseStatus::Success,
                            message: None,
                        },
                    ),
                    Err(e) => Err(e),
                }
            },
            HandleMsg::RemoveBidder { index, bidder } => {
                match self.remove_bidder(caller, index, &bidder) {
                    Ok(()) => Ok(
                        HandleAnswer::Status {
                            status: ResponseStatus::Success,
                            message: None,
                        },
                    ),
                    Err(e) => Err(e),
                }
            },
            HandleMsg::NewAuctionContract { auction_contract } => {
                match self.new_auction_contract(caller, auction_contract) {
                    Ok(()) => Ok(
                        HandleAnswer::Status {
                            status: ResponseStatus::Success,
                            message: None,
                        },
                    ),
                    Err(e) => Err(e),
                }
            },
            HandleMsg::CreateViewingKey { entropy } => {
                let key = self.create_viewing_key(caller, &entropy);
                Ok(HandleAnswer::ViewingKey { key })
            },
            HandleMsg::SetViewingKey { key, padding: _ } => {
                self.set_viewing_key(caller, &key);
                Ok(HandleAnswer::ViewingKey { key })
            },
            HandleMsg::SetStatus { stop } => {
                match self.set_status(caller, stop) {
                    Ok(()) => Ok(
                        HandleAnswer::Status {
                            status: ResponseStatus::Success,
                            message: None,
                        },
                    ),
                    Err(e) => Err(e),
                }
            },
            HandleMsg::ChangeAuctionInfo { index, ends_at, minimum_bid } => {
                match self.change_auction_info(caller, index, ends_at, minimum_bid) {
                    Ok(()) => Ok(
                        HandleAnswer::Status {
                            status: ResponseStatus::Success,
                            message: None,
                        },
                    ),
                    Err(e) => Err(e),
                }
            },
        }
    }

    /// Dispatches one read-only query.  Queries are open to any address;
    /// the ownership listing is additionally gated by the viewing key.
    pub fn query(&self, msg: QueryMsg) -> (r: QueryAnswer)
        requires
            self.wf(),
        ensures
            msg matches QueryMsg::IsKeyValid { address, viewing_key } ==> r == (
            QueryAnswer::IsKeyValid {
                is_valid: key_valid(self.auth.verifier_map(), address@, viewing_key@),
            }),
            msg matches QueryMsg::ListMyAuctions { address, viewing_key, filter } ==> {
                &&& ((r is ViewingKeyError) <==> !key_valid(
                    self.auth.verifier_map(),
                    address@,
                    viewing_key@,
                ))
                &&& (r matches QueryAnswer::ViewingKeyError { error } ==> error@
                    == viewing_key_error_chars())
                &&& (key_valid(self.auth.verifier_map(), address@, viewing_key@)
                    ==> matches_my_auctions(*self, address@, filter, r))
            },
            msg matches QueryMsg::ListActiveAuctions { .. } ==> (r
                matches QueryAnswer::ListActiveAuctions { active } && (active is Some
                <==> self.active@.len() > 0) && (active matches Some(l) ==> matches_active_list(
                l@,
                self.active@,
                self.symbols@,
                keys_of(self.active@),
            ))),
            msg matches QueryMsg::ListClosedAuctions { before, page_size } ==> ({
                let n = (match page_size {
                    Option::Some(p) => p,
                    Option::None => DEFAULT_PAGE_SIZE,
                }) as int;
                r matches QueryAnswer::ListClosedAuctions { closed } && (closed is Some
                    <==> page_positions(self.closed@.len() as int, before, n).len() > 0) && (
                closed matches Some(l) ==> matches_closed_page(
                    l@,
                    self.closed@,
                    self.symbols@,
                    page_positions(self.closed@.len() as int, before, n),
                    true,
                ))
            }),
    {
        match msg {
            QueryMsg::ListMyAuctions { address, viewing_key, filter } => {
                self.list_my_auctions(&address, &viewing_key, filter)
            },
            QueryMsg::ListActiveAuctions {  } => self.query_active_auctions(),
            QueryMsg::ListClosedAuctions { before, page_size } => {
                self.query_closed_auctions(before, page_size)
            },
            QueryMsg::IsKeyValid { address, viewing_key } => {
                let is_valid = self.is_key_valid(&address, &viewing_key);
                QueryAnswer::IsKeyValid { is_valid }
            },
        }
    }
}

} // verus!
