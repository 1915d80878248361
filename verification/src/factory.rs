use vstd::prelude::*;
use crate::active::{
    active_wf, add_bidder_m, change_m, has_index, remove_bidder_m, ActiveRecordModel,
    ActiveRegistry, in_active_as_bidder, in_active_as_seller, lemma_index_uniqueness,
};
use crate::closed::{
    closed_wf, count_index, has_closed_index, lemma_closed_once, opt_view, role_match,
    ClosedLedger, ClosedRecordModel,
};
use crate::error::RegistryError;
use crate::keys::{advance_seed, key_chars, key_valid, mix64, str_hash, Authenticator, HASH_BASIS};
use crate::msg::{AuctionContractInfo, InitMsg, RegisterAuctionInfo};
use crate::symbols::{symbols_wf, SymbolTable};

verus! {

/// The registry and query core of the auction factory: the live auctions,
/// the ledger of closed ones, the interned symbols, the viewing keys, and
/// the administrative toggles.  Every mutating operation enforces the
/// caller policy: registry transitions belong to the auction instance the
/// record names, status and version toggles to the admin, viewing-key
/// management to anyone.
pub struct Factory {
    /// the admin identity
    pub admin: String,
    /// whether auction creation is halted
    pub stopped: bool,
    /// the auction contract versions, newest last
    pub versions: Vec<AuctionContractInfo>,
    /// the symbol table
    pub symbols: SymbolTable,
    /// the live auctions
    pub active: ActiveRegistry,
    /// the closed-auction ledger
    pub closed: ClosedLedger,
    /// the viewing-key authenticator
    pub auth: Authenticator,
}

impl Factory {
    /// Well-formedness: both stores are well formed, no index is live and
    /// retired at once — indices are never recycled — and the total
    /// number of auctions ever registered leaves room for one more `u32`
    /// ledger position.
    pub open spec fn wf(self) -> bool {
        &&& active_wf(self.active@)
        &&& closed_wf(self.closed@)
        &&& symbols_wf(self.symbols@)
        &&& self.auth.wf()
        &&& self.active@.len() + self.closed@.len() <= 0xffff_ffff
        &&& forall|i: int, j: int|
            #![trigger self.active@[i], self.closed@[j]]
            0 <= i < self.active@.len() && 0 <= j < self.closed@.len() ==> self.active@[i].index
                != self.closed@[j].index
    }

    /// Everything but the two auction stores is unchanged.
    pub open spec fn same_but_registry(pre: Factory, post: Factory) -> bool {
        &&& post.admin == pre.admin
        &&& post.stopped == pre.stopped
        &&& post.versions == pre.versions
        &&& post.symbols == pre.symbols
        &&& post.auth == pre.auth
    }

    /// Everything but the viewing-key state is unchanged.
    pub open spec fn same_but_keys(pre: Factory, post: Factory) -> bool {
        &&& post.admin == pre.admin
        &&& post.stopped == pre.stopped
        &&& post.versions == pre.versions
        &&& post.symbols == pre.symbols
        &&& post.active == pre.active
        &&& post.closed == pre.closed
    }

    /// A fresh factory, halted for nobody, with the given admin and the
    /// first auction contract version, its key seed derived from the
    /// instantiation entropy.
    pub fn new(admin: String, init: InitMsg) -> (r: Factory)
        ensures
            r.wf(),
            r.admin == admin,
            r.stopped == false,
            r.versions@ =~= seq![init.auction_contract],
            r.symbols@.len() == 0,
            r.active@.len() == 0,
            r.closed@.len() == 0,
            r.auth.verifier_map() =~= Map::<Seq<char>, u64>::empty(),
            r.auth.seed == mix64(HASH_BASIS, str_hash(init.entropy@)),
    {
        let auth = Authenticator::new(&init.entropy);
        let mut versions: Vec<AuctionContractInfo> = Vec::new();
        versions.push(init.auction_contract);
        Factory {
            admin,
            stopped: false,
            versions,
            symbols: SymbolTable::new(),
            active: ActiveRegistry::new(),
            closed: ClosedLedger::new(),
            auth,
        }
    }

    /// Whether a creation request may proceed: any address may create,
    /// but only while the factory is not stopped.  Instantiating the
    /// auction itself belongs to the execution component.
    pub fn create_auction_check(&self) -> (r: Result<(), RegistryError>)
        ensures
            self.stopped ==> r == Err::<(), RegistryError>(RegistryError::Stopped),
            !self.stopped ==> r == Ok::<(), RegistryError>(()),
    {
        if self.stopped {
            Err(RegistryError::Stopped)
        } else {
            Ok(())
        }
    }

    /// Interns a token symbol for use in stored records.
    pub fn intern_symbol(&mut self, symbol: String, decimals: u8) -> (r: Option<u16>)
        requires
            old(self).wf(),
        ensures
            final(self).wf(),
            final(self).admin == old(self).admin,
            final(self).stopped == old(self).stopped,
            final(self).versions == old(self).versions,
            final(self).active == old(self).active,
            final(self).closed == old(self).closed,
            final(self).auth == old(self).auth,
            crate::symbols::has_symbol(old(self).symbols@, symbol@) ==> final(self).symbols@
                =~= old(self).symbols@ && (r matches Some(i) && 0 <= i < old(self).symbols@.len()
                && old(self).symbols@[i as int].name == symbol@),
            !crate::symbols::has_symbol(old(self).symbols@, symbol@) && old(self).symbols@.len()
                < 0x10000 ==> r == Some(old(self).symbols@.len() as u16) && final(self).symbols@
                =~= old(self).symbols@.push(
                crate::symbols::SymbolModel { name: symbol@, decimals },
            ),
            !crate::symbols::has_symbol(old(self).symbols@, symbol@) && old(self).symbols@.len()
                >= 0x10000 ==> r is None && final(self).symbols@ =~= old(self).symbols@,
    {
        self.symbols.intern(symbol, decimals)
    }

    /// Registers a newly instantiated auction.  The caller is the auction
    /// instance itself; its identity becomes the record's address.  The
    /// index the auction service reports is authoritative, but a
    /// registration that would reuse one — live or already retired —
    /// fails with `DuplicateIndex`.
    pub fn register_auction(
        &mut self,
        caller: &String,
        seller: String,
        auction: RegisterAuctionInfo,
    ) -> (r: Result<(), RegistryError>)
        requires
            old(self).wf(),
            auction.sell_amount > 0,
            old(self).active@.len() + old(self).closed@.len() < 0xffff_ffff,
        ensures
            final(self).wf(),
            Factory::same_but_registry(*old(self), *final(self)),
            final(self).closed == old(self).closed,
            (has_index(old(self).active@, auction.index) || has_closed_index(
                old(self).closed@,
                auction.index,
            )) ==> r == Err::<(), RegistryError>(RegistryError::DuplicateIndex) && *final(self)
                == *old(self),
            !(has_index(old(self).active@, auction.index) || has_closed_index(
                old(self).closed@,
                auction.index,
            )) ==> r == Ok::<(), RegistryError>(()) && final(self).active@ =~~= old(
                self,
            ).active@.push(
                ActiveRecordModel {
                    index: auction.index,
                    seller: seller@,
                    address: caller@,
                    label: auction.label@,
                    sell_symbol: auction.sell_symbol,
                    bid_symbol: auction.bid_symbol,
                    sell_amount: auction.sell_amount,
                    minimum_bid: auction.minimum_bid,
                    ends_at: auction.ends_at,
                    bidders: Seq::empty(),
                },
            ),
    {
        if self.closed.contains_index(auction.index) {
            return Err(RegistryError::DuplicateIndex);
        }
        let ghost pre = *self;
        let r = self.active.register(seller, auction, caller.clone());
        proof {
            if !has_index(pre.active@, auction.index) {
                assert forall|i: int, j: int|
                    #![trigger self.active@[i], self.closed@[j]]
                    0 <= i < self.active@.len() && 0 <= j < self.closed@.len() implies self.active@[i].index
                    != self.closed@[j].index by {
                    if i < self.active@.len() - 1 {
                        assert(self.active@[i] == pre.active@[i]);
                    } else {
                        assert(self.active@[i].index == auction.index);
                        assert(!has_closed_index(pre.closed@, auction.index));
                    }
                }
            }
        }
        r
    }

    /// Records a new bidder on a live auction, idempotently.  Only the
    /// auction instance the record names may call this.
    pub fn register_bidder(&mut self, caller: &String, index: u32, bidder: &String) -> (r: Result<
        (),
        RegistryError,
    >)
        requires
            old(self).wf(),
        ensures
            final(self).wf(),
            Factory::same_but_registry(*old(self), *final(self)),
            final(self).closed == old(self).closed,
            !has_index(old(self).active@, index) ==> r == Err::<(), RegistryError>(
                RegistryError::UnknownAuction,
            ) && *final(self) == *old(self),
            forall|k: int|
                #![trigger old(self).active@[k]]
                0 <= k < old(self).active@.len() && old(self).active@[k].index == index ==> {
                    &&& (old(self).active@[k].address != caller@ ==> r == Err::<(), RegistryError>(
                        RegistryError::Unauthorized,
                    ) && *final(self) == *old(self))
                    &&& (old(self).active@[k].address == caller@ ==> r == Ok::<(), RegistryError>(
                        (),
                    ) && final(self).active@ =~~= add_bidder_m(old(self).active@, index, bidder@))
                },
    {
        let k = match self.active.find(index) {
            None => {
                return Err(RegistryError::UnknownAuction);
            },
            Some(k) => k,
        };
        proof {
            assert forall|l: int|
                0 <= l < self.active@.len() && self.active@[l].index == index implies l
                == k as int by {
                if l != k as int {
                    lemma_index_uniqueness(self.active@, l, k as int);
                }
            }
        }
        if !(self.active.entries[k].info.address == *caller) {
            return Err(RegistryError::Unauthorized);
        }
        self.active.add_bidder(index, bidder)
    }

    /// Drops a bidder's outstanding bid, idempotently: removing a bidder
    /// that is not there, or from an index that is no longer live, is a
    /// silent no-op, since the auction service cannot always know whether
    /// a prior removal already landed.
    pub fn remove_bidder(&mut self, caller: &String, index: u32, bidder: &String) -> (r: Result<
        (),
        RegistryError,
    >)
        requires
            old(self).wf(),
        ensures
            final(self).wf(),
            Factory::same_but_registry(*old(self), *final(self)),
            final(self).closed == old(self).closed,
            !has_index(old(self).active@, index) ==> r == Ok::<(), RegistryError>(())
                && *final(self) == *old(self),
            forall|k: int|
                #![trigger old(self).active@[k]]
                0 <= k < old(self).active@.len() && old(self).active@[k].index == index ==> {
                    &&& (old(self).active@[k].address != caller@ ==> r == Err::<(), RegistryError>(
                        RegistryError::Unauthorized,
                    ) && *final(self) == *old(self))
                    &&& (old(self).active@[k].address == caller@ ==> r == Ok::<(), RegistryError>(
                        (),
                    ) && final(self).active@ =~~= remove_bidder_m(
                        old(self).active@,
                        index,
                        bidder@,
                    ))
                },
    {
        let k = match self.active.find(index) {
            None => {
                return Ok(());
            },
            Some(k) => k,
        };
        proof {
            assert forall|l: int|
                0 <= l < self.active@.len() && self.active@[l].index == index implies l
                == k as int by {
                if l != k as int {
                    lemma_index_uniqueness(self.active@, l, k as int);
                }
            }
        }
        if !(self.active.entries[k].info.address == *caller) {
            return Err(RegistryError::Unauthorized);
        }
        self.active.remove_bidder(index, bidder);
        Ok(())
    }

    /// Applies a partial update of the closing time and minimum bid.
    /// Only the auction instance the record names may call this.
    pub fn change_auction_info(
        &mut self,
        caller: &String,
        index: u32,
        ends_at: Option<u64>,
        minimum_bid: Option<u128>,
    ) -> (r: Result<(), RegistryError>)
        requires
            old(self).wf(),
        ensures
            final(self).wf(),
            Factory::same_but_registry(*old(self), *final(self)),
            final(self).closed == old(self).closed,
            !has_index(old(self).active@, index) ==> r == Err::<(), RegistryError>(
                RegistryError::UnknownAuction,
            ) && *final(self) == *old(self),
            forall|k: int|
                #![trigger old(self).active@[k]]
                0 <= k < old(self).active@.len() && old(self).active@[k].index == index ==> {
                    &&& (old(self).active@[k].address != caller@ ==> r == Err::<(), RegistryError>(
                        RegistryError::Unauthorized,
                    ) && *final(self) == *old(self))
                    &&& (old(self).active@[k].address == caller@ ==> r == Ok::<(), RegistryError>(
                        (),
                    ) && final(self).active@ =~~= change_m(
                        old(self).active@,
                        index,
                        ends_at,
                        minimum_bid,
                    ))
                },
    {
        let k = match self.active.find(index) {
            None => {
                return Err(RegistryError::UnknownAuction);
            },
            Some(k) => k,
        };
        proof {
            assert forall|l: int|
                0 <= l < self.active@.len() && self.active@[l].index == index implies l
                == k as int by {
                if l != k as int {
                    lemma_index_uniqueness(self.active@, l, k as int);
                }
            }
        }
        if !(self.active.entries[k].info.address == *caller) {
            return Err(RegistryError::Unauthorized);
        }
        self.active.update_info(index, ends_at, minimum_bid)
    }

    /// Closes a live auction: removes its record — and with it the index
    /// from the seller's and every bidder's active sets — and appends the
    /// closed snapshot, with the winning bid if the auction ended in a
    /// swap, to the ledger.  Only the auction instance the record names
    /// may close it; a close naming the wrong seller is rejected as a
    /// spoof attempt.
    pub fn close_auction(
        &mut self,
        caller: &String,
        index: u32,
        seller: &String,
        bidder: Option<String>,
        winning_bid: Option<u128>,
        timestamp: u64,
    ) -> (r: Result<(), RegistryError>)
        requires
            old(self).wf(),
        ensures
            final(self).wf(),
            Factory::same_but_registry(*old(self), *final(self)),
            !has_index(old(self).active@, index) ==> r == Err::<(), RegistryError>(
                RegistryError::UnknownAuction,
            ) && *final(self) == *old(self),
            forall|k: int|
                #![trigger old(self).active@[k]]
                0 <= k < old(self).active@.len() && old(self).active@[k].index == index ==> {
                    &&& (old(self).active@[k].address != caller@ ==> r == Err::<(), RegistryError>(
                        RegistryError::Unauthorized,
                    ) && *final(self) == *old(self))
                    &&& (old(self).active@[k].address == caller@ && old(self).active@[k].seller
                        != seller@ ==> r == Err::<(), RegistryError>(RegistryError::SellerMismatch)
                        && *final(self) == *old(self))
                    &&& (old(self).active@[k].address == caller@ && old(self).active@[k].seller
                        == seller@ ==> r == Ok::<(), RegistryError>(()) && final(self).active@
                        =~~= old(self).active@.remove(k) && final(self).closed@ =~~= old(
                        self,
                    ).closed@.push(
                        ClosedRecordModel {
                            index,
                            seller: old(self).active@[k].seller,
                            winner: opt_view(bidder),
                            address: old(self).active@[k].address,
                            label: old(self).active@[k].label,
                            sell_symbol: old(self).active@[k].sell_symbol,
                            bid_symbol: old(self).active@[k].bid_symbol,
                            sell_amount: old(self).active@[k].sell_amount,
                            winning_bid,
                            timestamp,
                        },
                    ))
                },
    {
        let k = match self.active.find(index) {
            None => {
                return Err(RegistryError::UnknownAuction);
            },
            Some(k) => k,
        };
        proof {
            assert forall|l: int|
                0 <= l < self.active@.len() && self.active@[l].index == index implies l
                == k as int by {
                if l != k as int {
                    lemma_index_uniqueness(self.active@, l, k as int);
                }
            }
        }
        if !(self.active.entries[k].info.address == *caller) {
            return Err(RegistryError::Unauthorized);
        }
        let ghost pre = *self;
        let e = match self.active.close(index, seller) {
            Err(err) => {
                proof {
                    assert(pre.active@[k as int].index == index);
                    if pre.active@[k as int].seller == seller@ {
                        assert(false);
                    }
                }
                return Err(err);
            },
            Ok(e) => e,
        };
        let snap = e.info.to_store_closed_auction_info(winning_bid, timestamp);
        proof {
            assert forall|j: int| 0 <= j < pre.closed@.len() implies pre.closed@[j].index
                != index by {
                assert(pre.active@[k as int].index == index);
            }
            assert(!has_closed_index(pre.closed@, index));
        }
        self.closed.append(e.seller, bidder, index, snap);
        proof {
            assert forall|i: int, j: int|
                #![trigger self.active@[i], self.closed@[j]]
                0 <= i < self.active@.len() && 0 <= j < self.closed@.len() implies self.active@[i].index
                != self.closed@[j].index by {
                let oi = if i < k as int {
                    i
                } else {
                    i + 1
                };
                assert(self.active@[i] == pre.active@[oi]);
                if j < self.closed@.len() - 1 {
                    assert(self.closed@[j] == pre.closed@[j]);
                } else {
                    assert(self.closed@[j].index == index);
                    if oi != k as int {
                        lemma_index_uniqueness(pre.active@, oi, k as int);
                    }
                }
            }
        }
        Ok(())
    }

    /// Derives and stores a fresh viewing key for the caller and returns
    /// it — the only time it is handed out.  Open to any address.
    pub fn create_viewing_key(&mut self, caller: &String, entropy: &String) -> (key: String)
        requires
            old(self).wf(),
        ensures
            final(self).wf(),
            final(self).admin == old(self).admin,
            final(self).stopped == old(self).stopped,
            final(self).versions == old(self).versions,
            final(self).symbols == old(self).symbols,
            final(self).active == old(self).active,
            final(self).closed == old(self).closed,
            final(self).auth.seed == advance_seed(old(self).auth.seed, entropy@),
            key@ == key_chars(mix64(final(self).auth.seed, str_hash(caller@))),
            final(self).auth.verifier_map() =~= old(self).auth.verifier_map().insert(
                caller@,
                str_hash(key@),
            ),
    {
        self.auth.create(caller, entropy)
    }

    /// Stores caller-supplied viewing-key material.  Open to any address;
    /// only the key's verifier is kept.
    pub fn set_viewing_key(&mut self, caller: &String, key: &String)
        requires
            old(self).wf(),
        ensures
            final(self).wf(),
            final(self).admin == old(self).admin,
            final(self).stopped == old(self).stopped,
            final(self).versions == old(self).versions,
            final(self).symbols == old(self).symbols,
            final(self).active == old(self).active,
            final(self).closed == old(self).closed,
            final(self).auth.seed == old(self).auth.seed,
            final(self).auth.verifier_map() =~= old(self).auth.verifier_map().insert(
                caller@,
                str_hash(key@),
            ),
    {
        self.auth.set(caller, key);
    }

    /// Authenticates an address/key pair: true exactly when the address
    /// has a stored verifier matching the key.  Used by auctions to
    /// delegate authentication without holding key material.
    pub fn is_key_valid(&self, address: &String, viewing_key: &String) -> (r: bool)
        requires
            self.wf(),
        ensures
            r == key_valid(self.auth.verifier_map(), address@, viewing_key@),
    {
        self.auth.verify(address, viewing_key)
    }

    /// Starts or stops all auction creation.  Admin only.
    pub fn set_status(&mut self, caller: &String, stop: bool) -> (r: Result<(), RegistryError>)
        requires
            old(self).wf(),
        ensures
            final(self).wf(),
            caller@ != old(self).admin@ ==> r == Err::<(), RegistryError>(
                RegistryError::Unauthorized,
            ) && *final(self) == *old(self),
            caller@ == old(self).admin@ ==> r == Ok::<(), RegistryError>(()) && *final(self)
                == (Factory { stopped: stop, ..*old(self) }),
    {
        if !(self.admin == *caller) {
            return Err(RegistryError::Unauthorized);
        }
        self.stopped = stop;
        Ok(())
    }

    /// Adds a new auction contract version, which becomes the current
    /// one.  Admin only.
    pub fn new_auction_contract(&mut self, caller: &String, auction_contract: AuctionContractInfo)
        -> (r: Result<(), RegistryError>)
        requires
            old(self).wf(),
        ensures
            final(self).wf(),
            caller@ != old(self).admin@ ==> r == Err::<(), RegistryError>(
                RegistryError::Unauthorized,
            ) && *final(self) == *old(self),
            caller@ == old(self).admin@ ==> r == Ok::<(), RegistryError>(())
                && final(self).versions@ =~= old(self).versions@.push(auction_contract)
                && *final(self) == (Factory { versions: final(self).versions, ..*old(self) }),
    {
        if !(self.admin == *caller) {
            return Err(RegistryError::Unauthorized);
        }
        self.versions.push(auction_contract);
        Ok(())
    }
}

/// Close correctness, stated over the models: after a successful close of
/// the record at `k`, its index is live nowhere — in particular it has
/// left the seller's and every bidder's active sets — it sits in the
/// ledger exactly once, and it entered the winner's closed-won set
/// exactly when a winning bid was recorded.
pub proof fn lemma_close_correct(
    m: Seq<ActiveRecordModel>,
    c: Seq<ClosedRecordModel>,
    k: int,
    winner: Option<Seq<char>>,
    winning_bid: Option<u128>,
    rec: ClosedRecordModel,
)
    requires
        active_wf(m),
        0 <= k < m.len(),
        forall|i: int, j: int|
            #![trigger m[i], c[j]]
            0 <= i < m.len() && 0 <= j < c.len() ==> m[i].index != c[j].index,
        forall|i: int, j: int| 0 <= i < j < c.len() ==> c[i].index != c[j].index,
        rec.index == m[k].index,
        rec.winner == winner,
        rec.winning_bid == winning_bid,
    ensures
        !has_index(m.remove(k), m[k].index),
        forall|a: Seq<char>| !in_active_as_seller(m.remove(k), a, m[k].index),
        forall|a: Seq<char>| !in_active_as_bidder(m.remove(k), a, m[k].index),
        count_index(c.push(rec), m[k].index) == 1,
        forall|a: Seq<char>|
            (exists|p: int|
                0 <= p < c.push(rec).len() && c.push(rec)[p].index == m[k].index && role_match(
                    #[trigger] c.push(rec)[p],
                    a,
                    true,
                )) <==> (winner == Option::Some(a) && winning_bid is Some),
{
    let m2 = m.remove(k);
    let i = m[k].index;
    assert forall|l: int| 0 <= l < m2.len() implies m2[l].index != i by {
        let ol = if l < k {
            l
        } else {
            l + 1
        };
        assert(m2[l] == m[ol]);
        lemma_index_uniqueness(m, ol, k);
    }
    assert(!has_index(m2, i));
    assert forall|a: Seq<char>| !in_active_as_seller(m2, a, i) && !in_active_as_bidder(
        m2,
        a,
        i,
    ) by {
        if in_active_as_seller(m2, a, i) {
            let l = choose|l: int| 0 <= l < m2.len() && m2[l].index == i && m2[l].seller == a;
            assert(m2[l].index != i);
        }
        if in_active_as_bidder(m2, a, i) {
            let l = choose|l: int|
                0 <= l < m2.len() && m2[l].index == i && m2[l].bidders.contains(a);
            assert(m2[l].index != i);
        }
    }
    let c2 = c.push(rec);
    assert forall|p: int, q: int| 0 <= p < q < c2.len() implies c2[p].index != c2[q].index by {
        assert(c2[p] == c[p]);
        if q < c2.len() - 1 {
            assert(c2[q] == c[q]);
        } else {
            assert(c2[q] == rec);
        }
    }
    assert(c2[c2.len() - 1] == rec);
    assert(has_closed_index(c2, i));
    lemma_closed_once(c2, i);
    assert forall|a: Seq<char>|
        (exists|p: int|
            0 <= p < c2.len() && c2[p].index == i && role_match(#[trigger] c2[p], a, true)) <==> (
    winner == Option::Some(a) && winning_bid is Some) by {
        if exists|p: int| 0 <= p < c2.len() && c2[p].index == i && role_match(c2[p], a, true) {
            let p = choose|p: int|
                0 <= p < c2.len() && c2[p].index == i && role_match(c2[p], a, true);
            if p < c2.len() - 1 {
                assert(c2[p] == c[p]);
                assert(c[p].index != i);
            } else {
                assert(c2[p] == rec);
            }
        }
        if winner == Option::Some(a) && winning_bid is Some {
            assert(c2[c2.len() - 1].index == i && role_match(c2[c2.len() - 1], a, true));
        }
    }
}

} // verus!
