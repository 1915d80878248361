use vstd::prelude::*;
use crate::error::RegistryError;
use crate::msg::{RegisterAuctionInfo, StoreAuctionInfo};

verus! {

/// One live auction: the stored record, its seller, and the auction's own
/// list of outstanding bidders.  The bidder list is what lets a close
/// clear every bidder's active index, not only the winner's.
pub struct ActiveEntry {
    pub index: u32,
    pub seller: String,
    pub info: StoreAuctionInfo,
    pub bidders: Vec<String>,
}

/// Mathematical image of one live auction.
#[verifier::ext_equal]
pub struct ActiveRecordModel {
    pub index: u32,
    pub seller: Seq<char>,
    pub address: Seq<char>,
    pub label: Seq<char>,
    pub sell_symbol: u16,
    pub bid_symbol: u16,
    pub sell_amount: u128,
    pub minimum_bid: u128,
    pub ends_at: u64,
    pub bidders: Seq<Seq<char>>,
}

impl ActiveEntry {
    pub open spec fn model(self) -> ActiveRecordModel {
        ActiveRecordModel {
            index: self.index,
            seller: self.seller@,
            address: self.info.address@,
            label: self.info.label@,
            sell_symbol: self.info.sell_symbol,
            bid_symbol: self.info.bid_symbol,
            sell_amount: self.info.sell_amount,
            minimum_bid: self.info.minimum_bid,
            ends_at: self.info.ends_at,
            bidders: self.bidders@.map_values(|b: String| b@),
        }
    }
}

/// The set of live auctions, keyed by the index the factory assigned at
/// instantiation.  Per-address views (active as seller, active as bidder)
/// are derived from the records themselves, so a record and its index
/// entries can never disagree.
pub struct ActiveRegistry {
    pub entries: Vec<ActiveEntry>,
}

impl View for ActiveRegistry {
    type V = Seq<ActiveRecordModel>;

    open spec fn view(&self) -> Seq<ActiveRecordModel> {
        self.entries@.map_values(|e: ActiveEntry| e.model())
    }
}

/// Whether some live record carries `index`.
pub open spec fn has_index(m: Seq<ActiveRecordModel>, index: u32) -> bool {
    exists|k: int| 0 <= k < m.len() && m[k].index == index
}

/// Whether `a` appears in no record's bidder list twice.
pub open spec fn bidders_unique(b: Seq<Seq<char>>) -> bool {
    forall|i: int, j: int| 0 <= i < j < b.len() ==> b[i] != b[j]
}

/// Well-formedness of the registry: no index is held by two live records,
/// no bidder list holds an address twice, and every record sells a
/// positive amount.
pub open spec fn active_wf(m: Seq<ActiveRecordModel>) -> bool {
    &&& forall|i: int, j: int| 0 <= i < j < m.len() ==> m[i].index != m[j].index
    &&& forall|k: int| 0 <= k < m.len() ==> bidders_unique(#[trigger] m[k].bidders)
    &&& forall|k: int| 0 <= k < m.len() ==> (#[trigger] m[k].sell_amount) > 0
}

/// `index` belongs to `a`'s active-as-seller set.
pub open spec fn in_active_as_seller(m: Seq<ActiveRecordModel>, a: Seq<char>, index: u32) -> bool {
    exists|k: int| 0 <= k < m.len() && m[k].index == index && m[k].seller == a
}

/// `index` belongs to `a`'s active-as-bidder set: it has an outstanding
/// bid recorded for that auction.
pub open spec fn in_active_as_bidder(m: Seq<ActiveRecordModel>, a: Seq<char>, index: u32) -> bool {
    exists|k: int| 0 <= k < m.len() && m[k].index == index && m[k].bidders.contains(a)
}

/// `b` with every occurrence of `a` dropped, the order of the rest kept.
pub open spec fn drop_addr(b: Seq<Seq<char>>, a: Seq<char>) -> Seq<Seq<char>>
    decreases b.len(),
{
    if b.len() == 0 {
        Seq::empty()
    } else {
        let rest = drop_addr(b.drop_last(), a);
        if b.last() == a {
            rest
        } else {
            rest.push(b.last())
        }
    }
}

/// The record after an idempotent bidder registration.
pub open spec fn with_bidder(r: ActiveRecordModel, a: Seq<char>) -> ActiveRecordModel {
    if r.bidders.contains(a) {
        r
    } else {
        ActiveRecordModel { bidders: r.bidders.push(a), ..r }
    }
}

/// The record after an idempotent bidder removal.
pub open spec fn without_bidder(r: ActiveRecordModel, a: Seq<char>) -> ActiveRecordModel {
    ActiveRecordModel { bidders: drop_addr(r.bidders, a), ..r }
}

/// The registry after `add_bidder(index, a)` succeeded.
pub open spec fn add_bidder_m(m: Seq<ActiveRecordModel>, index: u32, a: Seq<char>) -> Seq<
    ActiveRecordModel,
> {
    Seq::new(m.len(), |k: int| if m[k].index == index {
        with_bidder(m[k], a)
    } else {
        m[k]
    })
}

/// The registry after `remove_bidder(index, a)`, whatever the index: a
/// record that carries it loses `a`'s bid entries, every other record —
/// and a registry without the index — is untouched.
pub open spec fn remove_bidder_m(m: Seq<ActiveRecordModel>, index: u32, a: Seq<char>) -> Seq<
    ActiveRecordModel,
> {
    Seq::new(m.len(), |k: int| if m[k].index == index {
        without_bidder(m[k], a)
    } else {
        m[k]
    })
}

/// The registry after a partial update of closing time and minimum bid.
pub open spec fn change_m(
    m: Seq<ActiveRecordModel>,
    index: u32,
    ends_at: Option<u64>,
    minimum_bid: Option<u128>,
) -> Seq<ActiveRecordModel> {
    Seq::new(m.len(), |k: int| if m[k].index == index {
        ActiveRecordModel {
            ends_at: if ends_at is Some { ends_at->0 } else { m[k].ends_at },
            minimum_bid: if minimum_bid is Some { minimum_bid->0 } else { m[k].minimum_bid },
            ..m[k]
        }
    } else {
        m[k]
    })
}

/// Dropping an address leaves a list that no longer contains it.
pub proof fn lemma_drop_addr_absent(b: Seq<Seq<char>>, a: Seq<char>)
    ensures
        !drop_addr(b, a).contains(a),
    decreases b.len(),
{
    if b.len() > 0 {
        lemma_drop_addr_absent(b.drop_last(), a);
        let rest = drop_addr(b.drop_last(), a);
        if b.last() != a {
            assert forall|i: int| 0 <= i < rest.push(b.last()).len() implies rest.push(
                b.last(),
            )[i] != a by {
                if i < rest.len() {
                    assert(!rest.contains(a));
                }
            }
        }
    }
}

/// Dropping an address that is not in the list changes nothing.
pub proof fn lemma_drop_addr_identity(b: Seq<Seq<char>>, a: Seq<char>)
    requires
        !b.contains(a),
    ensures
        drop_addr(b, a) =~= b,
    decreases b.len(),
{
    if b.len() > 0 {
        assert(b.last() != a);
        assert forall|i: int| 0 <= i < b.drop_last().len() implies b.drop_last()[i] != a by {
            assert(b[i] == b.drop_last()[i]);
        }
        assert(!b.drop_last().contains(a));
        lemma_drop_addr_identity(b.drop_last(), a);
    }
}

/// No two live records ever share an index.
pub proof fn lemma_index_uniqueness(m: Seq<ActiveRecordModel>, i: int, j: int)
    requires
        active_wf(m),
        0 <= i < m.len(),
        0 <= j < m.len(),
        i != j,
    ensures
        m[i].index != m[j].index,
{
}

/// Removing a bidder is idempotent: removing it a second time, from any
/// registry, is a no-op.
pub proof fn lemma_remove_bidder_idempotent(m: Seq<ActiveRecordModel>, index: u32, a: Seq<char>)
    ensures
        remove_bidder_m(remove_bidder_m(m, index, a), index, a) =~~= remove_bidder_m(m, index, a),
{
    let m1 = remove_bidder_m(m, index, a);
    assert forall|k: int| 0 <= k < m1.len() implies remove_bidder_m(m1, index, a)[k] =~~= m1[k] by {
        if m[k].index == index {
            lemma_drop_addr_absent(m[k].bidders, a);
            lemma_drop_addr_identity(drop_addr(m[k].bidders, a), a);
        }
    }
}

impl ActiveRegistry {
    /// An empty registry.
    pub fn new() -> (r: ActiveRegistry)
        ensures
            r@ =~= Seq::<ActiveRecordModel>::empty(),
    {
        ActiveRegistry { entries: Vec::new() }
    }

    /// The position of the record carrying `index`, if any.
    pub fn find(&self, index: u32) -> (r: Option<usize>)
        ensures
            match r {
                Some(k) => 0 <= k < self@.len() && self@[k as int].index == index,
                None => !has_index(self@, index),
            },
    {
        let n = self.entries.len();
        let mut i: usize = 0;
        while i < n
            invariant
                n == self.entries.len(),
                0 <= i <= n,
                forall|j: int| 0 <= j < i ==> self@[j].index != index,
            decreases n - i,
        {
            if self.entries[i].index == index {
                return Some(i);
            }
            i += 1;
        }
        None
    }

    /// Registers a newly instantiated auction under the index the factory
    /// assigned to it, with the caller's identity as the record's address.
    /// Fails with `DuplicateIndex` when a live record already carries the
    /// index; the caller additionally guards against indices already
    /// retired to the closed ledger, so that indices are never recycled.
    pub fn register(
        &mut self,
        seller: String,
        auction: RegisterAuctionInfo,
        address: String,
    ) -> (r: Result<(), RegistryError>)
        requires
            active_wf(old(self)@),
            auction.sell_amount > 0,
        ensures
            active_wf(final(self)@),
            has_index(old(self)@, auction.index) ==> r == Err::<(), RegistryError>(
                RegistryError::DuplicateIndex,
            ) && *final(self) == *old(self),
            !has_index(old(self)@, auction.index) ==> r == Ok::<(), RegistryError>(())
                && final(self)@ =~~= old(self)@.push(
                ActiveRecordModel {
                    index: auction.index,
                    seller: seller@,
                    address: address@,
                    label: auction.label@,
                    sell_symbol: auction.sell_symbol,
                    bid_symbol: auction.bid_symbol,
                    sell_amount: auction.sell_amount,
                    minimum_bid: auction.minimum_bid,
                    ends_at: auction.ends_at,
                    bidders: Seq::empty(),
                },
            ),
    {
        match self.find(auction.index) {
            Some(_) => Err(RegistryError::DuplicateIndex),
            None => {
                let ghost m0 = self@;
                let info = auction.to_store_auction_info(address);
                self.entries.push(
                    ActiveEntry { index: auction.index, seller, info, bidders: Vec::new() },
                );
                proof {
                    assert(self@ =~~= m0.push(
                        ActiveRecordModel {
                            index: auction.index,
                            seller: seller@,
                            address: address@,
                            label: auction.label@,
                            sell_symbol: auction.sell_symbol,
                            bid_symbol: auction.bid_symbol,
                            sell_amount: auction.sell_amount,
                            minimum_bid: auction.minimum_bid,
                            ends_at: auction.ends_at,
                            bidders: Seq::empty(),
                        },
                    ));
                }
                Ok(())
            },
        }
    }

    /// Idempotently records an outstanding bid by `bidder` on the auction
    /// carrying `index`.  Fails with `UnknownAuction` when no live record
    /// carries it.
    pub fn add_bidder(&mut self, index: u32, bidder: &String) -> (r: Result<(), RegistryError>)
        requires
            active_wf(old(self)@),
        ensures
            active_wf(final(self)@),
            !has_index(old(self)@, index) ==> r == Err::<(), RegistryError>(
                RegistryError::UnknownAuction,
            ) && *final(self) == *old(self),
            has_index(old(self)@, index) ==> r == Ok::<(), RegistryError>(()) && final(self)@
                =~~= add_bidder_m(old(self)@, index, bidder@),
    {
        let k = match self.find(index) {
            None => {
                return Err(RegistryError::UnknownAuction);
            },
            Some(k) => k,
        };
        let ghost m0 = self@;
        let n = self.entries[k].bidders.len();
        let mut i: usize = 0;
        while i < n
            invariant
                *self == *old(self),
                active_wf(self@),
                0 <= k < self@.len(),
                self@[k as int].index == index,
                n == self@[k as int].bidders.len(),
                0 <= i <= n,
                forall|j: int| 0 <= j < i ==> self@[k as int].bidders[j] != bidder@,
            decreases n - i,
        {
            if self.entries[k].bidders[i] == *bidder {
                proof {
                    assert(self@[k as int].bidders[i as int] == bidder@);
                    assert(self@[k as int].bidders.contains(bidder@));
                    assert forall|l: int| 0 <= l < self@.len() implies self@[l] =~~= add_bidder_m(
                        self@,
                        index,
                        bidder@,
                    )[l] by {
                        if l != k as int {
                            lemma_index_uniqueness(self@, l, k as int);
                        }
                    }
                    assert(self@ =~~= add_bidder_m(self@, index, bidder@));
                }
                return Ok(());
            }
            i += 1;
        }
        proof {
            assert forall|j: int| 0 <= j < m0[k as int].bidders.len() implies m0[
                k as int
            ].bidders[j] != bidder@ by {}
            assert(!m0[k as int].bidders.contains(bidder@));
        }
        self.entries[k].bidders.push(bidder.clone());
        proof {
            assert(self@[k as int].bidders =~= m0[k as int].bidders.push(bidder@));
            assert forall|l: int| 0 <= l < m0.len() implies self@[l] =~~= add_bidder_m(
                m0,
                index,
                bidder@,
            )[l] by {
                if l != k as int {
                    lemma_index_uniqueness(m0, l, k as int);
                }
            }
            assert(self@ =~~= add_bidder_m(m0, index, bidder@));
            assert forall|l: int| 0 <= l < self@.len() implies bidders_unique(
                #[trigger] self@[l].bidders,
            ) by {
                if l == k as int {
                    let nb = self@[l].bidders;
                    assert forall|i2: int, j2: int| 0 <= i2 < j2 < nb.len() implies nb[i2]
                        != nb[j2] by {
                        if j2 == nb.len() - 1 {
                            assert(nb[i2] == m0[l].bidders[i2]);
                            if nb[i2] == bidder@ {
                                assert(m0[l].bidders.contains(bidder@));
                            }
                        }
                    }
                } else {
                    assert(self@[l] == m0[l]);
                }
            }
        }
        Ok(())
    }

    /// Idempotently removes `bidder`'s outstanding bid from the auction
    /// carrying `index`.  An unknown index is not an error: the auction
    /// may have already closed.
    pub fn remove_bidder(&mut self, index: u32, bidder: &String)
        requires
            active_wf(old(self)@),
        ensures
            active_wf(final(self)@),
            final(self)@ =~~= remove_bidder_m(old(self)@, index, bidder@),
    {
        let k = match self.find(index) {
            None => {
                proof {
                    assert(self@ =~~= remove_bidder_m(self@, index, bidder@));
                }
                return ;
            },
            Some(k) => k,
        };
        let ghost m0 = self@;
        let n = self.entries[k].bidders.len();
        let mut kept: Vec<String> = Vec::new();
        let mut i: usize = 0;
        proof {
            assert(self@[k as int].bidders.take(0) =~= Seq::<Seq<char>>::empty());
            assert(kept@.map_values(|b: String| b@) =~= Seq::<Seq<char>>::empty());
        }
        while i < n
            invariant
                *self == *old(self),
                active_wf(self@),
                0 <= k < self@.len(),
                self@[k as int].index == index,
                n == self@[k as int].bidders.len(),
                0 <= i <= n,
                kept@.map_values(|b: String| b@) =~= drop_addr(
                    self@[k as int].bidders.take(i as int),
                    bidder@,
                ),
            decreases n - i,
        {
            let ghost bs = self@[k as int].bidders;
            let ghost kv = kept@.map_values(|b: String| b@);
            proof {
                assert(bs.take(i as int + 1).drop_last() =~= bs.take(i as int));
                assert(bs.take(i as int + 1).last() == bs[i as int]);
            }
            if !(self.entries[k].bidders[i] == *bidder) {
                kept.push(self.entries[k].bidders[i].clone());
                proof {
                    assert(kept@.map_values(|b: String| b@) =~= kv.push(bs[i as int]));
                }
            }
            i += 1;
        }
        proof {
            assert(self@[k as int].bidders.take(n as int) =~= self@[k as int].bidders);
        }
        self.entries[k].bidders = kept;
        proof {
            assert(self@[k as int].bidders =~= drop_addr(m0[k as int].bidders, bidder@));
            assert forall|l: int| 0 <= l < m0.len() implies self@[l] =~~= remove_bidder_m(
                m0,
                index,
                bidder@,
            )[l] by {
                if l != k as int {
                    lemma_index_uniqueness(m0, l, k as int);
                }
            }
            assert(self@ =~~= remove_bidder_m(m0, index, bidder@));
            assert forall|l: int| 0 <= l < self@.len() implies bidders_unique(
                #[trigger] self@[l].bidders,
            ) by {
                if l == k as int {
                    lemma_drop_addr_unique(m0[l].bidders, bidder@);
                } else {
                    assert(self@[l] == m0[l]);
                }
            }
        }
    }

    /// Applies a partial update: only the closing time and minimum bid can
    /// change, and only the given fields are applied.  Fails with
    /// `UnknownAuction` when no live record carries the index.
    pub fn update_info(
        &mut self,
        index: u32,
        ends_at: Option<u64>,
        minimum_bid: Option<u128>,
    ) -> (r: Result<(), RegistryError>)
        requires
            active_wf(old(self)@),
        ensures
            active_wf(final(self)@),
            !has_index(old(self)@, index) ==> r == Err::<(), RegistryError>(
                RegistryError::UnknownAuction,
            ) && *final(self) == *old(self),
            has_index(old(self)@, index) ==> r == Ok::<(), RegistryError>(()) && final(self)@
                =~~= change_m(old(self)@, index, ends_at, minimum_bid),
    {
        let k = match self.find(index) {
            None => {
                return Err(RegistryError::UnknownAuction);
            },
            Some(k) => k,
        };
        let ghost m0 = self@;
        if let Some(e) = ends_at {
            self.entries[k].info.ends_at = e;
        }
        if let Some(b) = minimum_bid {
            self.entries[k].info.minimum_bid = b;
        }
        proof {
            assert(self@ =~~= change_m(m0, index, ends_at, minimum_bid)) by {
                assert forall|l: int| 0 <= l < m0.len() implies self@[l] =~~= change_m(
                    m0,
                    index,
                    ends_at,
                    minimum_bid,
                )[l] by {
                    if l != k as int {
                        lemma_index_uniqueness(m0, l, k as int);
                    }
                }
            }
        }
        Ok(())
    }

    /// Removes the record carrying `index` and hands it back so the
    /// closed ledger can append its snapshot.  Because the per-address
    /// sets are derived from the records, the index leaves the seller's
    /// and every bidder's active sets with it.  Fails with
    /// `UnknownAuction` when the index is not live, `SellerMismatch` when
    /// `seller` is not the stored seller — a defense against spoofed
    /// close calls.
    pub fn close(&mut self, index: u32, seller: &String) -> (r: Result<
        ActiveEntry,
        RegistryError,
    >)
        requires
            active_wf(old(self)@),
        ensures
            active_wf(final(self)@),
            !has_index(old(self)@, index) ==> r == Err::<ActiveEntry, RegistryError>(
                RegistryError::UnknownAuction,
            ) && *final(self) == *old(self),
            forall|k: int|
                #![trigger old(self)@[k]]
                0 <= k < old(self)@.len() && old(self)@[k].index == index && old(self)@[k].seller
                    != seller@ ==> r == Err::<ActiveEntry, RegistryError>(
                    RegistryError::SellerMismatch,
                ) && *final(self) == *old(self),
            forall|k: int|
                #![trigger old(self)@[k]]
                0 <= k < old(self)@.len() && old(self)@[k].index == index && old(self)@[k].seller
                    == seller@ ==> (r matches Ok(e) && e.model() == old(self)@[k]) && final(self)@
                    =~~= old(self)@.remove(k),
    {
        let k = match self.find(index) {
            None => {
                return Err(RegistryError::UnknownAuction);
            },
            Some(k) => k,
        };
        if !(self.entries[k].seller == *seller) {
            proof {
                assert forall|l: int|
                    0 <= l < self@.len() && self@[l].index == index implies l == k by {
                    if l != k {
                        lemma_index_uniqueness(self@, l, k as int);
                    }
                }
            }
            return Err(RegistryError::SellerMismatch);
        }
        let ghost m0 = self@;
        let e = self.entries.remove(k);
        proof {
            assert(self@ =~~= m0.remove(k as int));
            assert forall|l: int| 0 <= l < m0.len() && m0[l].index == index implies l == k by {
                if l != k {
                    lemma_index_uniqueness(m0, l, k as int);
                }
            }
            assert forall|i: int, j: int| 0 <= i < j < self@.len() implies self@[i].index
                != self@[j].index by {
                let oi = if i < k { i } else { i + 1 };
                let oj = if j < k { j } else { j + 1 };
                assert(self@[i] == m0[oi]);
                assert(self@[j] == m0[oj]);
            }
        }
        Ok(e)
    }
}

/// Dropping an address keeps a duplicate-free bidder list duplicate-free.
proof fn lemma_drop_addr_unique(b: Seq<Seq<char>>, a: Seq<char>)
    requires
        bidders_unique(b),
    ensures
        bidders_unique(drop_addr(b, a)),
        forall|x: Seq<char>| drop_addr(b, a).contains(x) ==> b.contains(x),
    decreases b.len(),
{
    if b.len() > 0 {
        assert forall|i: int, j: int| 0 <= i < j < b.drop_last().len() implies b.drop_last()[i]
            != b.drop_last()[j] by {
            assert(b[i] == b.drop_last()[i]);
            assert(b[j] == b.drop_last()[j]);
        }
        lemma_drop_addr_unique(b.drop_last(), a);
        let rest = drop_addr(b.drop_last(), a);
        if b.last() != a {
            assert forall|x: Seq<char>| rest.push(b.last()).contains(x) implies b.contains(x) by {
                let i = choose|i: int|
                    0 <= i < rest.push(b.last()).len() && rest.push(b.last())[i] == x;
                if i < rest.len() {
                    assert(rest[i] == x);
                    assert(rest.contains(x));
                    assert(b.drop_last().contains(x));
                    let j = choose|j: int| 0 <= j < b.drop_last().len() && b.drop_last()[j] == x;
                    assert(b[j] == x);
                } else {
                    assert(b.last() == x);
                    assert(b[b.len() - 1] == x);
                }
            }
            assert forall|i: int, j: int| 0 <= i < j < rest.push(b.last()).len() implies rest.push(
                b.last(),
            )[i] != rest.push(b.last())[j] by {
                if j == rest.len() {
                    assert(rest.contains(rest[i]));
                    assert(b.drop_last().contains(rest[i]) ==> rest[i] != b.last()) by {
                        if b.drop_last().contains(rest[i]) {
                            let l = choose|l: int|
                                0 <= l < b.drop_last().len() && b.drop_last()[l] == rest[i];
                            assert(b[l] == rest[i]);
                            assert(b[l] != b[b.len() - 1]);
                            assert(b.last() == b[b.len() - 1]);
                        }
                    }
                }
            }
        } else {
            assert forall|x: Seq<char>| rest.contains(x) implies b.contains(x) by {
                assert(b.drop_last().contains(x));
                let j = choose|j: int| 0 <= j < b.drop_last().len() && b.drop_last()[j] == x;
                assert(b[j] == x);
            }
        }
    }
}

} // verus!
