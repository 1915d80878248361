use vstd::prelude::*;
use crate::active::ActiveRecordModel;
use crate::closed::{
    lemma_role_positions_ascending, page_next, page_positions, role_positions, ClosedRecordModel,
};
use crate::factory::Factory;
use crate::keys::key_valid;
use crate::msg::{
    AuctionInfo, ClosedAuctionInfo, FilterTypes, MyActiveLists, MyClosedLists, QueryAnswer,
};
use crate::order::{sort_keys, sorted_keys};
use crate::symbols::{pair_chars, symbol_decimals, SymbolModel};

verus! {

/// The page size of a closed-auction listing that named none.
pub const DEFAULT_PAGE_SIZE: u32 = 200;

/// The sort key of a live record in pair-ordered listings.
pub open spec fn key_of(r: ActiveRecordModel) -> (u16, u16, u32) {
    (r.sell_symbol, r.bid_symbol, r.index)
}

/// The keys of all live records, in storage order.
pub open spec fn keys_of(m: Seq<ActiveRecordModel>) -> Seq<(u16, u16, u32)> {
    m.map_values(|r: ActiveRecordModel| key_of(r))
}

/// Whether every key in the list names some live record.
pub open spec fn keys_covered(keys: Seq<(u16, u16, u32)>, m: Seq<ActiveRecordModel>) -> bool {
    forall|j: int|
        #![trigger keys[j]]
        0 <= j < keys.len() ==> exists|k: int|
            0 <= k < m.len() && key_of(#[trigger] m[k]) == keys[j]
}

/// Whether `lst` renders, in order, exactly the records named by `keys`.
pub open spec fn list_renders_keys(
    lst: Seq<AuctionInfo>,
    keys: Seq<(u16, u16, u32)>,
    m: Seq<ActiveRecordModel>,
    st: Seq<SymbolModel>,
) -> bool {
    &&& lst.len() == keys.len()
    &&& forall|j: int|
        #![trigger lst[j]]
        0 <= j < keys.len() ==> exists|k: int|
            0 <= k < m.len() && m[k].index == keys[j].2 && matches_active_info(lst[j], m[k], st)
}

/// The keys, in storage order, of the records below `n` that `a` sells.
pub open spec fn seller_keys(m: Seq<ActiveRecordModel>, a: Seq<char>, n: int) -> Seq<
    (u16, u16, u32),
>
    decreases n,
{
    if n <= 0 {
        Seq::empty()
    } else {
        let rest = seller_keys(m, a, n - 1);
        if m[n - 1].seller == a {
            rest.push(key_of(m[n - 1]))
        } else {
            rest
        }
    }
}

/// The keys, in storage order, of the records below `n` where `a` has an
/// outstanding bid.
pub open spec fn bidder_keys(m: Seq<ActiveRecordModel>, a: Seq<char>, n: int) -> Seq<
    (u16, u16, u32),
>
    decreases n,
{
    if n <= 0 {
        Seq::empty()
    } else {
        let rest = bidder_keys(m, a, n - 1);
        if m[n - 1].bidders.contains(a) {
            rest.push(key_of(m[n - 1]))
        } else {
            rest
        }
    }
}

/// Whether a displayed active auction renders the given stored record
/// against the given symbol table.
pub open spec fn matches_active_info(
    info: AuctionInfo,
    r: ActiveRecordModel,
    st: Seq<SymbolModel>,
) -> bool {
    &&& info.address@ == r.address
    &&& info.label@ == r.label
    &&& info.pair@ == pair_chars(st, r.sell_symbol, r.bid_symbol)
    &&& info.sell_amount == r.sell_amount
    &&& info.sell_decimals == symbol_decimals(st, r.sell_symbol)
    &&& info.minimum_bid == r.minimum_bid
    &&& info.bid_decimals == symbol_decimals(st, r.bid_symbol)
    &&& info.ends_at == r.ends_at
}

/// Whether a displayed list renders, pair-sorted, exactly the records
/// whose keys are `keys`.
pub open spec fn matches_active_list(
    lst: Seq<AuctionInfo>,
    m: Seq<ActiveRecordModel>,
    st: Seq<SymbolModel>,
    keys: Seq<(u16, u16, u32)>,
) -> bool {
    list_renders_keys(lst, sort_keys(keys), m, st)
}

/// Whether a displayed closed auction renders the given ledger record,
/// carrying `pos` as its ledger position.
pub open spec fn matches_closed_info(
    info: ClosedAuctionInfo,
    r: ClosedRecordModel,
    st: Seq<SymbolModel>,
    pos: Option<u32>,
) -> bool {
    &&& info.index == pos
    &&& info.address@ == r.address
    &&& info.label@ == r.label
    &&& info.pair@ == pair_chars(st, r.sell_symbol, r.bid_symbol)
    &&& info.sell_amount == r.sell_amount
    &&& info.sell_decimals == symbol_decimals(st, r.sell_symbol)
    &&& info.winning_bid == r.winning_bid
    &&& info.bid_decimals == (if r.winning_bid is Some {
        Option::Some(symbol_decimals(st, r.bid_symbol))
    } else {
        Option::<u8>::None
    })
    &&& info.timestamp == r.timestamp
}

/// Whether a displayed list renders exactly the ledger records at the
/// given positions, in that order; positions are carried in the display
/// only when `with_pos` holds.
pub open spec fn matches_closed_page(
    lst: Seq<ClosedAuctionInfo>,
    c: Seq<ClosedRecordModel>,
    st: Seq<SymbolModel>,
    ps: Seq<int>,
    with_pos: bool,
) -> bool {
    &&& lst.len() == ps.len()
    &&& forall|j: int|
        0 <= j < ps.len() ==> 0 <= ps[j] < c.len() && matches_closed_info(
            #[trigger] lst[j],
            c[ps[j]],
            st,
            if with_pos {
                Option::Some(ps[j] as u32)
            } else {
                Option::<u32>::None
            },
        )
}

/// A position list reversed: most recent first.
pub open spec fn rev_positions(ps: Seq<int>) -> Seq<int> {
    Seq::new(ps.len(), |j: int| ps[ps.len() - 1 - j])
}

/// Whether the filter asks for the active categories.
pub open spec fn wants_active(filter: Option<FilterTypes>) -> bool {
    match filter {
        Option::None => true,
        Option::Some(f) => f == FilterTypes::Active || f == FilterTypes::All,
    }
}

/// Whether the filter asks for the closed categories.
pub open spec fn wants_closed(filter: Option<FilterTypes>) -> bool {
    match filter {
        Option::None => true,
        Option::Some(f) => f == FilterTypes::Closed || f == FilterTypes::All,
    }
}

/// The text of the one viewing-key failure answer.  It is the same
/// whether the key was wrong or never set, so the response leaks nothing
/// about which addresses ever authenticated.
pub open spec fn viewing_key_error_chars() -> Seq<char> {
    "Wrong viewing key for this address or viewing key not set"@
}

/// What a `ListMyAuctions` answer must hold for `a` once the viewing key
/// authenticated: each requested, non-empty category, and no other.
pub open spec fn matches_my_auctions(
    fac: Factory,
    a: Seq<char>,
    filter: Option<FilterTypes>,
    r: QueryAnswer,
) -> bool {
    let sk = seller_keys(fac.active@, a, fac.active@.len() as int);
    let bk = bidder_keys(fac.active@, a, fac.active@.len() as int);
    let cs = role_positions(fac.closed@, a, false, fac.closed@.len() as int);
    let cw = role_positions(fac.closed@, a, true, fac.closed@.len() as int);
    match r {
        QueryAnswer::ListMyAuctions { active, closed } => {
            &&& (active is Some <==> (wants_active(filter) && sk.len() + bk.len() > 0))
            &&& (active matches Some(al) ==> {
                &&& (al.as_seller is Some <==> sk.len() > 0)
                &&& (al.as_seller matches Some(l) ==> matches_active_list(
                    l@,
                    fac.active@,
                    fac.symbols@,
                    sk,
                ))
                &&& (al.as_bidder is Some <==> bk.len() > 0)
                &&& (al.as_bidder matches Some(l) ==> matches_active_list(
                    l@,
                    fac.active@,
                    fac.symbols@,
                    bk,
                ))
            })
            &&& (closed is Some <==> (wants_closed(filter) && cs.len() + cw.len() > 0))
            &&& (closed matches Some(cl) ==> {
                &&& (cl.as_seller is Some <==> cs.len() > 0)
                &&& (cl.as_seller matches Some(l) ==> matches_closed_page(
                    l@,
                    fac.closed@,
                    fac.symbols@,
                    rev_positions(cs),
                    false,
                ))
                &&& (cl.won is Some <==> cw.len() > 0)
                &&& (cl.won matches Some(l) ==> matches_closed_page(
                    l@,
                    fac.closed@,
                    fac.symbols@,
                    rev_positions(cw),
                    false,
                ))
            })
        },
        _ => false,
    }
}

/// Sorting a covered key list keeps it covered.
pub proof fn lemma_keys_covered_sorted(keys: Seq<(u16, u16, u32)>, m: Seq<ActiveRecordModel>)
    requires
        keys_covered(keys, m),
    ensures
        keys_covered(sort_keys(keys), m),
{
    crate::order::lemma_sort_keys_props(keys);
    let sorted = sort_keys(keys);
    assert forall|j: int|
        #![trigger sorted[j]]
        0 <= j < sorted.len() implies exists|k: int|
        0 <= k < m.len() && key_of(#[trigger] m[k]) == sorted[j] by {
        assert(keys.contains(sorted[j]));
        let l = choose|l: int| 0 <= l < keys.len() && keys[l] == sorted[j];
        assert(keys[l] == sorted[j]);
    }
}

impl Factory {
    /// All pair keys of the live records, in storage order.
    fn collect_keys(&self) -> (r: Vec<(u16, u16, u32)>)
        ensures
            r@ =~= keys_of(self.active@),
    {
        let n = self.active.entries.len();
        let mut out: Vec<(u16, u16, u32)> = Vec::new();
        let mut i: usize = 0;
        while i < n
            invariant
                n == self.active@.len(),
                0 <= i <= n,
                out@.len() == i,
                forall|j: int| 0 <= j < i ==> out@[j] == key_of(self.active@[j]),
            decreases n - i,
        {
            let e = &self.active.entries[i];
            out.push((e.info.sell_symbol, e.info.bid_symbol, e.index));
            i += 1;
        }
        out
    }

    /// The pair keys of `a`'s records in one active role, in storage
    /// order: as seller, or as bidder.
    fn collect_role_keys(&self, a: &String, bidder: bool) -> (r: Vec<(u16, u16, u32)>)
        ensures
            !bidder ==> r@ =~= seller_keys(self.active@, a@, self.active@.len() as int),
            bidder ==> r@ =~= bidder_keys(self.active@, a@, self.active@.len() as int),
            keys_covered(r@, self.active@),
    {
        let n = self.active.entries.len();
        let mut out: Vec<(u16, u16, u32)> = Vec::new();
        let mut i: usize = 0;
        while i < n
            invariant
                n == self.active@.len(),
                0 <= i <= n,
                !bidder ==> out@ =~= seller_keys(self.active@, a@, i as int),
                bidder ==> out@ =~= bidder_keys(self.active@, a@, i as int),
                keys_covered(out@, self.active@),
            decreases n - i,
        {
            let e = &self.active.entries[i];
            let hit: bool = if bidder {
                let mut found = false;
                let bn = e.bidders.len();
                let mut b: usize = 0;
                while b < bn && !found
                    invariant
                        bn == e.bidders@.len(),
                        0 <= b <= bn,
                        found ==> self.active@[i as int].bidders.contains(a@),
                        !found ==> forall|l: int|
                            0 <= l < b ==> self.active@[i as int].bidders[l] != a@,
                        i < self.active@.len(),
                        *e == self.active.entries@[i as int],
                    decreases bn - b,
                {
                    if e.bidders[b] == *a {
                        proof {
                            assert(self.active@[i as int].bidders[b as int] == a@);
                        }
                        found = true;
                    }
                    b += 1;
                }
                found
            } else {
                e.seller == *a
            };
            proof {
                if bidder && !hit {
                    assert(!self.active@[i as int].bidders.contains(a@));
                }
            }
            if hit {
                out.push((e.info.sell_symbol, e.info.bid_symbol, e.index));
                proof {
                    assert(exists|k: int|
                        0 <= k < self.active@.len() && key_of(#[trigger] self.active@[k])
                            == key_of(self.active@[i as int]));
                }
            }
            i += 1;
        }
        out
    }

    /// Renders the records named by a key list, in the list's order.
    fn active_list_from_keys(&self, keys: &Vec<(u16, u16, u32)>) -> (r: Vec<AuctionInfo>)
        requires
            self.wf(),
            keys_covered(keys@, self.active@),
        ensures
            list_renders_keys(r@, keys@, self.active@, self.symbols@),
    {
        let n = keys.len();
        let mut out: Vec<AuctionInfo> = Vec::new();
        let mut j: usize = 0;
        while j < n
            invariant
                self.wf(),
                n == keys@.len(),
                0 <= j <= n,
                keys_covered(keys@, self.active@),
                list_renders_keys(out@, keys@.take(j as int), self.active@, self.symbols@),
            decreases n - j,
        {
            let key = keys[j];
            match self.active.find(key.2) {
                Some(pos) => {
                    let e = &self.active.entries[pos];
                    let info = AuctionInfo {
                        address: e.info.address.clone(),
                        label: e.info.label.clone(),
                        pair: self.symbols.pair_string(e.info.sell_symbol, e.info.bid_symbol),
                        sell_amount: e.info.sell_amount,
                        sell_decimals: self.symbols.decimals(e.info.sell_symbol),
                        minimum_bid: e.info.minimum_bid,
                        bid_decimals: self.symbols.decimals(e.info.bid_symbol),
                        ends_at: e.info.ends_at,
                    };
                    out.push(info);
                    proof {
                        let jj = j as int;
                        assert(matches_active_info(out@[jj], self.active@[pos as int], self.symbols@));
                        assert forall|l: int|
                            #![trigger out@[l]]
                            0 <= l < jj + 1 implies exists|k: int|
                            0 <= k < self.active@.len() && self.active@[k].index == keys@.take(
                            jj + 1)[l].2 && matches_active_info(
                            out@[l],
                            self.active@[k],
                            self.symbols@,
                        ) by {
                            assert(keys@.take(jj + 1)[l] == keys@[l]);
                            if l < jj {
                                assert(keys@.take(jj)[l] == keys@[l]);
                            } else {
                                assert(self.active@[pos as int].index == keys@[l].2);
                            }
                        }
                        assert(list_renders_keys(
                            out@,
                            keys@.take(jj + 1),
                            self.active@,
                            self.symbols@,
                        ));
                    }
                },
                None => {
                    proof {
                        let k = choose|k: int|
                            0 <= k < self.active@.len() && key_of(#[trigger] self.active@[k])
                                == keys@[j as int];
                        assert(self.active@[k].index == key.2);
                        assert(false);
                    }
                },
            }
            j += 1;
        }
        proof {
            assert(keys@.take(n as int) =~= keys@);
        }
        out
    }

    /// All active auctions, ordered by token pair, ties broken by the
    /// auction index.
    pub fn list_active(&self) -> (r: Vec<AuctionInfo>)
        requires
            self.wf(),
        ensures
            matches_active_list(r@, self.active@, self.symbols@, keys_of(self.active@)),
    {
        let keys = self.collect_keys();
        let sorted = sorted_keys(&keys);
        proof {
            assert(keys_covered(keys@, self.active@)) by {
                assert forall|j: int|
                    #![trigger keys@[j]]
                    0 <= j < keys@.len() implies exists|k: int|
                    0 <= k < self.active@.len() && key_of(#[trigger] self.active@[k])
                        == keys@[j] by {
                    assert(key_of(self.active@[j]) == keys@[j]);
                }
            }
            lemma_keys_covered_sorted(keys@, self.active@);
        }
        self.active_list_from_keys(&sorted)
    }

    /// One display record of the closed ledger.
    fn closed_info_at(&self, pos: usize, with_pos: bool) -> (r: ClosedAuctionInfo)
        requires
            self.wf(),
            pos < self.closed@.len(),
        ensures
            matches_closed_info(
                r,
                self.closed@[pos as int],
                self.symbols@,
                if with_pos {
                    Option::Some(pos as u32)
                } else {
                    Option::<u32>::None
                },
            ),
    {
        let e = &self.closed.entries[pos];
        ClosedAuctionInfo {
            index: if with_pos {
                Option::Some(pos as u32)
            } else {
                Option::None
            },
            address: e.info.address.clone(),
            label: e.info.label.clone(),
            pair: self.symbols.pair_string(e.info.sell_symbol, e.info.bid_symbol),
            sell_amount: e.info.sell_amount,
            sell_decimals: self.symbols.decimals(e.info.sell_symbol),
            winning_bid: e.info.winning_bid,
            bid_decimals: match e.info.winning_bid {
                Option::Some(_) => Option::Some(self.symbols.decimals(e.info.bid_symbol)),
                Option::None => Option::None,
            },
            timestamp: e.info.timestamp,
        }
    }

    /// One page of closed auctions, most recent first, each carrying its
    /// ledger position, together with the continuation cursor.
    pub fn list_closed(&self, before: Option<u32>, page_size: u32) -> (r: (
        Vec<ClosedAuctionInfo>,
        Option<u32>,
    ))
        requires
            self.wf(),
        ensures
            matches_closed_page(
                r.0@,
                self.closed@,
                self.symbols@,
                page_positions(self.closed@.len() as int, before, page_size as int),
                true,
            ),
            r.1 == page_next(self.closed@.len() as int, before, page_size as int),
    {
        let (ps, next) = self.closed.page(before, page_size);
        let ghost positions = page_positions(self.closed@.len() as int, before, page_size as int);
        let n = ps.len();
        let mut out: Vec<ClosedAuctionInfo> = Vec::new();
        let mut j: usize = 0;
        while j < n
            invariant
                self.wf(),
                n == ps@.len(),
                n == positions.len(),
                forall|l: int| 0 <= l < n ==> #[trigger] ps@[l] as int == positions[l],
                forall|l: int| 0 <= l < n ==> 0 <= #[trigger] positions[l] < self.closed@.len(),
                0 <= j <= n,
                out@.len() == j,
                forall|l: int|
                    0 <= l < j ==> matches_closed_info(
                        #[trigger] out@[l],
                        self.closed@[positions[l]],
                        self.symbols@,
                        Option::Some(positions[l] as u32),
                    ),
            decreases n - j,
        {
            out.push(self.closed_info_at(ps[j] as usize, true));
            j += 1;
        }
        (out, next)
    }

    /// One address's closed auctions in one role, most recent first,
    /// without ledger positions.
    fn closed_role_list(&self, address: &String, won: bool) -> (r: Vec<ClosedAuctionInfo>)
        requires
            self.wf(),
        ensures
            matches_closed_page(
                r@,
                self.closed@,
                self.symbols@,
                rev_positions(role_positions(self.closed@, address@, won, self.closed@.len() as int)),
                false,
            ),
            r@.len() == role_positions(self.closed@, address@, won, self.closed@.len() as int).len(),
    {
        let ps = self.closed.positions_for(address, won);
        let ghost psi = role_positions(self.closed@, address@, won, self.closed@.len() as int);
        proof {
            lemma_role_positions_ascending(self.closed@, address@, won, self.closed@.len() as int);
        }
        let n = ps.len();
        let mut out: Vec<ClosedAuctionInfo> = Vec::new();
        let mut j: usize = 0;
        while j < n
            invariant
                self.wf(),
                n == ps@.len(),
                n == psi.len(),
                forall|l: int| 0 <= l < n ==> #[trigger] ps@[l] as int == psi[l],
                forall|l: int| 0 <= l < n ==> 0 <= #[trigger] psi[l] < self.closed@.len(),
                0 <= j <= n,
                out@.len() == j,
                forall|l: int|
                    0 <= l < j ==> matches_closed_info(
                        #[trigger] out@[l],
                        self.closed@[psi[n - 1 - l]],
                        self.symbols@,
                        Option::<u32>::None,
                    ),
            decreases n - j,
        {
            out.push(self.closed_info_at(ps[n - 1 - j] as usize, false));
            j += 1;
        }
        proof {
            assert forall|l: int| 0 <= l < n implies 0 <= rev_positions(psi)[l]
                < self.closed@.len() && matches_closed_info(
                out@[l],
                self.closed@[rev_positions(psi)[l]],
                self.symbols@,
                Option::<u32>::None,
            ) by {
                assert(rev_positions(psi)[l] == psi[n - 1 - l]);
            }
        }
        out
    }

    /// The auctions `address` sells, bids in, sold, or won — gated by its
    /// viewing key.  A failed authentication is answered with one fixed
    /// viewing-key error, the same whether the key was wrong or never
    /// set.  Requested categories with nothing in them are omitted, not
    /// returned empty.
    pub fn list_my_auctions(
        &self,
        address: &String,
        viewing_key: &String,
        filter: Option<FilterTypes>,
    ) -> (r: QueryAnswer)
        requires
            self.wf(),
        ensures
            (r is ViewingKeyError) <==> !key_valid(
                self.auth.verifier_map(),
                address@,
                viewing_key@,
            ),
            r matches QueryAnswer::ViewingKeyError { error } ==> error@
                == viewing_key_error_chars(),
            key_valid(self.auth.verifier_map(), address@, viewing_key@) ==> matches_my_auctions(
                *self,
                address@,
                filter,
                r,
            ),
    {
        if !self.auth.verify(address, viewing_key) {
            return QueryAnswer::ViewingKeyError {
                error: String::from_str(
                    "Wrong viewing key for this address or viewing key not set",
                ),
            };
        }
        let want_act: bool = match filter {
            Option::None => true,
            Option::Some(FilterTypes::Active) => true,
            Option::Some(FilterTypes::All) => true,
            Option::Some(FilterTypes::Closed) => false,
        };
        let want_cls: bool = match filter {
            Option::None => true,
            Option::Some(FilterTypes::Closed) => true,
            Option::Some(FilterTypes::All) => true,
            Option::Some(FilterTypes::Active) => false,
        };
        let active_part: Option<MyActiveLists> = if want_act {
            let sk = self.collect_role_keys(address, false);
            let bk = self.collect_role_keys(address, true);
            if sk.len() > 0 || bk.len() > 0 {
                let as_seller: Option<Vec<AuctionInfo>> = if sk.len() > 0 {
                    let sorted = sorted_keys(&sk);
                    proof {
                        lemma_keys_covered_sorted(sk@, self.active@);
                    }
                    Some(self.active_list_from_keys(&sorted))
                } else {
                    None
                };
                let as_bidder: Option<Vec<AuctionInfo>> = if bk.len() > 0 {
                    let sorted = sorted_keys(&bk);
                    proof {
                        lemma_keys_covered_sorted(bk@, self.active@);
                    }
                    Some(self.active_list_from_keys(&sorted))
                } else {
                    None
                };
                Some(MyActiveLists { as_seller, as_bidder })
            } else {
                None
            }
        } else {
            None
        };
        let closed_part: Option<MyClosedLists> = if want_cls {
            let cs = self.closed_role_list(address, false);
            let cw = self.closed_role_list(address, true);
            if cs.len() > 0 || cw.len() > 0 {
                let as_seller: Option<Vec<ClosedAuctionInfo>> = if cs.len() > 0 {
                    Some(cs)
                } else {
                    None
                };
                let won: Option<Vec<ClosedAuctionInfo>> = if cw.len() > 0 {
                    Some(cw)
                } else {
                    None
                };
                Some(MyClosedLists { as_seller, won })
            } else {
                None
            }
        } else {
            None
        };
        QueryAnswer::ListMyAuctions { active: active_part, closed: closed_part }
    }

    /// The active listing wrapped as a query answer: the list is omitted,
    /// not empty, when no auction is live.
    pub fn query_active_auctions(&self) -> (r: QueryAnswer)
        requires
            self.wf(),
        ensures
            r matches QueryAnswer::ListActiveAuctions { active } && (active is Some
                <==> self.active@.len() > 0) && (active matches Some(l) ==> matches_active_list(
                l@,
                self.active@,
                self.symbols@,
                keys_of(self.active@),
            )),
    {
        let lst = self.list_active();
        proof {
            crate::order::lemma_sort_keys_props(keys_of(self.active@));
        }
        if lst.len() > 0 {
            QueryAnswer::ListActiveAuctions { active: Some(lst) }
        } else {
            QueryAnswer::ListActiveAuctions { active: None }
        }
    }

    /// The closed listing wrapped as a query answer, with the default
    /// page size applied: the list is omitted, not empty, when the page
    /// holds nothing.
    pub fn query_closed_auctions(&self, before: Option<u32>, page_size: Option<u32>) -> (r:
        QueryAnswer)
        requires
            self.wf(),
        ensures
            ({
                let n = (match page_size {
                    Option::Some(p) => p,
                    Option::None => DEFAULT_PAGE_SIZE,
                }) as int;
                r matches QueryAnswer::ListClosedAuctions { closed } && (closed is Some
                    <==> page_positions(self.closed@.len() as int, before, n).len() > 0) && (
                closed matches Some(l) ==> matches_closed_page(
                    l@,
                    self.closed@,
                    self.symbols@,
                    page_positions(self.closed@.len() as int, before, n),
                    true,
                ))
            }),
    {
        let n: u32 = match page_size {
            Option::Some(p) => p,
            Option::None => DEFAULT_PAGE_SIZE,
        };
        let (lst, _) = self.list_closed(before, n);
        if lst.len() > 0 {
            QueryAnswer::ListClosedAuctions { closed: Some(lst) }
        } else {
            QueryAnswer::ListClosedAuctions { closed: None }
        }
    }
}

} // verus!
