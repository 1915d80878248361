use vstd::prelude::*;
use crate::msg::StoreClosedAuctionInfo;

verus! {

/// One closed auction: the snapshot recorded at closing time, its seller,
/// and the winning bidder when the auction ended in a swap.
pub struct ClosedEntry {
    pub seller: String,
    pub winner: Option<String>,
    pub index: u32,
    pub info: StoreClosedAuctionInfo,
}

/// Mathematical image of one closed auction.
#[verifier::ext_equal]
pub struct ClosedRecordModel {
    pub index: u32,
    pub seller: Seq<char>,
    pub winner: Option<Seq<char>>,
    pub address: Seq<char>,
    pub label: Seq<char>,
    pub sell_symbol: u16,
    pub bid_symbol: u16,
    pub sell_amount: u128,
    pub winning_bid: Option<u128>,
    pub timestamp: u64,
}

/// The view of an optional address.
pub open spec fn opt_view(o: Option<String>) -> Option<Seq<char>> {
    match o {
        Option::Some(w) => Option::Some(w@),
        Option::None => Option::None,
    }
}

impl ClosedEntry {
    pub open spec fn model(self) -> ClosedRecordModel {
        ClosedRecordModel {
            index: self.index,
            seller: self.seller@,
            winner: opt_view(self.winner),
            address: self.info.address@,
            label: self.info.label@,
            sell_symbol: self.info.sell_symbol,
            bid_symbol: self.info.bid_symbol,
            sell_amount: self.info.sell_amount,
            winning_bid: self.info.winning_bid,
            timestamp: self.info.timestamp,
        }
    }
}

/// The append-only ledger of closed auctions.  A record's key is its
/// position: the number of records appended before it.  Appends only ever
/// create positions greater than any already issued, which is what keeps
/// pagination cursors stable under concurrent appends.
pub struct ClosedLedger {
    pub entries: Vec<ClosedEntry>,
}

impl View for ClosedLedger {
    type V = Seq<ClosedRecordModel>;

    open spec fn view(&self) -> Seq<ClosedRecordModel> {
        self.entries@.map_values(|e: ClosedEntry| e.model())
    }
}

/// Whether some closed record carries the auction index `index`.
pub open spec fn has_closed_index(c: Seq<ClosedRecordModel>, index: u32) -> bool {
    exists|k: int| 0 <= k < c.len() && c[k].index == index
}

/// How many closed records carry the auction index `index`.
pub open spec fn count_index(c: Seq<ClosedRecordModel>, index: u32) -> int
    decreases c.len(),
{
    if c.len() == 0 {
        0
    } else {
        count_index(c.drop_last(), index) + if c.last().index == index {
            1int
        } else {
            0int
        }
    }
}

/// Well-formedness of the ledger: every position fits a `u32` cursor and
/// no auction index was ever retired twice.
pub open spec fn closed_wf(c: Seq<ClosedRecordModel>) -> bool {
    &&& c.len() <= 0xffff_ffff
    &&& forall|i: int, j: int| 0 <= i < j < c.len() ==> c[i].index != c[j].index
}

/// In a well-formed ledger a present index is present exactly once.
pub proof fn lemma_closed_once(c: Seq<ClosedRecordModel>, index: u32)
    requires
        forall|i: int, j: int| 0 <= i < j < c.len() ==> c[i].index != c[j].index,
    ensures
        has_closed_index(c, index) ==> count_index(c, index) == 1,
        !has_closed_index(c, index) ==> count_index(c, index) == 0,
    decreases c.len(),
{
    if c.len() > 0 {
        let d = c.drop_last();
        assert forall|i: int, j: int| 0 <= i < j < d.len() implies d[i] != d[j] || d[i].index
            != d[j].index by {
            assert(d[i] == c[i]);
            assert(d[j] == c[j]);
        }
        assert forall|i: int, j: int| 0 <= i < j < d.len() implies d[i].index != d[j].index by {
            assert(d[i] == c[i]);
            assert(d[j] == c[j]);
        }
        lemma_closed_once(d, index);
        if c.last().index == index {
            assert forall|k: int| 0 <= k < d.len() implies d[k].index != index by {
                assert(d[k] == c[k]);
                assert(c[k].index != c[c.len() - 1].index);
            }
            assert(!has_closed_index(d, index));
            assert(c[c.len() - 1].index == index);
            assert(has_closed_index(c, index));
        } else {
            if has_closed_index(c, index) {
                let k = choose|k: int| 0 <= k < c.len() && c[k].index == index;
                assert(d[k] == c[k]);
                assert(has_closed_index(d, index));
            }
            if has_closed_index(d, index) {
                let k = choose|k: int| 0 <= k < d.len() && d[k].index == index;
                assert(c[k] == d[k]);
                assert(has_closed_index(c, index));
            }
        }
    }
}

/// The smaller of two integers.
pub open spec fn spec_min(a: int, b: int) -> int {
    if a <= b {
        a
    } else {
        b
    }
}

/// The position just above the first record a page drawn with `before`
/// may return: the cursor itself, or the end of the ledger when no cursor
/// was given.
pub open spec fn page_start(len: int, before: Option<u32>) -> int {
    match before {
        Option::None => len,
        Option::Some(b) => spec_min(b as int, len),
    }
}

/// The positions of one page of the global ledger: at most `page_size`
/// of them, strictly below the cursor, in descending order.
pub open spec fn page_positions(len: int, before: Option<u32>, page_size: int) -> Seq<int> {
    let s = page_start(len, before);
    Seq::new(spec_min(page_size, s) as nat, |j: int| s - 1 - j)
}

/// The records of one page of the global ledger, most recent first.
pub open spec fn page_records(
    c: Seq<ClosedRecordModel>,
    before: Option<u32>,
    page_size: int,
) -> Seq<ClosedRecordModel> {
    page_positions(c.len() as int, before, page_size).map_values(|p: int| c[p])
}

/// The continuation cursor of one page: the position of the last record
/// returned, absent when the page is empty or reached the oldest record.
pub open spec fn page_next(len: int, before: Option<u32>, page_size: int) -> Option<u32> {
    let ps = page_positions(len, before, page_size);
    if ps.len() > 0 && ps.last() > 0 {
        Option::Some(ps.last() as u32)
    } else {
        Option::None
    }
}

/// Cursor stability: a cursor fetched against a snapshot of the ledger
/// keeps returning the very same page, and the very same continuation,
/// after any number of records were appended behind it.
pub proof fn lemma_cursor_stability(
    c1: Seq<ClosedRecordModel>,
    c2: Seq<ClosedRecordModel>,
    before: u32,
    page_size: int,
)
    requires
        c1.is_prefix_of(c2),
        before as int <= c1.len(),
        0 <= page_size,
    ensures
        page_records(c1, Option::Some(before), page_size) =~~= page_records(
            c2,
            Option::Some(before),
            page_size,
        ),
        page_next(c1.len() as int, Option::Some(before), page_size) == page_next(
            c2.len() as int,
            Option::Some(before),
            page_size,
        ),
{
    assert(page_positions(c1.len() as int, Option::Some(before), page_size) =~= page_positions(
        c2.len() as int,
        Option::Some(before),
        page_size,
    ));
    assert forall|j: int|
        0 <= j < page_records(c1, Option::Some(before), page_size).len() implies page_records(
        c1,
        Option::Some(before),
        page_size,
    )[j] =~~= page_records(c2, Option::Some(before), page_size)[j] by {
        let p = page_positions(c1.len() as int, Option::Some(before), page_size)[j];
        assert(0 <= p < before as int);
        assert(c1[p] == c2[p]);
    }
}

/// Ascending positions of the records matching one per-address role.
/// With `won` false these are the address's closed-as-seller entries;
/// with `won` true the auctions it won: those naming it as the winning
/// bidder alongside a non-empty winning bid.
pub open spec fn role_match(r: ClosedRecordModel, a: Seq<char>, won: bool) -> bool {
    if won {
        r.winner == Option::Some(a) && r.winning_bid is Some
    } else {
        r.seller == a
    }
}

/// The positions below `n` whose records match the role, ascending.
pub open spec fn role_positions(
    c: Seq<ClosedRecordModel>,
    a: Seq<char>,
    won: bool,
    n: int,
) -> Seq<int>
    decreases n,
{
    if n <= 0 {
        Seq::empty()
    } else {
        let rest = role_positions(c, a, won, n - 1);
        if role_match(c[n - 1], a, won) {
            rest.push(n - 1)
        } else {
            rest
        }
    }
}

/// The prefix of an ascending position list that lies strictly below the
/// cursor; the whole list when no cursor was given.
pub open spec fn below(ps: Seq<int>, before: Option<u32>) -> Seq<int>
    decreases ps.len(),
{
    match before {
        Option::None => ps,
        Option::Some(b) => if ps.len() == 0 {
            ps
        } else if ps.last() < b as int {
            ps
        } else {
            below(ps.drop_last(), before)
        },
    }
}

/// Whether a position list is strictly ascending.
pub open spec fn ascending(ps: Seq<int>) -> bool {
    forall|i: int, j: int| 0 <= i < j < ps.len() ==> ps[i] < ps[j]
}

pub proof fn lemma_role_positions_ascending(c: Seq<ClosedRecordModel>, a: Seq<char>, won: bool, n: int)
    ensures
        ascending(role_positions(c, a, won, n)),
        forall|i: int|
            0 <= i < role_positions(c, a, won, n).len() ==> 0 <= #[trigger] role_positions(
                c,
                a,
                won,
                n,
            )[i] < n,
    decreases n,
{
    if n > 0 {
        lemma_role_positions_ascending(c, a, won, n - 1);
    }
}

proof fn lemma_below_take(ps: Seq<int>, b: u32, hi: int)
    requires
        ascending(ps),
        0 <= hi <= ps.len(),
        hi > 0 ==> ps[hi - 1] < b as int,
        hi < ps.len() ==> ps[hi] >= b as int,
    ensures
        below(ps, Option::Some(b)) =~= ps.take(hi),
    decreases ps.len(),
{
    if ps.len() == 0 {
    } else if ps.last() < b as int {
        assert(hi == ps.len());
        assert(ps.take(hi) =~= ps);
    } else {
        assert(hi < ps.len());
        let d = ps.drop_last();
        assert forall|i: int, j: int| 0 <= i < j < d.len() implies d[i] < d[j] by {
            assert(d[i] == ps[i]);
            assert(d[j] == ps[j]);
        }
        lemma_below_take(d, b, hi);
        assert(d.take(hi) =~= ps.take(hi));
    }
}

impl ClosedLedger {
    /// An empty ledger.
    pub fn new() -> (r: ClosedLedger)
        ensures
            r@ =~= Seq::<ClosedRecordModel>::empty(),
    {
        ClosedLedger { entries: Vec::new() }
    }

    /// The number of records retired so far, which is also the position
    /// the next append will take.
    pub fn len(&self) -> (r: usize)
        ensures
            r == self@.len(),
    {
        self.entries.len()
    }

    /// Whether some record of the ledger carries the auction index.
    pub fn contains_index(&self, index: u32) -> (r: bool)
        ensures
            r == has_closed_index(self@, index),
    {
        let n = self.entries.len();
        let mut i: usize = 0;
        while i < n
            invariant
                n == self@.len(),
                0 <= i <= n,
                forall|j: int| 0 <= j < i ==> self@[j].index != index,
            decreases n - i,
        {
            if self.entries[i].index == index {
                proof {
                    assert(self@[i as int].index == index);
                }
                return true;
            }
            i += 1;
        }
        false
    }

    /// Appends the closed snapshot of an auction, assigning it the next
    /// sequential position, and returns that position.  The record is
    /// immutable from here on.
    pub fn append(
        &mut self,
        seller: String,
        winner: Option<String>,
        index: u32,
        info: StoreClosedAuctionInfo,
    ) -> (pos: u32)
        requires
            closed_wf(old(self)@),
            old(self)@.len() < 0xffff_ffff,
            !has_closed_index(old(self)@, index),
        ensures
            closed_wf(final(self)@),
            pos as int == old(self)@.len(),
            final(self)@ =~~= old(self)@.push(
                ClosedRecordModel {
                    index,
                    seller: seller@,
                    winner: opt_view(winner),
                    address: info.address@,
                    label: info.label@,
                    sell_symbol: info.sell_symbol,
                    bid_symbol: info.bid_symbol,
                    sell_amount: info.sell_amount,
                    winning_bid: info.winning_bid,
                    timestamp: info.timestamp,
                },
            ),
    {
        let ghost c0 = self@;
        let pos = self.entries.len() as u32;
        self.entries.push(ClosedEntry { seller, winner, index, info });
        proof {
            assert(self@ =~~= c0.push(
                ClosedRecordModel {
                    index,
                    seller: seller@,
                    winner: opt_view(winner),
                    address: info.address@,
                    label: info.label@,
                    sell_symbol: info.sell_symbol,
                    bid_symbol: info.bid_symbol,
                    sell_amount: info.sell_amount,
                    winning_bid: info.winning_bid,
                    timestamp: info.timestamp,
                },
            ));
            assert forall|i: int, j: int| 0 <= i < j < self@.len() implies self@[i].index
                != self@[j].index by {
                if j < self@.len() - 1 {
                    assert(self@[i] == c0[i]);
                    assert(self@[j] == c0[j]);
                } else {
                    assert(self@[i] == c0[i]);
                    assert(!has_closed_index(c0, index));
                }
            }
        }
        pos
    }

    /// One page of the global ledger, as positions in descending order,
    /// together with the continuation cursor.
    pub fn page(&self, before: Option<u32>, page_size: u32) -> (r: (Vec<u32>, Option<u32>))
        requires
            closed_wf(self@),
        ensures
            r.0@.len() == page_positions(self@.len() as int, before, page_size as int).len(),
            forall|j: int|
                0 <= j < r.0@.len() ==> r.0@[j] as int == page_positions(
                    self@.len() as int,
                    before,
                    page_size as int,
                )[j],
            r.1 == page_next(self@.len() as int, before, page_size as int),
    {
        let len = self.entries.len();
        let start: usize = match before {
            Option::None => len,
            Option::Some(b) => if (b as usize) < len {
                b as usize
            } else {
                len
            },
        };
        let count: usize = if (page_size as usize) < start {
            page_size as usize
        } else {
            start
        };
        proof {
            assert(start as int == page_start(self@.len() as int, before));
            assert(count as int == spec_min(page_size as int, start as int));
        }
        let mut out: Vec<u32> = Vec::new();
        let mut j: usize = 0;
        while j < count
            invariant
                0 <= j <= count,
                count <= start <= len,
                len == self@.len(),
                len <= 0xffff_ffff,
                out@.len() == j,
                forall|i: int| 0 <= i < j ==> out@[i] as int == start - 1 - i,
            decreases count - j,
        {
            out.push((start - 1 - j) as u32);
            j += 1;
        }
        let next: Option<u32> = if out.len() > 0 {
            let last = out[out.len() - 1];
            if last > 0 {
                Option::Some(last)
            } else {
                Option::None
            }
        } else {
            Option::None
        };
        proof {
            let ps = page_positions(self@.len() as int, before, page_size as int);
            assert(ps.len() == count);
            if count > 0 {
                assert(out@[count - 1] as int == ps.last());
            }
        }
        (out, next)
    }

    /// The ascending positions of one address's records in the given
    /// role: closed-as-seller, or closed-won.
    pub fn positions_for(&self, address: &String, won: bool) -> (r: Vec<u32>)
        requires
            closed_wf(self@),
        ensures
            r@.map_values(|p: u32| p as int) =~= role_positions(
                self@,
                address@,
                won,
                self@.len() as int,
            ),
    {
        let len = self.entries.len();
        let mut out: Vec<u32> = Vec::new();
        let mut p: usize = 0;
        proof {
            assert(out@.map_values(|q: u32| q as int) =~= role_positions(self@, address@, won, 0));
        }
        while p < len
            invariant
                0 <= p <= len,
                len == self@.len(),
                len <= 0xffff_ffff,
                out@.map_values(|q: u32| q as int) =~= role_positions(
                    self@,
                    address@,
                    won,
                    p as int,
                ),
            decreases len - p,
        {
            let ghost ov = out@.map_values(|q: u32| q as int);
            let e = &self.entries[p];
            let matched: bool = if won {
                let has_bid = match &e.info.winning_bid {
                    Option::Some(_) => true,
                    Option::None => false,
                };
                has_bid && match &e.winner {
                    Option::Some(w) => *w == *address,
                    Option::None => false,
                }
            } else {
                e.seller == *address
            };
            proof {
                assert(matched == role_match(self@[p as int], address@, won));
            }
            if matched {
                out.push(p as u32);
                proof {
                    assert(out@.map_values(|q: u32| q as int) =~= ov.push(p as int));
                }
            }
            p += 1;
        }
        out
    }

    /// One page of one address's role set: positions in descending order
    /// below the cursor, and the continuation cursor, which is absent
    /// when the page reached the address's oldest record.
    pub fn page_for(&self, address: &String, won: bool, before: Option<u32>, page_size: u32) -> (r:
        (Vec<u32>, Option<u32>))
        requires
            closed_wf(self@),
        ensures
            ({
                let ps = role_positions(self@, address@, won, self@.len() as int);
                let cut = below(ps, before);
                let m = spec_min(page_size as int, cut.len() as int);
                &&& r.0@.len() == m
                &&& forall|j: int| 0 <= j < m ==> r.0@[j] as int == cut[cut.len() - 1 - j]
                &&& r.1 == (if 0 < m < cut.len() {
                    Option::Some(cut[cut.len() - m] as u32)
                } else {
                    Option::<u32>::None
                })
            }),
    {
        let ps = self.positions_for(address, won);
        let ghost psi = ps@.map_values(|q: u32| q as int);
        proof {
            lemma_role_positions_ascending(self@, address@, won, self@.len() as int);
        }
        let mut hi: usize = ps.len();
        match before {
            Option::None => {
                proof {
                    assert(below(psi, before) =~= psi);
                }
            },
            Option::Some(b) => {
                while hi > 0 && ps[hi - 1] >= b
                    invariant
                        0 <= hi <= ps@.len(),
                        psi =~= ps@.map_values(|q: u32| q as int),
                        ascending(psi),
                        forall|i: int| hi <= i < psi.len() ==> psi[i] >= b as int,
                    decreases hi,
                {
                    hi -= 1;
                }
                proof {
                    lemma_below_take(psi, b, hi as int);
                }
            },
        }
        proof {
            if before is None {
                assert(hi as int == below(psi, before).len());
                assert(psi.take(hi as int) =~= below(psi, before));
            }
        }
        let count: usize = if (page_size as usize) < hi {
            page_size as usize
        } else {
            hi
        };
        let mut out: Vec<u32> = Vec::new();
        let mut j: usize = 0;
        while j < count
            invariant
                0 <= j <= count,
                count <= hi <= ps@.len(),
                psi =~= ps@.map_values(|q: u32| q as int),
                out@.len() == j,
                forall|i: int| 0 <= i < j ==> out@[i] == ps@[hi - 1 - i],
            decreases count - j,
        {
            out.push(ps[hi - 1 - j]);
            j += 1;
        }
        let next: Option<u32> = if count > 0 && count < hi {
            Option::Some(ps[hi - count])
        } else {
            Option::None
        };
        proof {
            let cut = below(psi, before);
            assert(cut =~= psi.take(hi as int));
            assert(cut.len() == hi);
            assert forall|i: int| 0 <= i < count implies out@[i] as int == cut[cut.len() - 1
                - i] by {
                assert(cut[hi - 1 - i] == psi[hi - 1 - i]);
                assert(psi[hi - 1 - i] == ps@[hi - 1 - i] as int);
            }
            if 0 < count < hi {
                assert(ps@[hi - count] as int == cut[cut.len() - count]);
            }
        }
        (out, next)
    }
}

} // verus!

