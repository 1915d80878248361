use vstd::prelude::*;
use vstd::string::StringExecFns;

verus! {

/// One interned token symbol together with the number of decimal places
/// its token uses.
pub struct SymbolEntry {
    /// the token symbol string
    pub symbol: String,
    /// decimal places of the token's amounts
    pub decimals: u8,
}

/// Mathematical image of one interned symbol.
pub struct SymbolModel {
    pub name: Seq<char>,
    pub decimals: u8,
}

/// Interns token symbol strings to small integer indices for compact
/// storage.  Records refer to symbols only by index; the display formatter
/// reads the table back when it builds a SELL-BID pair string.
pub struct SymbolTable {
    pub entries: Vec<SymbolEntry>,
}

impl View for SymbolTable {
    type V = Seq<SymbolModel>;

    open spec fn view(&self) -> Seq<SymbolModel> {
        self.entries@.map_values(
            |e: SymbolEntry| SymbolModel { name: e.symbol@, decimals: e.decimals },
        )
    }
}

/// A table is well formed when no symbol string is interned twice and
/// every index fits in a `u16`.
pub open spec fn symbols_wf(st: Seq<SymbolModel>) -> bool {
    &&& st.len() <= 0x10000
    &&& forall|i: int, j: int| 0 <= i < j < st.len() ==> st[i].name != st[j].name
}

/// Whether some entry of the table holds `name`.
pub open spec fn has_symbol(st: Seq<SymbolModel>, name: Seq<char>) -> bool {
    exists|i: int| 0 <= i < st.len() && st[i].name == name
}

/// The symbol string stored under index `i`; the empty sequence when the
/// index was never interned.
pub open spec fn symbol_chars(st: Seq<SymbolModel>, i: u16) -> Seq<char> {
    if i < st.len() {
        st[i as int].name
    } else {
        Seq::empty()
    }
}

/// The decimal places stored under index `i`; zero when the index was
/// never interned.
pub open spec fn symbol_decimals(st: Seq<SymbolModel>, i: u16) -> u8 {
    if i < st.len() {
        st[i as int].decimals
    } else {
        0
    }
}

/// The SELL-BID display string of a token pair.
pub open spec fn pair_chars(st: Seq<SymbolModel>, sell: u16, bid: u16) -> Seq<char> {
    symbol_chars(st, sell) + "-"@ + symbol_chars(st, bid)
}

impl SymbolTable {
    /// An empty symbol table.
    pub fn new() -> (r: SymbolTable)
        ensures
            r@ =~= Seq::<SymbolModel>::empty(),
    {
        SymbolTable { entries: Vec::new() }
    }

    /// Interns `symbol`, returning its index.  A symbol already present
    /// keeps its first index and its stored decimals; a new one is
    /// appended.  `None` is returned only when the table is full and the
    /// symbol is new.
    pub fn intern(&mut self, symbol: String, decimals: u8) -> (r: Option<u16>)
        requires
            symbols_wf(old(self)@),
        ensures
            symbols_wf(final(self)@),
            has_symbol(old(self)@, symbol@) ==> {
                &&& final(self)@ =~= old(self)@
                &&& r matches Some(i) && 0 <= i < old(self)@.len() && old(
                    self,
                )@[i as int].name == symbol@
            },
            !has_symbol(old(self)@, symbol@) && old(self)@.len() < 0x10000 ==> {
                &&& r == Some(old(self)@.len() as u16)
                &&& final(self)@ =~= old(self)@.push(
                    SymbolModel { name: symbol@, decimals },
                )
            },
            !has_symbol(old(self)@, symbol@) && old(self)@.len() >= 0x10000 ==> {
                &&& r is None
                &&& final(self)@ =~= old(self)@
            },
    {
        let n = self.entries.len();
        assert(n == self@.len());
        let mut i: usize = 0;
        while i < n
            invariant
                *self == *old(self),
                symbols_wf(self@),
                n == self.entries.len(),
                n == self@.len(),
                0 <= i <= n,
                forall|j: int| 0 <= j < i ==> self@[j].name != symbol@,
            decreases n - i,
        {
            if self.entries[i].symbol == symbol {
                assert(self@[i as int].name == symbol@);
                return Some(i as u16);
            }
            i += 1;
        }
        if n < 0x10000 {
            let ghost pre = self@;
            self.entries.push(SymbolEntry { symbol, decimals });
            proof {
                assert(self@ =~= pre.push(SymbolModel { name: symbol@, decimals }));
            }
            Some(n as u16)
        } else {
            None
        }
    }

    /// The decimal places of the token under `i`; zero for an index that
    /// was never interned.
    pub fn decimals(&self, i: u16) -> (r: u8)
        ensures
            r == symbol_decimals(self@, i),
    {
        if (i as usize) < self.entries.len() {
            self.entries[i as usize].decimals
        } else {
            0
        }
    }

    /// Builds the SELL-BID display string of a token pair.  An index that
    /// was never interned contributes an empty symbol.
    pub fn pair_string(&self, sell: u16, bid: u16) -> (r: String)
        ensures
            r@ == pair_chars(self@, sell, bid),
    {
        let mut r = String::new();
        if (sell as usize) < self.entries.len() {
            r.append(self.entries[sell as usize].symbol.as_str());
        }
        r.append("-");
        if (bid as usize) < self.entries.len() {
            r.append(self.entries[bid as usize].symbol.as_str());
        }
        proof {
            assert(r@ =~= pair_chars(self@, sell, bid));
        }
        r
    }
}

} // verus!
