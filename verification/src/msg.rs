use vstd::prelude::*;

verus! {

/// Instantiation data for the factory.
pub struct InitMsg {
    /// entropy used to seed the viewing-key generator
    pub entropy: String,
    /// auction contract info
    pub auction_contract: AuctionContractInfo,
}

/// Mutating calls.  The auction-execution service is the only permitted
/// caller of the registry transitions; external users call only the
/// viewing-key operations; the admin calls the status and version toggles.
pub enum HandleMsg {
    /// CreateAuction asks the factory to instantiate a new auction.
    /// Instantiation itself belongs to the execution component; the
    /// registry only enforces that creation is allowed.
    CreateAuction {
        /// string label for the auction
        label: String,
        /// sell contract code hash and address
        sell_contract: ContractInfo,
        /// bid contract code hash and address
        bid_contract: ContractInfo,
        /// amount of tokens being sold
        sell_amount: u128,
        /// minimum bid that will be accepted
        minimum_bid: u128,
        /// timestamp after which anyone may close the auction,
        /// in seconds since epoch 01/01/1970
        ends_at: u64,
        /// optional free-form description of the auction
        description: Option<String>,
    },
    /// RegisterAuction saves the info of a newly instantiated auction and
    /// adds it to the list of active auctions as well as to the seller's
    /// list of auctions.
    RegisterAuction {
        /// seller/creator of the auction
        seller: String,
        /// auction information needed by the factory
        auction: RegisterAuctionInfo,
        /// sell token contract info
        sell_contract: ContractInfo,
    },
    /// CloseAuction tells the factory that the auction closed and provides
    /// the winning bid if appropriate.
    CloseAuction {
        /// auction index
        index: u32,
        /// auction seller
        seller: String,
        /// winning bidder if the auction ended in a swap
        bidder: Option<String>,
        /// winning bid if the auction ended in a swap
        winning_bid: Option<u128>,
    },
    /// RegisterBidder lets the factory know an auction has a new bidder so
    /// it can update that address' list of auctions.
    RegisterBidder {
        /// auction index
        index: u32,
        /// bidder's address
        bidder: String,
    },
    /// RemoveBidder lets the factory know a bidder retracted a bid.
    RemoveBidder {
        /// auction index
        index: u32,
        /// bidder's address
        bidder: String,
    },
    /// Allows the admin to add a new auction contract version.
    NewAuctionContract {
        auction_contract: AuctionContractInfo,
    },
    /// Create a viewing key to be used with all authenticated queries.
    CreateViewingKey { entropy: String },
    /// Set a viewing key to be used with all authenticated queries.
    SetViewingKey {
        key: String,
        /// optional padding so the message length does not betray the key
        /// length
        padding: Option<String>,
    },
    /// Allows the admin to start/stop all auction creation.
    SetStatus { stop: bool },
    /// Change the closing time and/or minimum bid of an auction.
    ChangeAuctionInfo {
        /// auction index
        index: u32,
        /// optional new closing time in seconds since epoch 01/01/1970
        ends_at: Option<u64>,
        /// optional new minimum bid
        minimum_bid: Option<u128>,
    },
}

/// Read-only queries.
pub enum QueryMsg {
    /// lists all auctions the given address has owned, won, or has an
    /// active bid in; gated by the viewing key
    ListMyAuctions {
        /// address whose activity to display
        address: String,
        /// viewing key
        viewing_key: String,
        /// optional filter for only active or closed auctions; lists all
        /// when not given
        filter: Option<FilterTypes>,
    },
    /// lists all active auctions sorted by pair
    ListActiveAuctions {},
    /// lists closed auctions in reverse chronological order.  `page_size`
    /// bounds the number returned (default 200).  `before` starts listing
    /// from the first auction whose position is less than it; paginating
    /// callers pass the position of the last auction received.
    ListClosedAuctions {
        /// optionally only show auctions with position less than this
        before: Option<u32>,
        /// optional number of auctions to return
        page_size: Option<u32>,
    },
    /// authenticates the supplied address/viewing key pair on behalf of an
    /// auction
    IsKeyValid {
        /// address whose viewing key is being authenticated
        address: String,
        /// viewing key
        viewing_key: String,
    },
}

/// the filter types when viewing an address' auctions
#[derive(Clone, Copy, Debug, PartialEq, Eq, Structural)]
pub enum FilterTypes {
    Active,
    Closed,
    All,
}

/// responses to queries
pub enum QueryAnswer {
    /// lists the auctions where the address is either the seller or a
    /// bidder (or won); absent categories are omitted, not empty
    ListMyAuctions {
        active: Option<MyActiveLists>,
        closed: Option<MyClosedLists>,
    },
    /// active auctions sorted by pair; absent when there are none
    ListActiveAuctions { active: Option<Vec<AuctionInfo>> },
    /// closed auctions in reverse chronological order; absent when the
    /// requested page is empty
    ListClosedAuctions { closed: Option<Vec<ClosedAuctionInfo>> },
    /// viewing key authentication failure; the error never distinguishes a
    /// wrong key from an absent one
    ViewingKeyError { error: String },
    /// result of authenticating an address/key pair
    IsKeyValid { is_valid: bool },
}

/// Lists of active auctions sorted by pair where the address is a seller
/// or bidder.
pub struct MyActiveLists {
    /// active auctions sorted by pair where the address is the seller
    pub as_seller: Option<Vec<AuctionInfo>>,
    /// active auctions sorted by pair where the address is a bidder
    pub as_bidder: Option<Vec<AuctionInfo>>,
}

/// Lists of closed auctions in reverse chronological order where the
/// address is the seller or won.
pub struct MyClosedLists {
    /// closed auctions in reverse chronological order where the address is
    /// the seller
    pub as_seller: Option<Vec<ClosedAuctionInfo>>,
    /// closed auctions in reverse chronological order where the address won
    pub won: Option<Vec<ClosedAuctionInfo>>,
}

/// success or failure response
#[derive(Clone, Copy, Debug, PartialEq, Eq, Structural)]
pub enum ResponseStatus {
    Success,
    Failure,
}

/// Responses from handle functions.
pub enum HandleAnswer {
    /// response from creating a viewing key
    ViewingKey { key: String },
    /// generic status response
    Status {
        /// success or failure
        status: ResponseStatus,
        /// execution description
        message: Option<String>,
    },
}

/// code hash and address of a contract
pub struct ContractInfo {
    /// contract's code hash string
    pub code_hash: String,
    /// contract's address
    pub address: String,
}

/// Info needed to instantiate an auction.
pub struct AuctionContractInfo {
    /// code id of the stored auction contract
    pub code_id: u64,
    /// code hash of the stored auction contract
    pub code_hash: String,
}

/// active auction display info
pub struct AuctionInfo {
    /// auction address
    pub address: String,
    /// auction label
    pub label: String,
    /// symbols of the tokens for sale and being bid, in the form SELL-BID
    pub pair: String,
    /// sell amount
    pub sell_amount: u128,
    /// number of decimal places in sell_amount
    pub sell_decimals: u8,
    /// minimum bid
    pub minimum_bid: u128,
    /// number of decimal places in minimum_bid
    pub bid_decimals: u8,
    /// timestamp after which anyone may close the auction,
    /// in seconds since epoch 01/01/1970
    pub ends_at: u64,
}

/// active auction info as the auction service reports it
pub struct RegisterAuctionInfo {
    /// auction index with the factory
    pub index: u32,
    /// auction label
    pub label: String,
    /// sell symbol index
    pub sell_symbol: u16,
    /// bid symbol index
    pub bid_symbol: u16,
    /// sell amount
    pub sell_amount: u128,
    /// minimum bid
    pub minimum_bid: u128,
    /// timestamp after which anyone may close the auction,
    /// in seconds since epoch 01/01/1970
    pub ends_at: u64,
}

impl RegisterAuctionInfo {
    /// Takes the register auction information and creates the stored
    /// representation, resolving the auction's address.
    pub fn to_store_auction_info(&self, address: String) -> (r: StoreAuctionInfo)
        ensures
            r == (StoreAuctionInfo {
                address,
                label: self.label,
                sell_symbol: self.sell_symbol,
                bid_symbol: self.bid_symbol,
                sell_amount: self.sell_amount,
                minimum_bid: self.minimum_bid,
                ends_at: self.ends_at,
            }),
    {
        StoreAuctionInfo {
            address,
            label: self.label.clone(),
            sell_symbol: self.sell_symbol,
            bid_symbol: self.bid_symbol,
            sell_amount: self.sell_amount,
            minimum_bid: self.minimum_bid,
            ends_at: self.ends_at,
        }
    }
}

/// active auction info as stored
pub struct StoreAuctionInfo {
    /// auction address
    pub address: String,
    /// auction label
    pub label: String,
    /// sell symbol index
    pub sell_symbol: u16,
    /// bid symbol index
    pub bid_symbol: u16,
    /// sell amount
    pub sell_amount: u128,
    /// minimum bid
    pub minimum_bid: u128,
    /// timestamp after which anyone may close the auction,
    /// in seconds since epoch 01/01/1970
    pub ends_at: u64,
}

impl StoreAuctionInfo {
    /// Takes the active auction information and creates the closed
    /// snapshot recorded in the ledger.
    pub fn to_store_closed_auction_info(
        &self,
        winning_bid: Option<u128>,
        timestamp: u64,
    ) -> (r: StoreClosedAuctionInfo)
        ensures
            r == (StoreClosedAuctionInfo {
                address: self.address,
                label: self.label,
                sell_symbol: self.sell_symbol,
                bid_symbol: self.bid_symbol,
                sell_amount: self.sell_amount,
                winning_bid,
                timestamp,
            }),
    {
        StoreClosedAuctionInfo {
            address: self.address.clone(),
            label: self.label.clone(),
            sell_symbol: self.sell_symbol,
            bid_symbol: self.bid_symbol,
            sell_amount: self.sell_amount,
            winning_bid,
            timestamp,
        }
    }
}

/// closed auction display info
pub struct ClosedAuctionInfo {
    /// position in the closed-auction ledger; given in the global listing,
    /// where it serves as the pagination cursor
    pub index: Option<u32>,
    /// auction address
    pub address: String,
    /// auction label
    pub label: String,
    /// symbols of the tokens for sale and being bid, in the form SELL-BID
    pub pair: String,
    /// sell amount
    pub sell_amount: u128,
    /// number of decimal places in sell_amount
    pub sell_decimals: u8,
    /// winning bid, absent when the auction closed unsold
    pub winning_bid: Option<u128>,
    /// number of decimal places in winning_bid, absent without a bid
    pub bid_decimals: Option<u8>,
    /// time the auction closed in seconds since epoch 01/01/1970
    pub timestamp: u64,
}

/// closed auction storage format
pub struct StoreClosedAuctionInfo {
    /// auction address
    pub address: String,
    /// auction label
    pub label: String,
    /// sell symbol index
    pub sell_symbol: u16,
    /// bid symbol index
    pub bid_symbol: u16,
    /// sell amount
    pub sell_amount: u128,
    /// winning bid, absent when the auction closed unsold
    pub winning_bid: Option<u128>,
    /// time the auction closed in seconds since epoch 01/01/1970
    pub timestamp: u64,
}

} // verus!
