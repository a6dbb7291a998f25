//! The values that the venues report and the bot keeps.
use crate::amount::Amount;
use vstd::prelude::*;

verus! {

broadcast use vstd::string::group_string_axioms;

#[derive(Clone, Copy, PartialEq, Eq, Debug, Structural)]
pub enum OrderSide {
    Buy,
    Sell,
}

#[derive(Clone, Copy, PartialEq, Eq, Debug, Structural)]
pub enum PositionSide {
    Long,
    Short,
}

/// Why a call to the Extended venue failed.
#[derive(Debug)]
pub enum ConnectorError {
    /// The venue, or this connector on its behalf, refused the call.
    ApiError(String),
    /// The venue does not list the market.
    InvalidMarket(String),
    /// The request could not be sent or the reply not received.
    Transport(String),
    /// The reply is not what was expected.
    Malformed(String),
    /// The order could not be signed.
    Signature(String),
    Other(String),
}

impl ConnectorError {
    /// The error is a refusal with this text.
    pub open spec fn is_api_error(self, text: Seq<char>) -> bool {
        self matches ConnectorError::ApiError(t) && t@ == text
    }

    /// The error is a market that the venue does not list, with this text.
    pub open spec fn is_invalid_market(self, text: Seq<char>) -> bool {
        self matches ConnectorError::InvalidMarket(t) && t@ == text
    }

    /// The error is one of the rest, with this text.
    pub open spec fn is_other(self, text: Seq<char>) -> bool {
        self matches ConnectorError::Other(t) && t@ == text
    }
}

/// The error member of a reply.
#[derive(Debug)]
pub struct ApiErrorInfo {
    pub code: String,
    pub message: String,
}

/// A reply of the Extended venue: its data, or what it says is wrong.
#[derive(Debug)]
pub struct ApiResponse<T> {
    pub data: Option<T>,
    pub error: Option<ApiErrorInfo>,
}

#[derive(Debug)]
pub struct PriceLevel {
    pub qty: String,
    pub price: String,
}

/// The offers to buy and to sell, each the best first.
#[derive(Debug)]
pub struct OrderBook {
    pub market: String,
    pub bid: Vec<PriceLevel>,
    pub ask: Vec<PriceLevel>,
}

/// The best offers of an order book.
#[derive(Debug)]
pub struct BidAsk {
    pub market: String,
    pub bid: Option<PriceLevel>,
    pub ask: Option<PriceLevel>,
}

#[derive(Debug)]
pub struct MarketInfo {
    pub name: String,
    pub active: bool,
    pub status: String,
}

/// How the settlement layer knows a market.
#[derive(Debug)]
pub struct L2Config {
    pub synthetic_id: String,
    pub collateral_id: String,
    pub synthetic_resolution: u64,
    pub collateral_resolution: u64,
}

/// The limits that a market sets on orders.
#[derive(Debug)]
pub struct TradingConfig {
    pub min_order_size: String,
    pub min_order_size_change: String,
    /// The decimal places of a price.
    pub price_precision: usize,
}

#[derive(Debug)]
pub struct MarketConfig {
    pub name: String,
    pub l2_config: L2Config,
    pub trading_config: TradingConfig,
}

/// The new leverage of a market.
#[derive(Debug)]
pub struct LeverageData {
    pub market: String,
    pub leverage: String,
}

/// The hourly funding rate of a market.
#[derive(Debug)]
pub struct FundingRateInfo {
    pub market: String,
    pub rate: Amount,
    pub rate_percentage: Amount,
    /// Milliseconds since the Unix epoch.
    pub timestamp: u64,
    pub is_positive: bool,
}

/// A position on the Extended venue.
#[derive(Debug)]
pub struct Position {
    pub market: String,
    pub side: PositionSide,
    /// The size in units of the asset.
    pub size: Amount,
    /// The value in dollars.
    pub value: Amount,
    /// The profit not yet taken, in dollars, where one is reported that can be read.
    pub unrealized_pnl: Option<Amount>,
}

/// A position on the Pacifica venue.
#[derive(Debug)]
pub struct PacificaPosition {
    pub symbol: String,
    pub side: String,
    /// The size in units of the asset.
    pub amount: Amount,
    /// The price at which the position was entered.
    pub entry: Amount,
    /// `amount` times `entry`.
    pub notional: Amount,
    /// Milliseconds since the Unix epoch; not positive where unknown.
    pub created_at: i64,
}

/// A pair of opposite positions, or what is left of one.
#[derive(Debug)]
pub struct DeltaNeutralPosition {
    pub symbol: String,
    pub extended_position: Option<Position>,
    pub pacifica_position: Option<PacificaPosition>,
    /// Seconds since the Unix epoch.
    pub opened_at: u64,
    pub target_notional_usd: Amount,
}

/// A pair of markets that a scan found worth trading.
#[derive(Debug)]
pub struct Opportunity {
    pub symbol: String,
    /// Which venue to be long on, in words.
    pub best_direction: String,
}

/// A market of the Pacifica venue.
pub struct PacificaMarket {
    pub symbol: String,
    /// The step of order sizes, or why it could not be read.
    pub lot_size: Result<Amount, String>,
}

impl Clone for PacificaMarket {
    fn clone(&self) -> (r: PacificaMarket)
        ensures
            r == *self,
    {
        PacificaMarket {
            symbol: self.symbol.clone(),
            lot_size: match &self.lot_size {
                Ok(lot) => Ok(*lot),
                Err(e) => Err(e.clone()),
            },
        }
    }
}

impl Clone for PriceLevel {
    fn clone(&self) -> (r: PriceLevel)
        ensures
            r == *self,
    {
        PriceLevel { qty: self.qty.clone(), price: self.price.clone() }
    }
}

impl Clone for Position {
    fn clone(&self) -> (r: Position)
        ensures
            r == *self,
    {
        Position {
            market: self.market.clone(),
            side: self.side,
            size: self.size,
            value: self.value,
            unrealized_pnl: self.unrealized_pnl,
        }
    }
}

impl Clone for PacificaPosition {
    fn clone(&self) -> (r: PacificaPosition)
        ensures
            r == *self,
    {
        PacificaPosition {
            symbol: self.symbol.clone(),
            side: self.side.clone(),
            amount: self.amount,
            entry: self.entry,
            notional: self.notional,
            created_at: self.created_at,
        }
    }
}

impl Clone for DeltaNeutralPosition {
    fn clone(&self) -> (r: DeltaNeutralPosition)
        ensures
            r == *self,
    {
        DeltaNeutralPosition {
            symbol: self.symbol.clone(),
            extended_position: match &self.extended_position {
                Some(p) => Some(p.clone()),
                None => None,
            },
            pacifica_position: match &self.pacifica_position {
                Some(p) => Some(p.clone()),
                None => None,
            },
            opened_at: self.opened_at,
            target_notional_usd: self.target_notional_usd,
        }
    }
}

/// The best offers of a book: the first of each side.
pub open spec fn first_level(levels: Seq<PriceLevel>) -> Option<PriceLevel> {
    if levels.len() == 0 {
        None
    } else {
        Some(levels[0])
    }
}

impl BidAsk {
    /// The best offers of an order book.
    pub fn from_book(book: &OrderBook) -> (r: BidAsk)
        ensures
            r.market == book.market,
            r.bid == first_level(book.bid@),
            r.ask == first_level(book.ask@),
    {
        BidAsk {
            market: book.market.clone(),
            bid: if book.bid.len() == 0 {
                None
            } else {
                Some(book.bid[0].clone())
            },
            ask: if book.ask.len() == 0 {
                None
            } else {
                Some(book.ask[0].clone())
            },
        }
    }
}

/// The first item for which `wanted` holds.
pub open spec fn first_where<T>(items: Seq<T>, wanted: spec_fn(T) -> bool) -> Option<T>
    decreases items.len(),
{
    if items.len() == 0 {
        None
    } else if wanted(items[0]) {
        Some(items[0])
    } else {
        first_where(items.drop_first(), wanted)
    }
}

/// The first item for which `wanted` holds stands before all others for which
/// it does; where there is none, it holds for none.
pub proof fn lemma_first_where<T>(items: Seq<T>, wanted: spec_fn(T) -> bool)
    ensures
        match first_where(items, wanted) {
            Some(found) => exists|i: int|
                0 <= i < items.len() && items[i] == found && wanted(items[i]) && (forall|j: int|
                    0 <= j < i ==> !wanted(#[trigger] items[j])),
            None => forall|j: int| 0 <= j < items.len() ==> !wanted(#[trigger] items[j]),
        },
    decreases items.len(),
{
    if items.len() > 0 && !wanted(items[0]) {
        let rest = items.drop_first();
        lemma_first_where(rest, wanted);
        match first_where(rest, wanted) {
            Some(found) => {
                let i = choose|i: int|
                    0 <= i < rest.len() && rest[i] == found && wanted(rest[i]) && (forall|j: int|
                        0 <= j < i ==> !wanted(#[trigger] rest[j]));
                assert(items[i + 1] == found);
                assert forall|j: int| 0 <= j < i + 1 implies !wanted(#[trigger] items[j]) by {
                    if j > 0 {
                        assert(rest[j - 1] == items[j]);
                    }
                }
            },
            None => {
                assert forall|j: int| 0 <= j < items.len() implies !wanted(#[trigger] items[j]) by {
                    if j > 0 {
                        assert(rest[j - 1] == items[j]);
                    }
                }
            },
        }
    }
}

/// An item for which `wanted` holds, with none before it, is the first.
pub proof fn lemma_first_is<T>(items: Seq<T>, wanted: spec_fn(T) -> bool, i: int)
    requires
        0 <= i < items.len(),
        wanted(items[i]),
        forall|j: int| 0 <= j < i ==> !wanted(#[trigger] items[j]),
    ensures
        first_where(items, wanted) == Some(items[i]),
    decreases items.len(),
{
    if i > 0 {
        assert(!wanted(items[0]));
        let rest = items.drop_first();
        assert forall|j: int| 0 <= j < i - 1 implies !wanted(#[trigger] rest[j]) by {
            assert(rest[j] == items[j + 1]);
        }
        lemma_first_is(rest, wanted, i - 1);
    }
}

/// Where `wanted` holds for no item there is no first.
pub proof fn lemma_first_is_none<T>(items: Seq<T>, wanted: spec_fn(T) -> bool)
    requires
        forall|j: int| 0 <= j < items.len() ==> !wanted(#[trigger] items[j]),
    ensures
        first_where(items, wanted) is None,
    decreases items.len(),
{
    if items.len() > 0 {
        assert(!wanted(items[0]));
        let rest = items.drop_first();
        assert forall|j: int| 0 <= j < rest.len() implies !wanted(#[trigger] rest[j]) by {
            assert(rest[j] == items[j + 1]);
        }
        lemma_first_is_none(rest, wanted);
    }
}

/// What an error is and what it says are told apart: a text of one sort is not taken for another.
pub proof fn law_errors_of_one_sort_are_not_of_another(text: String, other: Seq<char>)
    ensures
        ConnectorError::ApiError(text).is_api_error(other) <==> text@ == other,
        ConnectorError::InvalidMarket(text).is_invalid_market(other) <==> text@ == other,
        ConnectorError::Other(text).is_other(other) <==> text@ == other,
        !ConnectorError::ApiError(text).is_other(other),
        !ConnectorError::ApiError(text).is_invalid_market(other),
        !ConnectorError::InvalidMarket(text).is_api_error(other),
        !ConnectorError::InvalidMarket(text).is_other(other),
        !ConnectorError::Other(text).is_api_error(other),
        !ConnectorError::Other(text).is_invalid_market(other),
        !ConnectorError::Transport(text).is_other(other),
        !ConnectorError::Malformed(text).is_other(other),
        !ConnectorError::Signature(text).is_other(other),
{
}

/// The best offer of a side is the one in front, and levels behind it change nothing.
pub proof fn law_the_best_offer_is_the_one_in_front(
    best: PriceLevel,
    behind: Seq<PriceLevel>,
)
    ensures
        first_level(seq![best] + behind) == Some(best),
        first_level(Seq::empty()) is None,
{
}

/// What is wanted is looked for from the front: an item that is wanted is found where it stands
/// in front, one that is not is passed over, and nothing is found among no items.
pub proof fn law_the_first_wanted_is_found<T>(item: T, behind: Seq<T>, wanted: spec_fn(T) -> bool)
    ensures
        first_where(seq![item] + behind, wanted) == (if wanted(item) {
            Some(item)
        } else {
            first_where(behind, wanted)
        }),
        first_where(Seq::empty(), wanted) is None,
{
    assert((seq![item] + behind).drop_first() =~= behind);
}

} // verus!
