//! Market orders on the Extended venue.
//!
//! The venue has no market orders: one is placed as a limit order at a price that
//! is sure to be met, which is filled at once or not at all.
use crate::amount::Amount;
use crate::clock::{instant_of, is_reading, since_epoch, utc_instant};
use crate::http::HttpStatus;
use crate::rest::{data_of, missing_data_text, refusal_text, refused, RestClient, RestClientView};
use crate::state::ClockFault;
use crate::text::{begins_with, concat2, concat3, decimal, decimal_places, decimal_text, places, occurs_in, parse_u64, parsed_u64, signed_decimal, signed_decimal_text};
use crate::types::{ApiResponse, ConnectorError, MarketConfig, OrderBook, OrderSide, Position, PositionSide};
use vstd::prelude::*;

verus! {

broadcast use vstd::string::group_string_axioms;

/// The milliseconds for which an order stands.
pub const ORDER_LIFE_MILLIS: i64 = 3_600_000;

/// The taker fee, as the bits of 0.0006, where the venue reports none that can
/// be read.
pub const DEFAULT_TAKER_FEE_BITS: u64 = 0x3f43_a92a_3055_3261;

/// An order to be placed.
pub struct OrderTask {
    pub market: String,
    pub side: OrderSide,
    /// The size in dollars.
    pub notional_usd: Amount,
    /// The order may only make a position smaller.
    pub reduce_only: bool,
    /// The size in units of the asset, where that is given.
    pub max_base_size: Option<Amount>,
    pub stark_public_key: String,
    pub vault_id: String,
}

/// The side of the book from which an order takes its price.
#[derive(Clone, Copy, PartialEq, Eq, Debug, Structural)]
pub enum BookSide {
    Bid,
    Ask,
}

/// Where the size of an order comes from.
#[derive(Clone, Copy, PartialEq, Eq, Debug, Structural)]
pub enum QuantitySource {
    /// These units of the asset.
    Base(Amount),
    /// These dollars, divided by the price.
    Notional(Amount),
}

/// How a size is brought to a multiple of the increment.
#[derive(Clone, Copy, PartialEq, Eq, Debug, Structural)]
pub enum Rounding {
    Down,
    Nearest,
}

/// By what rules the price and the size of an order are computed.
#[derive(Clone, Copy, PartialEq, Eq, Debug, Structural)]
pub struct SizingRule {
    pub book_side: BookSide,
    /// The best price of that side.
    pub best_price: Amount,
    /// What the best price is multiplied by, in ten-thousandths.
    pub factor: u64,
    pub price_precision: usize,
    pub source: QuantitySource,
    pub rounding: Rounding,
}

/// What was computed by a sizing rule.
pub struct Sizing {
    pub price: Amount,
    /// The size before it was rounded, printed.
    pub raw_text: String,
    /// The size, rounded.
    pub rounded: Amount,
    pub min_size: Amount,
    pub increment: Amount,
    /// The increment, printed.
    pub increment_text: String,
}

/// Why an order could not be sized.
pub enum SizingFault {
    /// The smallest size cannot be read, for this reason.
    MinSize(String),
    /// The size increment cannot be read, for this reason.
    Increment(String),
}

/// An order with its size and price as they will be sent.
pub struct OrderDraft {
    pub config: MarketConfig,
    pub quantity: Amount,
    pub quantity_text: String,
    pub price_text: String,
}

/// The numbers that an order takes from the clock.
#[derive(Clone, Copy, PartialEq, Eq, Debug, Structural)]
pub struct OrderTimes {
    /// Milliseconds since the Unix epoch, for the identity of the order.
    pub id_millis: i64,
    /// Seconds since the Unix epoch.
    pub nonce: u64,
    /// Milliseconds since the Unix epoch.
    pub expiry_epoch_millis: u64,
}

#[derive(Debug)]
pub struct Signature {
    pub r: String,
    pub s: String,
}

#[derive(Clone, Copy, PartialEq, Eq, Debug, Structural)]
pub enum ChainId {
    SnMain,
    SnSepolia,
}

impl ChainId {
    pub open spec fn name(self) -> Seq<char> {
        match self {
            ChainId::SnMain => "SN_MAIN"@,
            ChainId::SnSepolia => "SN_SEPOLIA"@,
        }
    }

    /// The name under which orders are signed.
    pub fn text(&self) -> (r: &'static str)
        ensures
            r@ == self.name(),
    {
        match self {
            ChainId::SnMain => "SN_MAIN",
            ChainId::SnSepolia => "SN_SEPOLIA",
        }
    }
}

/// What is to be signed. The amounts follow from the printed size and price and
/// the fee rate.
pub struct SignRequest {
    pub synthetic_id: String,
    pub collateral_id: String,
    pub synthetic_resolution: u64,
    pub collateral_resolution: u64,
    pub side: OrderSide,
    pub quantity_text: String,
    pub price_text: String,
    pub fee_rate: Amount,
    pub vault: u64,
    pub nonce: u64,
    pub expiry_epoch_millis: u64,
    pub public_key: String,
    pub chain: ChainId,
}

/// A signature, and the fee rate as it will be sent.
pub struct SignedOrder {
    pub signature: Signature,
    pub fee_text: String,
}

#[derive(Clone, Copy, PartialEq, Eq, Debug, Structural)]
pub enum OrderType {
    Limit,
}

#[derive(Clone, Copy, PartialEq, Eq, Debug, Structural)]
pub enum TimeInForce {
    /// Filled at once or not at all.
    ImmediateOrCancel,
}

/// An order as it is sent.
pub struct OrderRequest {
    pub id: String,
    pub market: String,
    pub order_type: OrderType,
    pub side: OrderSide,
    pub qty: String,
    pub price: String,
    pub time_in_force: TimeInForce,
    pub expiry_epoch_millis: u64,
    pub fee: String,
    pub nonce: String,
    pub signature: Signature,
    pub stark_key: String,
    pub collateral_position: String,
    pub self_trade_protection_level: String,
    pub reduce_only: bool,
    pub post_only: bool,
}

/// How the venue knows an order that it took.
#[derive(Debug)]
pub struct OrderResponse {
    pub id: String,
    pub external_id: String,
}

/// The reply to an order: its status, its text and what came of parsing it.
pub struct OrderReply {
    pub status: HttpStatus,
    pub text: String,
    pub parsed: Result<ApiResponse<OrderResponse>, String>,
}

/// Where the placing of an order stands.
pub enum OrderStage {
    Start,
    AwaitConfig,
    AwaitBook(MarketConfig),
    AwaitPrices(MarketConfig),
    AwaitSizing(MarketConfig),
    AwaitFormat(MarketConfig, Amount),
    AwaitFees(OrderDraft),
    AwaitSignature(OrderDraft, OrderTimes),
    AwaitReply,
    Finished,
}

pub enum OrderEvent {
    Begin,
    Config(Result<MarketConfig, ConnectorError>),
    Book(Result<OrderBook, ConnectorError>),
    /// The best prices, where they can be read.
    Prices { bid: Option<Amount>, ask: Option<Amount> },
    Sized(Result<Sizing, SizingFault>),
    /// The size and the price, printed.
    Formatted { quantity_text: String, price_text: String },
    /// The taker fee, where it can be read.
    Fees(Result<Option<Amount>, ConnectorError>),
    Signed(Result<SignedOrder, ConnectorError>),
    Replied(Result<OrderReply, ConnectorError>),
}

pub enum OrderAction {
    /// Nothing to do: the event was not the one waited for.
    Await,
    FetchConfig,
    FetchBook,
    /// Read the numbers in the best prices.
    ReadPrices { bid: String, ask: String },
    /// Compute the price and the size, with these limits of the market.
    Size { rule: SizingRule, min_size_text: String, increment_text: String },
    /// Print the size and the price. Where the increment is one or more the size
    /// needs no decimal places, and else as many as show the increment; it has
    /// `least_places` in any case.
    Format {
        quantity: Amount,
        increment: Amount,
        whole_units: bool,
        least_places: usize,
        price: Amount,
        price_precision: usize,
    },
    FetchFees,
    Sign(SignRequest),
    Submit { url: String, api_key: String, order: OrderRequest },
    Finish(Result<OrderResponse, ConnectorError>),
    /// The order is to be dated and the clock cannot tell the time.
    ClockFault(ClockFault),
}

/// The rules for an order: a buyer pays up to 0.75 percent more than the best
/// ask, a seller takes down to 0.75 percent less than the best bid; a given size
/// is taken as it is; an order that may only reduce is rounded down.
pub open spec fn sizing_rule(task: OrderTask, precision: usize, bid: Amount, ask: Amount) -> SizingRule {
    SizingRule {
        book_side: match task.side {
            OrderSide::Buy => BookSide::Ask,
            OrderSide::Sell => BookSide::Bid,
        },
        best_price: match task.side {
            OrderSide::Buy => ask,
            OrderSide::Sell => bid,
        },
        factor: match task.side {
            OrderSide::Buy => 10075,
            OrderSide::Sell => 9925,
        },
        price_precision: precision,
        source: match task.max_base_size {
            Some(base) => QuantitySource::Base(base),
            None => QuantitySource::Notional(task.notional_usd),
        },
        rounding: if task.reduce_only {
            Rounding::Down
        } else {
            Rounding::Nearest
        },
    }
}

/// The size that is sent: the smallest size of the market is enforced, except on
/// an order that may only reduce, which it could make too large.
pub open spec fn order_quantity(reduce_only: bool, rounded: Amount, min_size: Amount) -> Amount {
    if reduce_only {
        rounded
    } else {
        rounded.spec_max(min_size)
    }
}

/// The decimal places that a printed size has at least. A size that may only reduce
/// has all those of the increment, so that it is not rounded up to more than the
/// position when it is printed.
pub open spec fn least_places(reduce_only: bool, increment_text: Seq<char>) -> usize {
    if reduce_only {
        places(increment_text) as usize
    } else {
        0
    }
}

/// What is reported of an order whose size came to nothing.
pub open spec fn zero_size_text(
    market: Seq<char>,
    raw: Seq<char>,
    increment: Seq<char>,
    reduce_only: bool,
) -> Seq<char> {
    "Refusing to submit a zero-size order for "@ + market + " (raw="@ + raw + ", increment="@
        + increment + ", reduce_only="@ + (if reduce_only {
        "true"@
    } else {
        "false"@
    })
        + "). The remaining position is smaller than one size increment; it must be closed manually or left as dust."@
}

/// What a sizing fault is reported as.
pub open spec fn sizing_fault_text(fault: SizingFault) -> Seq<char> {
    match fault {
        SizingFault::MinSize(e) => "Failed to parse minOrderSize: "@ + e@,
        SizingFault::Increment(e) => "Failed to parse minOrderSizeChange: "@ + e@,
    }
}

/// The network under whose name a client signs.
pub open spec fn chain_of(client: RestClientView) -> ChainId {
    if occurs_in(client.base_url, "sepolia"@) {
        ChainId::SnSepolia
    } else {
        ChainId::SnMain
    }
}

/// The numbers of an order follow from two readings of the clock.
pub open spec fn times_of(secs: i64, millis: i64, later_millis: i64) -> OrderTimes {
    OrderTimes {
        id_millis: millis,
        nonce: secs as u64,
        expiry_epoch_millis: (later_millis + ORDER_LIFE_MILLIS) as u64,
    }
}

/// The numbers of an order, given two readings of the clock, or why there are none.
pub open spec fn order_times_of(first: Option<(u64, u32)>, second: Option<(u64, u32)>) -> Result<
    OrderTimes,
    ClockFault,
> {
    match (instant_of(first), instant_of(second)) {
        (Err(fault), _) => Err(fault),
        (Ok(_), Err(fault)) => Err(fault),
        (Ok(now), Ok(later)) => Ok(times_of(now.0, now.1, later.1)),
    }
}

/// The number of the vault, or 0 where its text is no number.
pub open spec fn vault_number(vault_id: Seq<char>) -> u64 {
    match parsed_u64(vault_id) {
        Some(n) => n,
        None => 0,
    }
}

/// What is signed for an order.
pub open spec fn is_sign_request(
    client: RestClientView,
    task: OrderTask,
    draft: OrderDraft,
    fee_rate: Amount,
    times: OrderTimes,
    r: SignRequest,
) -> bool {
    r == SignRequest {
        synthetic_id: draft.config.l2_config.synthetic_id,
        collateral_id: draft.config.l2_config.collateral_id,
        synthetic_resolution: draft.config.l2_config.synthetic_resolution,
        collateral_resolution: draft.config.l2_config.collateral_resolution,
        side: task.side,
        quantity_text: draft.quantity_text,
        price_text: draft.price_text,
        fee_rate,
        vault: vault_number(task.vault_id@),
        nonce: times.nonce,
        expiry_epoch_millis: times.expiry_epoch_millis,
        public_key: task.stark_public_key,
        chain: chain_of(client),
    }
}

/// What is sent for an order.
pub open spec fn is_order_request(
    task: OrderTask,
    draft: OrderDraft,
    times: OrderTimes,
    signed: SignedOrder,
    r: OrderRequest,
) -> bool {
    &&& r.id@ == "rust-"@ + signed_decimal(times.id_millis as int)
    &&& r.market == task.market
    &&& r.order_type == OrderType::Limit
    &&& r.side == task.side
    &&& r.qty == draft.quantity_text
    &&& r.price == draft.price_text
    &&& r.time_in_force == TimeInForce::ImmediateOrCancel
    &&& r.expiry_epoch_millis == times.expiry_epoch_millis
    &&& r.fee == signed.fee_text
    &&& r.nonce@ == decimal(times.nonce as nat)
    &&& r.signature == signed.signature
    &&& r.stark_key == task.stark_public_key
    &&& r.collateral_position == task.vault_id
    &&& r.self_trade_protection_level@ == "ACCOUNT"@
    &&& r.reduce_only == task.reduce_only
    &&& !r.post_only
}

/// What is reported of a reply that cannot be parsed.
pub open spec fn unparsed_reply_text(reason: Seq<char>, reply: Seq<char>) -> Seq<char> {
    "Failed to parse order response: "@ + reason + ". Response: "@ + reply
}

/// What a reply to an order means.
pub open spec fn is_order_result(reply: OrderReply, r: Result<OrderResponse, ConnectorError>) -> bool {
    if !crate::http::is_success_code(reply.status@) {
        r matches Err(e) && e.is_api_error(refusal_text(reply.status@, Some(reply.text@)))
    } else {
        match reply.parsed {
            Err(reason) => r matches Err(e) && e.is_other(
                unparsed_reply_text(reason@, reply.text@),
            ),
            Ok(response) => match response.data {
                Some(data) => r == Ok::<OrderResponse, ConnectorError>(data),
                None => r matches Err(e) && e.is_api_error(missing_data_text(response.error)),
            },
        }
    }
}

/// The placing ends with an error for which this holds.
pub open spec fn order_fails(next: OrderStage, action: OrderAction, is: spec_fn(ConnectorError) -> bool) -> bool {
    next is Finished && (action matches OrderAction::Finish(Err(e)) && is(e))
}

/// How the placing of an order goes on from a stage when an event comes in. Where
/// the order is dated, `times` are the numbers that the clock gives.
pub open spec fn order_follows(
    client: RestClientView,
    task: OrderTask,
    stage: OrderStage,
    event: OrderEvent,
    times: Result<OrderTimes, ClockFault>,
    next: OrderStage,
    action: OrderAction,
) -> bool {
    match (stage, event) {
        (OrderStage::Start, OrderEvent::Begin) => next is AwaitConfig && action is FetchConfig,
        (OrderStage::AwaitConfig, OrderEvent::Config(Ok(config))) => next == OrderStage::AwaitBook(
            config,
        ) && action is FetchBook,
        (OrderStage::AwaitConfig, OrderEvent::Config(Err(cause))) => order_fails(
            next,
            action,
            |e: ConnectorError| e == cause,
        ),
        (OrderStage::AwaitBook(config), OrderEvent::Book(Ok(book))) => if book.bid@.len() == 0
            || book.ask@.len() == 0 {
            order_fails(
                next,
                action,
                |e: ConnectorError| e.is_api_error("Orderbook has no bids or asks"@),
            )
        } else {
            next == OrderStage::AwaitPrices(config) && action == OrderAction::ReadPrices {
                bid: book.bid@[0].price,
                ask: book.ask@[0].price,
            }
        },
        (OrderStage::AwaitBook(_), OrderEvent::Book(Err(cause))) => order_fails(
            next,
            action,
            |e: ConnectorError| e == cause,
        ),
        (OrderStage::AwaitPrices(config), OrderEvent::Prices { bid, ask }) => match (bid, ask) {
            (None, _) => order_fails(
                next,
                action,
                |e: ConnectorError| e.is_other("Failed to parse best bid price"@),
            ),
            (Some(_), None) => order_fails(
                next,
                action,
                |e: ConnectorError| e.is_other("Failed to parse best ask price"@),
            ),
            (Some(b), Some(a)) => next == OrderStage::AwaitSizing(config) && action
                == OrderAction::Size {
                rule: sizing_rule(task, config.trading_config.price_precision, b, a),
                min_size_text: config.trading_config.min_order_size,
                increment_text: config.trading_config.min_order_size_change,
            },
        },
        (OrderStage::AwaitSizing(config), OrderEvent::Sized(Ok(sizing))) => {
            let quantity = order_quantity(task.reduce_only, sizing.rounded, sizing.min_size);
            if quantity.spec_is_positive() {
                next == OrderStage::AwaitFormat(config, quantity) && action == OrderAction::Format {
                    quantity,
                    increment: sizing.increment,
                    whole_units: sizing.increment.spec_at_least_one(),
                    least_places: least_places(task.reduce_only, sizing.increment_text@),
                    price: sizing.price,
                    price_precision: config.trading_config.price_precision,
                }
            } else {
                order_fails(
                    next,
                    action,
                    |e: ConnectorError|
                        e.is_other(
                            zero_size_text(
                                task.market@,
                                sizing.raw_text@,
                                sizing.increment_text@,
                                task.reduce_only,
                            ),
                        ),
                )
            }
        },
        (OrderStage::AwaitSizing(_), OrderEvent::Sized(Err(fault))) => order_fails(
            next,
            action,
            |e: ConnectorError| e.is_other(sizing_fault_text(fault)),
        ),
        (
            OrderStage::AwaitFormat(config, quantity),
            OrderEvent::Formatted { quantity_text, price_text },
        ) => next == OrderStage::AwaitFees(
            OrderDraft { config, quantity, quantity_text, price_text },
        ) && action is FetchFees,
        (OrderStage::AwaitFees(draft), OrderEvent::Fees(Ok(fee))) => {
            let fee_rate = match fee {
                Some(rate) => rate,
                None => Amount { bits: DEFAULT_TAKER_FEE_BITS },
            };
            match times {
                Ok(t) => next == OrderStage::AwaitSignature(draft, t) && (
                action matches OrderAction::Sign(request) && is_sign_request(
                    client,
                    task,
                    draft,
                    fee_rate,
                    t,
                    request,
                )),
                Err(fault) => next is Finished && action == OrderAction::ClockFault(fault),
            }
        },
        (OrderStage::AwaitFees(_), OrderEvent::Fees(Err(cause))) => order_fails(
            next,
            action,
            |e: ConnectorError| e == cause,
        ),
        (OrderStage::AwaitSignature(draft, kept), OrderEvent::Signed(Ok(signed))) => {
            match client.api_key {
                Some(key) => next is AwaitReply && (action matches OrderAction::Submit {
                    url,
                    api_key,
                    order,
                } && url@ == client.base_url + "/user/order"@ && api_key@ == key
                    && is_order_request(task, draft, kept, signed, order)),
                None => order_fails(
                    next,
                    action,
                    |e: ConnectorError| e.is_api_error("API key required for order placement"@),
                ),
            }
        },
        (OrderStage::AwaitSignature(_, _), OrderEvent::Signed(Err(cause))) => order_fails(
            next,
            action,
            |e: ConnectorError| e == cause,
        ),
        (OrderStage::AwaitReply, OrderEvent::Replied(Ok(reply))) => next is Finished && (
        action matches OrderAction::Finish(result) && is_order_result(reply, result)),
        (OrderStage::AwaitReply, OrderEvent::Replied(Err(cause))) => order_fails(
            next,
            action,
            |e: ConnectorError| e == cause,
        ),
        _ => next == stage && action is Await,
    }
}

fn zero_size_error(market: &str, raw: &str, increment: &str, reduce_only: bool) -> (r: ConnectorError)
    ensures
        r.is_other(zero_size_text(market@, raw@, increment@, reduce_only)),
{
    let mut text: String = concat3("Refusing to submit a zero-size order for ", market, " (raw=");
    text.append(raw);
    text.append(", increment=");
    text.append(increment);
    text.append(", reduce_only=");
    text.append(
        if reduce_only {
            "true"
        } else {
            "false"
        },
    );
    text.append(
        "). The remaining position is smaller than one size increment; it must be closed manually or left as dust.",
    );
    ConnectorError::Other(text)
}

/// The numbers of an order, given two readings of the clock.
pub fn order_times(secs: i64, millis: i64, later_millis: i64) -> (r: OrderTimes)
    requires
        0 <= secs,
        0 <= later_millis <= i64::MAX - ORDER_LIFE_MILLIS,
    ensures
        r == times_of(secs, millis, later_millis),
{
    OrderTimes {
        id_millis: millis,
        nonce: secs as u64,
        expiry_epoch_millis: (later_millis + ORDER_LIFE_MILLIS) as u64,
    }
}

/// The numbers of an order, given two readings of the clock. The time of expiry
/// comes from a reading of its own.
pub fn order_times_given(first: Option<(u64, u32)>, second: Option<(u64, u32)>) -> (r: Result<
    OrderTimes,
    ClockFault,
>)
    ensures
        r == order_times_of(first, second),
{
    match utc_instant(first) {
        Err(fault) => Err(fault),
        Ok(now) => match utc_instant(second) {
            Err(fault) => Err(fault),
            Ok(later) => Ok(order_times(now.0, now.1, later.1)),
        },
    }
}

/// What a reply to an order means.
pub fn order_result(reply: OrderReply) -> (r: Result<OrderResponse, ConnectorError>)
    ensures
        is_order_result(reply, r),
{
    if !reply.status.is_success() {
        return Err(refused(reply.status, Some(reply.text)));
    }
    match reply.parsed {
        Ok(response) => data_of(response),
        Err(reason) => {
            let mut text: String = concat3(
                "Failed to parse order response: ",
                reason.as_str(),
                ". Response: ",
            );
            text.append(reply.text.as_str());
            Err(ConnectorError::Other(text))
        },
    }
}

impl OrderTask {
    /// The rules by which the order gets its price and its size.
    pub fn rule(&self, precision: usize, bid: Amount, ask: Amount) -> (r: SizingRule)
        ensures
            r == sizing_rule(*self, precision, bid, ask),
            self.max_base_size matches Some(base) ==> r.source == QuantitySource::Base(base),
            self.max_base_size is None ==> r.source == QuantitySource::Notional(self.notional_usd),
    {
        SizingRule {
            book_side: match self.side {
                OrderSide::Buy => BookSide::Ask,
                OrderSide::Sell => BookSide::Bid,
            },
            best_price: match self.side {
                OrderSide::Buy => ask,
                OrderSide::Sell => bid,
            },
            factor: match self.side {
                OrderSide::Buy => 10075,
                OrderSide::Sell => 9925,
            },
            price_precision: precision,
            source: match self.max_base_size {
                Some(base) => QuantitySource::Base(base),
                None => QuantitySource::Notional(self.notional_usd),
            },
            rounding: if self.reduce_only {
                Rounding::Down
            } else {
                Rounding::Nearest
            },
        }
    }
}

impl RestClient {
    /// One step of placing a market order. An order is dated when it is signed.
    pub fn place_market_order(&self, task: &OrderTask, stage: OrderStage, event: OrderEvent) -> (r: (
        OrderStage,
        OrderAction,
    ))
        ensures
            exists|first: Option<(u64, u32)>, second: Option<(u64, u32)>|
                is_reading(first) && is_reading(second) && order_follows(
                    self@,
                    *task,
                    stage,
                    event,
                    #[trigger] order_times_of(first, second),
                    r.0,
                    r.1,
                ),
    {
        let first: Option<(u64, u32)> = since_epoch();
        let second: Option<(u64, u32)> = since_epoch();
        let times: Result<OrderTimes, ClockFault> = order_times_given(first, second);
        self.place_market_order_at(task, stage, event, times)
    }

    /// One step of placing a market order, given the numbers that it takes from the
    /// clock.
    pub fn place_market_order_at(
        &self,
        task: &OrderTask,
        stage: OrderStage,
        event: OrderEvent,
        times: Result<OrderTimes, ClockFault>,
    ) -> (r: (OrderStage, OrderAction))
        ensures
            order_follows(self@, *task, stage, event, times, r.0, r.1),
    {
        match (stage, event) {
            (OrderStage::Start, OrderEvent::Begin) => (
                OrderStage::AwaitConfig,
                OrderAction::FetchConfig,
            ),
            (OrderStage::AwaitConfig, OrderEvent::Config(fetched)) => match fetched {
                Ok(config) => (OrderStage::AwaitBook(config), OrderAction::FetchBook),
                Err(e) => (OrderStage::Finished, OrderAction::Finish(Err(e))),
            },
            (OrderStage::AwaitBook(config), OrderEvent::Book(fetched)) => match fetched {
                Ok(book) => if book.bid.len() == 0 || book.ask.len() == 0 {
                    let error = ConnectorError::ApiError("Orderbook has no bids or asks".to_owned());
                    (OrderStage::Finished, OrderAction::Finish(Err(error)))
                } else {
                    let bid: String = book.bid[0].price.clone();
                    let ask: String = book.ask[0].price.clone();
                    (OrderStage::AwaitPrices(config), OrderAction::ReadPrices { bid, ask })
                },
                Err(e) => (OrderStage::Finished, OrderAction::Finish(Err(e))),
            },
            (OrderStage::AwaitPrices(config), OrderEvent::Prices { bid, ask }) => match (bid, ask) {
                (None, _) => {
                    let error = ConnectorError::Other("Failed to parse best bid price".to_owned());
                    (OrderStage::Finished, OrderAction::Finish(Err(error)))
                },
                (Some(_), None) => {
                    let error = ConnectorError::Other("Failed to parse best ask price".to_owned());
                    (OrderStage::Finished, OrderAction::Finish(Err(error)))
                },
                (Some(b), Some(a)) => {
                    let rule: SizingRule = task.rule(config.trading_config.price_precision, b, a);
                    let min_size_text: String = config.trading_config.min_order_size.clone();
                    let increment_text: String =
                        config.trading_config.min_order_size_change.clone();
                    (
                        OrderStage::AwaitSizing(config),
                        OrderAction::Size { rule, min_size_text, increment_text },
                    )
                },
            },
            (OrderStage::AwaitSizing(config), OrderEvent::Sized(sized)) => match sized {
                Ok(sizing) => {
                    let quantity: Amount = if task.reduce_only {
                        sizing.rounded
                    } else {
                        sizing.rounded.max(sizing.min_size)
                    };
                    if quantity.is_positive() {
                        let price_precision: usize = config.trading_config.price_precision;
                        (
                            OrderStage::AwaitFormat(config, quantity),
                            OrderAction::Format {
                                quantity,
                                increment: sizing.increment,
                                whole_units: sizing.increment.at_least_one(),
                                least_places: if task.reduce_only {
                                    decimal_places(sizing.increment_text.as_str())
                                } else {
                                    0
                                },
                                price: sizing.price,
                                price_precision,
                            },
                        )
                    } else {
                        let error = zero_size_error(
                            task.market.as_str(),
                            sizing.raw_text.as_str(),
                            sizing.increment_text.as_str(),
                            task.reduce_only,
                        );
                        (OrderStage::Finished, OrderAction::Finish(Err(error)))
                    }
                },
                Err(fault) => {
                    let text: String = match &fault {
                        SizingFault::MinSize(e) => concat2(
                            "Failed to parse minOrderSize: ",
                            e.as_str(),
                        ),
                        SizingFault::Increment(e) => concat2(
                            "Failed to parse minOrderSizeChange: ",
                            e.as_str(),
                        ),
                    };
                    (
                        OrderStage::Finished,
                        OrderAction::Finish(Err(ConnectorError::Other(text))),
                    )
                },
            },
            (
                OrderStage::AwaitFormat(config, quantity),
                OrderEvent::Formatted { quantity_text, price_text },
            ) => (
                OrderStage::AwaitFees(OrderDraft { config, quantity, quantity_text, price_text }),
                OrderAction::FetchFees,
            ),
            (OrderStage::AwaitFees(draft), OrderEvent::Fees(fetched)) => match fetched {
                Ok(fee) => {
                    let fee_rate: Amount = match fee {
                        Some(rate) => rate,
                        None => Amount { bits: DEFAULT_TAKER_FEE_BITS },
                    };
                    let dated: OrderTimes = match times {
                        Ok(t) => t,
                        Err(fault) => {
                            return (OrderStage::Finished, OrderAction::ClockFault(fault));
                        },
                    };
                    let vault: u64 = match parse_u64(task.vault_id.as_str()) {
                        Some(n) => n,
                        None => 0,
                    };
                    let request = SignRequest {
                        synthetic_id: draft.config.l2_config.synthetic_id.clone(),
                        collateral_id: draft.config.l2_config.collateral_id.clone(),
                        synthetic_resolution: draft.config.l2_config.synthetic_resolution,
                        collateral_resolution: draft.config.l2_config.collateral_resolution,
                        side: task.side,
                        quantity_text: draft.quantity_text.clone(),
                        price_text: draft.price_text.clone(),
                        fee_rate,
                        vault,
                        nonce: dated.nonce,
                        expiry_epoch_millis: dated.expiry_epoch_millis,
                        public_key: task.stark_public_key.clone(),
                        chain: if self.is_testnet() {
                            ChainId::SnSepolia
                        } else {
                            ChainId::SnMain
                        },
                    };
                    (OrderStage::AwaitSignature(draft, dated), OrderAction::Sign(request))
                },
                Err(e) => (OrderStage::Finished, OrderAction::Finish(Err(e))),
            },
            (OrderStage::AwaitSignature(draft, kept), OrderEvent::Signed(signed)) => match signed {
                Ok(s) => match self.key_or("API key required for order placement") {
                    Ok(api_key) => {
                        let id_digits: String = signed_decimal_text(kept.id_millis);
                        let order = OrderRequest {
                            id: concat2("rust-", id_digits.as_str()),
                            market: task.market.clone(),
                            order_type: OrderType::Limit,
                            side: task.side,
                            qty: draft.quantity_text,
                            price: draft.price_text,
                            time_in_force: TimeInForce::ImmediateOrCancel,
                            expiry_epoch_millis: kept.expiry_epoch_millis,
                            fee: s.fee_text,
                            nonce: decimal_text(kept.nonce),
                            signature: s.signature,
                            stark_key: task.stark_public_key.clone(),
                            collateral_position: task.vault_id.clone(),
                            self_trade_protection_level: "ACCOUNT".to_owned(),
                            reduce_only: task.reduce_only,
                            post_only: false,
                        };
                        (
                            OrderStage::AwaitReply,
                            OrderAction::Submit { url: self.url("/user/order"), api_key, order },
                        )
                    },
                    Err(e) => (OrderStage::Finished, OrderAction::Finish(Err(e))),
                },
                Err(e) => (OrderStage::Finished, OrderAction::Finish(Err(e))),
            },
            (OrderStage::AwaitReply, OrderEvent::Replied(replied)) => match replied {
                Ok(reply) => (OrderStage::Finished, OrderAction::Finish(order_result(reply))),
                Err(e) => (OrderStage::Finished, OrderAction::Finish(Err(e))),
            },
            (other, _) => (other, OrderAction::Await),
        }
    }

    /// The order that closes a position: on the other side, for its whole size,
    /// and such that it can only reduce.
    pub fn close_position(position: &Position, stark_public_key: &str, vault_id: &str) -> (r: OrderTask)
        ensures
            r.market == position.market,
            r.side == closing_side(position.side),
            r.side is Sell <==> position.side is Long,
            r.notional_usd == position.value,
            r.reduce_only,
            r.max_base_size == Some(position.size),
            r.stark_public_key@ == stark_public_key@,
            r.vault_id@ == vault_id@,
    {
        OrderTask {
            market: position.market.clone(),
            side: match position.side {
                PositionSide::Long => OrderSide::Sell,
                PositionSide::Short => OrderSide::Buy,
            },
            notional_usd: position.value,
            reduce_only: true,
            max_base_size: Some(position.size),
            stark_public_key: stark_public_key.to_owned(),
            vault_id: vault_id.to_owned(),
        }
    }
}

/// The side of an order that makes a position smaller.
pub open spec fn closing_side(side: PositionSide) -> OrderSide {
    match side {
        PositionSide::Long => OrderSide::Sell,
        PositionSide::Short => OrderSide::Buy,
    }
}

/// One move in the placing of an order.
pub struct OrderMove {
    pub stage: OrderStage,
    pub event: OrderEvent,
    pub times: Result<OrderTimes, ClockFault>,
    pub next: OrderStage,
    pub action: OrderAction,
}

/// The moves of the placing of one order, from its start on.
pub open spec fn is_placing(client: RestClientView, task: OrderTask, moves: Seq<OrderMove>) -> bool {
    &&& moves.len() > 0 ==> moves[0].stage is Start
    &&& forall|i: int|
        0 <= i < moves.len() ==> {
            let m = #[trigger] moves[i];
            order_follows(client, task, m.stage, m.event, m.times, m.next, m.action)
        }
    &&& forall|i: int, j: int|
        0 <= i && j == i + 1 && j < moves.len() ==> (#[trigger] moves[i]).next == (
        #[trigger] moves[j]).stage
}

/// A move that found the order to have a size.
pub open spec fn sized_above_zero(task: OrderTask, m: OrderMove) -> bool {
    m.event matches OrderEvent::Sized(Ok(sizing)) && order_quantity(
        task.reduce_only,
        sizing.rounded,
        sizing.min_size,
    ).spec_is_positive()
}

/// How far the placing has come.
spec fn progress(stage: OrderStage) -> int {
    match stage {
        OrderStage::Start => 0,
        OrderStage::AwaitConfig => 1,
        OrderStage::AwaitBook(_) => 2,
        OrderStage::AwaitPrices(_) => 3,
        OrderStage::AwaitSizing(_) => 4,
        OrderStage::AwaitFormat(_, _) => 5,
        OrderStage::AwaitFees(_) => 6,
        OrderStage::AwaitSignature(_, _) => 7,
        OrderStage::AwaitReply => 8,
        OrderStage::Finished => 9,
    }
}

/// The size that the order has been given, where it has been given one.
spec fn held_quantity(stage: OrderStage) -> Option<Amount> {
    match stage {
        OrderStage::AwaitFormat(_, quantity) => Some(quantity),
        OrderStage::AwaitFees(draft) => Some(draft.quantity),
        OrderStage::AwaitSignature(draft, _) => Some(draft.quantity),
        _ => None,
    }
}

proof fn lemma_progress(
    client: RestClientView,
    task: OrderTask,
    moves: Seq<OrderMove>,
    i: int,
    j: int,
)
    requires
        is_placing(client, task, moves),
        0 <= i < j < moves.len(),
    ensures
        progress(moves[i].next) <= progress(moves[j].stage),
    decreases j - i,
{
    if j > i + 1 {
        lemma_progress(client, task, moves, i, j - 1);
    }
    let m = moves[j - 1];
    assert(order_follows(client, task, m.stage, m.event, m.times, m.next, m.action));
    assert(m.next == moves[j].stage);
}

/// A size that is held was given by a move before, and is above zero.
proof fn lemma_held_quantity(client: RestClientView, task: OrderTask, moves: Seq<OrderMove>, k: int)
    requires
        is_placing(client, task, moves),
        0 <= k < moves.len(),
        held_quantity(moves[k].stage) is Some,
    ensures
        held_quantity(moves[k].stage)->0.spec_is_positive(),
        exists|i: int| 0 <= i < k && sized_above_zero(task, #[trigger] moves[i]),
    decreases k,
{
    assert(k > 0);
    let m = moves[k - 1];
    assert(order_follows(client, task, m.stage, m.event, m.times, m.next, m.action));
    assert(m.next == moves[k].stage);
    if held_quantity(m.stage) is Some {
        lemma_held_quantity(client, task, moves, k - 1);
    } else {
        assert(sized_above_zero(task, moves[k - 1]));
    }
}

/// An order is submitted only with a size above zero, only signed, and only where
/// the client has a key.
pub proof fn law_submitted_orders_are_sized_and_signed(
    client: RestClientView,
    task: OrderTask,
    moves: Seq<OrderMove>,
    k: int,
)
    requires
        is_placing(client, task, moves),
        0 <= k < moves.len(),
        moves[k].action is Submit,
    ensures
        client.api_key is Some,
        moves[k].event matches OrderEvent::Signed(Ok(_)),
        exists|i: int| 0 <= i < k && sized_above_zero(task, #[trigger] moves[i]),
{
    let m = moves[k];
    assert(order_follows(client, task, m.stage, m.event, m.times, m.next, m.action));
    lemma_held_quantity(client, task, moves, k);
}

/// The placing of an order submits it at most once.
pub proof fn law_an_order_is_submitted_once(
    client: RestClientView,
    task: OrderTask,
    moves: Seq<OrderMove>,
    i: int,
    j: int,
)
    requires
        is_placing(client, task, moves),
        0 <= i < moves.len(),
        0 <= j < moves.len(),
        moves[i].action is Submit,
        moves[j].action is Submit,
    ensures
        i == j,
{
    let a = moves[i];
    let b = moves[j];
    assert(order_follows(client, task, a.stage, a.event, a.times, a.next, a.action));
    assert(order_follows(client, task, b.stage, b.event, b.times, b.next, b.action));
    if i < j {
        lemma_progress(client, task, moves, i, j);
    }
    if j < i {
        lemma_progress(client, task, moves, j, i);
    }
}

/// An order that may only reduce is never made larger than its rounded size, and
/// no other order is sent below the smallest size of the market.
pub proof fn law_minimum_never_enlarges_a_reducing_order(rounded: Amount, min_size: Amount)
    requires
        !rounded.is_nan(),
        !min_size.is_nan(),
    ensures
        order_quantity(true, rounded, min_size) == rounded,
        order_quantity(false, rounded, min_size).rank() >= min_size.rank(),
        order_quantity(false, rounded, min_size).rank() >= rounded.rank(),
{
}

/// The nonce of an order lies in the range that the venue allows, from 1 to two to
/// the 31, as long as the clock stands at such a second.
pub proof fn law_the_nonce_is_in_range_while_the_clock_is(
    first: (u64, u32),
    second: Option<(u64, u32)>,
)
    requires
        1 <= first.0 <= 0x8000_0000,
    ensures
        order_times_of(Some(first), second) matches Ok(times) ==> 1 <= times.nonce <= 0x8000_0000,
{
}

/// A given size is taken as it is, whether the order may only reduce or not, and the dollars
/// divided by the price are used only where no size is given.
pub proof fn law_a_given_size_is_taken_as_it_is(
    task: OrderTask,
    precision: usize,
    bid: Amount,
    ask: Amount,
)
    ensures
        task.max_base_size matches Some(base) ==> sizing_rule(task, precision, bid, ask).source
            == QuantitySource::Base(base),
        task.max_base_size is None ==> sizing_rule(task, precision, bid, ask).source
            == QuantitySource::Notional(task.notional_usd),
{
}

/// Whether an order may only reduce decides how its size is rounded and nothing else of how
/// it is priced and sized; and what it is worth in dollars decides nothing where a size is
/// given.
pub proof fn law_reducing_changes_the_rounding_alone(
    task: OrderTask,
    other: OrderTask,
    precision: usize,
    bid: Amount,
    ask: Amount,
)
    requires
        task.side == other.side,
        task.max_base_size == other.max_base_size,
        task.max_base_size is None ==> task.notional_usd == other.notional_usd,
    ensures
        ({
            let a = sizing_rule(task, precision, bid, ask);
            let b = sizing_rule(other, precision, bid, ask);
            &&& a.source == b.source
            &&& a.best_price == b.best_price
            &&& a.factor == b.factor
            &&& a.book_side == b.book_side
            &&& a.price_precision == precision
            &&& b.price_precision == precision
            &&& a.rounding == b.rounding <==> task.reduce_only == other.reduce_only
            &&& task.reduce_only <==> a.rounding is Down
        }),
{
}

/// A buyer offers three quarters of a percent more than the best ask, a seller takes three
/// quarters of a percent less than the best bid.
pub proof fn law_an_order_is_priced_to_be_met(
    task: OrderTask,
    precision: usize,
    bid: Amount,
    ask: Amount,
)
    ensures
        ({
            let rule = sizing_rule(task, precision, bid, ask);
            &&& task.side is Buy ==> rule.book_side is Ask && rule.best_price == ask && rule.factor
                - 10000 == 75
            &&& task.side is Sell ==> rule.book_side is Bid && rule.best_price == bid && 10000
                - rule.factor == 75
        }),
{
}

/// An order is sized exactly where both best prices can be read, by the rule for its task,
/// with the limits of its market.
pub proof fn law_how_an_order_is_sized(
    client: RestClientView,
    task: OrderTask,
    stage: OrderStage,
    event: OrderEvent,
    times: Result<OrderTimes, ClockFault>,
    next: OrderStage,
    action: OrderAction,
)
    requires
        order_follows(client, task, stage, event, times, next, action),
    ensures
        action is Size <==> stage is AwaitPrices && (event matches OrderEvent::Prices { bid, ask }
            && bid is Some && ask is Some),
        action matches OrderAction::Size { rule, min_size_text, increment_text } ==> (
        stage matches OrderStage::AwaitPrices(config) && event matches OrderEvent::Prices {
            bid: Some(b),
            ask: Some(a),
        } && {
            &&& task.max_base_size matches Some(base) ==> rule.source == QuantitySource::Base(base)
            &&& task.max_base_size is None ==> rule.source == QuantitySource::Notional(
                task.notional_usd,
            )
            &&& task.side is Buy ==> rule.best_price == a && rule.factor == 10075
            &&& task.side is Sell ==> rule.best_price == b && rule.factor == 9925
            &&& task.reduce_only <==> rule.rounding is Down
            &&& rule.price_precision == config.trading_config.price_precision
            &&& min_size_text == config.trading_config.min_order_size
            &&& increment_text == config.trading_config.min_order_size_change
            &&& next == OrderStage::AwaitSizing(config)
        }),
{
}

/// The configuration of the market is fetched first, then the order book, and the best offer
/// of each side is read where there are both.
pub proof fn law_how_an_order_starts(
    client: RestClientView,
    task: OrderTask,
    stage: OrderStage,
    event: OrderEvent,
    times: Result<OrderTimes, ClockFault>,
    next: OrderStage,
    action: OrderAction,
)
    requires
        order_follows(client, task, stage, event, times, next, action),
    ensures
        action is FetchConfig <==> stage is Start && event is Begin,
        action is FetchConfig ==> next is AwaitConfig,
        action is FetchBook <==> stage is AwaitConfig && (event matches OrderEvent::Config(answer)
            && answer is Ok),
        action is FetchBook ==> (next matches OrderStage::AwaitBook(config) && event
            == OrderEvent::Config(Ok(config))),
        action is ReadPrices <==> stage is AwaitBook && (event matches OrderEvent::Book(Ok(book))
            && book.bid@.len() > 0 && book.ask@.len() > 0),
        action matches OrderAction::ReadPrices { bid, ask } ==> (event matches OrderEvent::Book(
            Ok(book),
        ) && bid == book.bid@[0].price && ask == book.ask@[0].price),
        action is ReadPrices ==> (next matches OrderStage::AwaitPrices(config) && stage
            == OrderStage::AwaitBook(config)),
{
}

/// The size of an order that may only reduce is the rounded one; that of another is the
/// rounded one or the smallest of the market, whichever is larger. It is printed exactly where
/// it is above zero, with the price that was worked out.
pub proof fn law_how_the_size_is_settled(
    client: RestClientView,
    task: OrderTask,
    stage: OrderStage,
    event: OrderEvent,
    times: Result<OrderTimes, ClockFault>,
    next: OrderStage,
    action: OrderAction,
)
    requires
        order_follows(client, task, stage, event, times, next, action),
    ensures
        action is Format <==> stage is AwaitSizing && (event matches OrderEvent::Sized(Ok(sizing))
            && {
            ||| task.reduce_only && !sizing.rounded.is_nan() && sizing.rounded.rank() > 0
            ||| !task.reduce_only && !sizing.rounded.is_nan() && sizing.rounded.rank() > 0
            ||| !task.reduce_only && !sizing.min_size.is_nan() && sizing.min_size.rank() > 0
        }),
        action matches OrderAction::Format {
            quantity,
            increment,
            whole_units,
            least_places,
            price,
            price_precision,
        } ==> (event matches OrderEvent::Sized(Ok(sizing)) && stage matches OrderStage::AwaitSizing(
            config,
        ) && {
            &&& task.reduce_only ==> quantity == sizing.rounded
            &&& quantity == sizing.rounded || quantity == sizing.min_size
            &&& !task.reduce_only && !sizing.rounded.is_nan() ==> quantity.rank()
                >= sizing.rounded.rank()
            &&& !task.reduce_only && !sizing.min_size.is_nan() ==> quantity.rank()
                >= sizing.min_size.rank()
            &&& increment == sizing.increment
            &&& whole_units <==> !sizing.increment.is_nan() && sizing.increment.rank()
                >= crate::amount::ONE_BITS
            &&& !task.reduce_only ==> least_places == 0
            &&& task.reduce_only ==> least_places == places(sizing.increment_text@) as usize
            &&& price == sizing.price
            &&& price_precision == config.trading_config.price_precision
            &&& next == OrderStage::AwaitFormat(config, quantity)
        }),
        action is FetchFees <==> stage is AwaitFormat && event is Formatted,
        action is FetchFees ==> (next matches OrderStage::AwaitFees(draft) && event
            == OrderEvent::Formatted {
            quantity_text: draft.quantity_text,
            price_text: draft.price_text,
        } && stage == OrderStage::AwaitFormat(draft.config, draft.quantity)),
{
}

/// What is signed: the size and the price as they were printed, in the assets of the market,
/// on the side of the task, at the fee that the venue reports or the usual one, for the vault
/// and the key of the task, and dated by the clock. It is signed exactly where the fee was
/// answered and the clock can tell the time.
pub proof fn law_what_is_signed(
    client: RestClientView,
    task: OrderTask,
    stage: OrderStage,
    event: OrderEvent,
    times: Result<OrderTimes, ClockFault>,
    next: OrderStage,
    action: OrderAction,
)
    requires
        order_follows(client, task, stage, event, times, next, action),
    ensures
        action is Sign <==> stage is AwaitFees && (event matches OrderEvent::Fees(answer)
            && answer is Ok) && times is Ok,
        action matches OrderAction::Sign(request) ==> (stage matches OrderStage::AwaitFees(draft)
            && event matches OrderEvent::Fees(Ok(fee)) && {
            &&& request.synthetic_id == draft.config.l2_config.synthetic_id
            &&& request.collateral_id == draft.config.l2_config.collateral_id
            &&& request.synthetic_resolution == draft.config.l2_config.synthetic_resolution
            &&& request.collateral_resolution == draft.config.l2_config.collateral_resolution
            &&& request.side == task.side
            &&& request.quantity_text == draft.quantity_text
            &&& request.price_text == draft.price_text
            &&& fee matches Some(rate) ==> request.fee_rate == rate
            &&& fee is None ==> request.fee_rate.bits == 0x3f43_a92a_3055_3261
            &&& request.nonce == times->Ok_0.nonce
            &&& request.expiry_epoch_millis == times->Ok_0.expiry_epoch_millis
            &&& request.public_key == task.stark_public_key
            &&& request.chain is SnSepolia <==> occurs_in(client.base_url, "sepolia"@)
            &&& parsed_u64(task.vault_id@) matches Some(vault) ==> request.vault == vault
            &&& parsed_u64(task.vault_id@) is None ==> request.vault == 0
            &&& next == OrderStage::AwaitSignature(draft, times->Ok_0)
        }),
        action is ClockFault <==> stage is AwaitFees && (event matches OrderEvent::Fees(answer)
            && answer is Ok) && times is Err,
        action matches OrderAction::ClockFault(fault) ==> times == Err::<OrderTimes, ClockFault>(
            fault,
        ) && next is Finished,
{
}

/// What is sent: an order for the market and on the side of the task that is filled at once or
/// not at all, with the size and the price that were signed, under the identity, the nonce and
/// the expiry that the clock gave, with the signature. It is sent exactly where the order was
/// signed and the client has a key, to the service and with the key of the client.
pub proof fn law_what_is_sent(
    client: RestClientView,
    task: OrderTask,
    stage: OrderStage,
    event: OrderEvent,
    times: Result<OrderTimes, ClockFault>,
    next: OrderStage,
    action: OrderAction,
)
    requires
        order_follows(client, task, stage, event, times, next, action),
    ensures
        action is Submit <==> stage is AwaitSignature && (event matches OrderEvent::Signed(answer)
            && answer is Ok) && client.api_key is Some,
        action matches OrderAction::Submit { url, api_key, order } ==> (
        stage matches OrderStage::AwaitSignature(draft, kept) && event matches OrderEvent::Signed(
            Ok(signed),
        ) && {
            &&& url@ == client.base_url + "/user/order"@
            &&& client.api_key == Some(api_key@)
            &&& order.id@ == "rust-"@ + signed_decimal(kept.id_millis as int)
            &&& order.market == task.market
            &&& order.side == task.side
            &&& order.order_type is Limit
            &&& order.time_in_force is ImmediateOrCancel
            &&& order.qty == draft.quantity_text
            &&& order.price == draft.price_text
            &&& order.expiry_epoch_millis == kept.expiry_epoch_millis
            &&& order.nonce@ == decimal(kept.nonce as nat)
            &&& order.fee == signed.fee_text
            &&& order.signature == signed.signature
            &&& order.stark_key == task.stark_public_key
            &&& order.collateral_position == task.vault_id
            &&& order.self_trade_protection_level@ == "ACCOUNT"@
            &&& order.reduce_only == task.reduce_only
            &&& !order.post_only
            &&& next is AwaitReply
        }),
{
}

/// The placing ends well exactly where the reply to the order is a success that names the
/// order, with what it names.
pub proof fn law_an_order_is_placed_exactly_where_the_venue_says_so(
    client: RestClientView,
    task: OrderTask,
    stage: OrderStage,
    event: OrderEvent,
    times: Result<OrderTimes, ClockFault>,
    next: OrderStage,
    action: OrderAction,
)
    requires
        order_follows(client, task, stage, event, times, next, action),
    ensures
        (action matches OrderAction::Finish(result) && result is Ok) <==> stage is AwaitReply && (
        event matches OrderEvent::Replied(Ok(reply)) && 200 <= reply.status@ < 300 && (
        reply.parsed matches Ok(response) && response.data is Some)),
        action matches OrderAction::Finish(Ok(placed)) ==> (event matches OrderEvent::Replied(
            Ok(reply),
        ) && reply.parsed matches Ok(response) && response.data == Some(placed)),
        action is Finish ==> next is Finished,
{
}

/// An error that came in from outside ends the placing as it is.
pub proof fn law_errors_of_an_order_are_passed_on(
    client: RestClientView,
    task: OrderTask,
    stage: OrderStage,
    event: OrderEvent,
    times: Result<OrderTimes, ClockFault>,
    next: OrderStage,
    action: OrderAction,
)
    requires
        order_follows(client, task, stage, event, times, next, action),
    ensures
        match (stage, event) {
            (OrderStage::AwaitConfig, OrderEvent::Config(Err(e))) => action == OrderAction::Finish(
                Err(e),
            ),
            (OrderStage::AwaitBook(_), OrderEvent::Book(Err(e))) => action == OrderAction::Finish(
                Err(e),
            ),
            (OrderStage::AwaitFees(_), OrderEvent::Fees(Err(e))) => action == OrderAction::Finish(
                Err(e),
            ),
            (OrderStage::AwaitSignature(_, _), OrderEvent::Signed(Err(e))) => action
                == OrderAction::Finish(Err(e)),
            (OrderStage::AwaitReply, OrderEvent::Replied(Err(e))) => action == OrderAction::Finish(
                Err(e),
            ),
            _ => true,
        },
{
}

/// The event is the one that the stage waits for.
pub open spec fn is_awaited(stage: OrderStage, event: OrderEvent) -> bool {
    match event {
        OrderEvent::Begin => stage is Start,
        OrderEvent::Config(_) => stage is AwaitConfig,
        OrderEvent::Book(_) => stage is AwaitBook,
        OrderEvent::Prices { .. } => stage is AwaitPrices,
        OrderEvent::Sized(_) => stage is AwaitSizing,
        OrderEvent::Formatted { .. } => stage is AwaitFormat,
        OrderEvent::Fees(_) => stage is AwaitFees,
        OrderEvent::Signed(_) => stage is AwaitSignature,
        OrderEvent::Replied(_) => stage is AwaitReply,
    }
}

/// An event that is waited for always brings the placing on, and one that is not changes
/// nothing.
pub proof fn law_only_awaited_events_move_an_order(
    client: RestClientView,
    task: OrderTask,
    stage: OrderStage,
    event: OrderEvent,
    times: Result<OrderTimes, ClockFault>,
    next: OrderStage,
    action: OrderAction,
)
    requires
        order_follows(client, task, stage, event, times, next, action),
    ensures
        action is Await <==> !is_awaited(stage, event),
        action is Await ==> next == stage,
{
}

/// The identity of an order is the millisecond and its nonce the second of the first reading
/// of the clock, and it expires an hour after the second reading. There are no such numbers
/// exactly where one of the readings has no date.
pub proof fn law_an_order_is_dated_by_the_clock(
    first: Option<(u64, u32)>,
    second: Option<(u64, u32)>,
)
    ensures
        order_times_of(first, second) is Ok <==> (first matches Some(a) && second matches Some(b)
            && a.0 <= 8_210_266_876_799 && b.0 <= 8_210_266_876_799),
        order_times_of(first, second) matches Ok(times) ==> (first matches Some(a)
            && second matches Some(b) && {
            &&& times.nonce == a.0
            &&& times.id_millis == a.0 * 1000 + a.1 / 1_000_000
            &&& times.expiry_epoch_millis == b.0 * 1000 + b.1 / 1_000_000 + 3600 * 1000
        }),
        order_times_of(first, second) matches Err(fault) ==> fault == ClockFault::BeforeEpoch || fault
            == ClockFault::BeyondDates,
        first is None ==> order_times_of(first, second) == Err::<OrderTimes, ClockFault>(
            ClockFault::BeforeEpoch,
        ),
        first matches Some(a) ==> {
            &&& a.0 > 8_210_266_876_799 ==> order_times_of(first, second) == Err::<
                OrderTimes,
                ClockFault,
            >(ClockFault::BeyondDates)
            &&& a.0 <= 8_210_266_876_799 ==> match second {
                None => order_times_of(first, second) == Err::<OrderTimes, ClockFault>(
                    ClockFault::BeforeEpoch,
                ),
                Some(b) => b.0 > 8_210_266_876_799 ==> order_times_of(first, second) == Err::<
                    OrderTimes,
                    ClockFault,
                >(ClockFault::BeyondDates),
            }
        },
{
}

/// A sign request and an order say the same: size, price, side, nonce, expiry and key.
pub open spec fn same_terms(request: SignRequest, order: OrderRequest) -> bool {
    &&& request.quantity_text == order.qty
    &&& request.price_text == order.price
    &&& request.side == order.side
    &&& order.nonce@ == decimal(request.nonce as nat)
    &&& request.expiry_epoch_millis == order.expiry_epoch_millis
    &&& request.public_key == order.stark_key
}

proof fn lemma_signed_before(client: RestClientView, task: OrderTask, moves: Seq<OrderMove>, k: int)
    requires
        is_placing(client, task, moves),
        0 <= k < moves.len(),
        moves[k].stage is AwaitSignature,
    ensures
        exists|i: int|
            0 <= i < k && ((#[trigger] moves[i]).action matches OrderAction::Sign(request) && {
                let draft = moves[k].stage->AwaitSignature_0;
                let kept = moves[k].stage->AwaitSignature_1;
                &&& request.quantity_text == draft.quantity_text
                &&& request.price_text == draft.price_text
                &&& request.side == task.side
                &&& request.nonce == kept.nonce
                &&& request.expiry_epoch_millis == kept.expiry_epoch_millis
                &&& request.public_key == task.stark_public_key
            }),
    decreases k,
{
    let m = moves[k - 1];
    assert(order_follows(client, task, m.stage, m.event, m.times, m.next, m.action));
    assert(m.next == moves[k].stage);
    if m.stage is AwaitSignature {
        lemma_signed_before(client, task, moves, k - 1);
    } else {
        assert(m.action is Sign);
    }
}

/// What is sent to the venue is what was signed before.
pub proof fn law_what_is_sent_is_what_was_signed(
    client: RestClientView,
    task: OrderTask,
    moves: Seq<OrderMove>,
    k: int,
)
    requires
        is_placing(client, task, moves),
        0 <= k < moves.len(),
        moves[k].action is Submit,
    ensures
        exists|i: int|
            0 <= i < k && ((#[trigger] moves[i]).action matches OrderAction::Sign(request)
                && same_terms(request, moves[k].action->order)),
{
    let m = moves[k];
    assert(order_follows(client, task, m.stage, m.event, m.times, m.next, m.action));
    lemma_signed_before(client, task, moves, k);
    let draft = m.stage->AwaitSignature_0;
    let kept = m.stage->AwaitSignature_1;
    let i = choose|i: int|
        0 <= i < k && ((#[trigger] moves[i]).action matches OrderAction::Sign(request) && {
            &&& request.quantity_text == draft.quantity_text
            &&& request.price_text == draft.price_text
            &&& request.side == task.side
            &&& request.nonce == kept.nonce
            &&& request.expiry_epoch_millis == kept.expiry_epoch_millis
            &&& request.public_key == task.stark_public_key
        });
    assert(same_terms(moves[i].action->Sign_0, m.action->order));
}

/// A position is closed by an order on the other side: a long one is sold and a short one is
/// bought back.
pub proof fn law_a_position_is_closed_on_the_other_side(side: PositionSide)
    ensures
        closing_side(side) is Sell <==> side is Long,
        closing_side(side) is Buy <==> side is Short,
{
}

/// The placing is given up where a side of the book is empty, a best price cannot be read, the
/// size comes to nothing or cannot be worked out, or the client has no key; the error says which.
pub proof fn law_why_an_order_is_given_up(
    client: RestClientView,
    task: OrderTask,
    stage: OrderStage,
    event: OrderEvent,
    times: Result<OrderTimes, ClockFault>,
    next: OrderStage,
    action: OrderAction,
)
    requires
        order_follows(client, task, stage, event, times, next, action),
    ensures
        match (stage, event) {
            (OrderStage::AwaitBook(_), OrderEvent::Book(Ok(book))) => book.bid@.len() == 0
                || book.ask@.len() == 0 ==> (action matches OrderAction::Finish(
                Err(ConnectorError::ApiError(text)),
            ) && text@ == "Orderbook has no bids or asks"@),
            (OrderStage::AwaitPrices(_), OrderEvent::Prices { bid: None, .. }) => action
                matches OrderAction::Finish(Err(ConnectorError::Other(text))) && text@
                == "Failed to parse best bid price"@,
            (OrderStage::AwaitPrices(_), OrderEvent::Prices { bid: Some(_), ask: None }) => action
                matches OrderAction::Finish(Err(ConnectorError::Other(text))) && text@
                == "Failed to parse best ask price"@,
            (OrderStage::AwaitSizing(_), OrderEvent::Sized(Err(SizingFault::MinSize(reason)))) => action
                matches OrderAction::Finish(Err(ConnectorError::Other(text))) && text@
                == "Failed to parse minOrderSize: "@ + reason@,
            (OrderStage::AwaitSizing(_), OrderEvent::Sized(Err(SizingFault::Increment(reason)))) => action
                matches OrderAction::Finish(Err(ConnectorError::Other(text))) && text@
                == "Failed to parse minOrderSizeChange: "@ + reason@,
            (OrderStage::AwaitSizing(_), OrderEvent::Sized(Ok(sizing))) => action is Format || (
            action matches OrderAction::Finish(Err(ConnectorError::Other(text))) && begins_with(
                text@,
                "Refusing to submit a zero-size order for "@ + task.market@ + " (raw="@
                    + sizing.raw_text@ + ", increment="@ + sizing.increment_text@
                    + ", reduce_only="@ + (if task.reduce_only {
                    "true"@
                } else {
                    "false"@
                }),
            )),
            (OrderStage::AwaitSignature(_, _), OrderEvent::Signed(Ok(_))) => client.api_key is None
                ==> (action matches OrderAction::Finish(Err(ConnectorError::ApiError(text)))
                && text@ == "API key required for order placement"@),
            _ => true,
        },
{
    if let (OrderStage::AwaitSizing(_), OrderEvent::Sized(Ok(sizing))) = (stage, event) {
        let front = "Refusing to submit a zero-size order for "@ + task.market@ + " (raw="@
            + sizing.raw_text@ + ", increment="@ + sizing.increment_text@ + ", reduce_only="@ + (
        if task.reduce_only {
            "true"@
        } else {
            "false"@
        });
        let whole = zero_size_text(
            task.market@,
            sizing.raw_text@,
            sizing.increment_text@,
            task.reduce_only,
        );
        assert(whole.subrange(0, front.len() as int) =~= front);
    }
}

/// A reply to an order that is no success is told with its status and its text, one that cannot
/// be read with the reason and its text, and one without data with the error that it names.
pub proof fn law_how_a_refused_order_is_told(reply: OrderReply, r: Result<OrderResponse, ConnectorError>)
    requires
        is_order_result(reply, r),
    ensures
        r is Ok <==> 200 <= reply.status@ < 300 && (reply.parsed matches Ok(response)
            && response.data is Some),
        !(200 <= reply.status@ < 300) ==> (r matches Err(ConnectorError::ApiError(text)) && text@
            == "HTTP "@ + crate::http::status_line(reply.status@) + ": "@ + reply.text@),
        200 <= reply.status@ < 300 ==> match reply.parsed {
            Err(reason) => r matches Err(ConnectorError::Other(text)) && text@
                == "Failed to parse order response: "@ + reason@ + ". Response: "@ + reply.text@,
            Ok(response) => response.data is None ==> (r matches Err(ConnectorError::ApiError(text))
                && match response.error {
                Some(named) => text@ == named.code@ + ": "@ + named.message@,
                None => text@ == "Unknown error"@,
            }),
        },
{
}

/// An order is signed for the test network exactly where the service is one of it.
pub proof fn law_networks_sign_under_their_names(client: RestClientView)
    ensures
        chain_of(client).name() == (if occurs_in(client.base_url, "sepolia"@) {
            "SN_SEPOLIA"@
        } else {
            "SN_MAIN"@
        }),
{
}

} // verus!
