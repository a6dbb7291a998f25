use extended_connector::amount::Amount;
use extended_connector::http::HttpStatus;
use extended_connector::order::{
    order_result, order_times, order_times_given, BookSide, ChainId, OrderAction, OrderDraft, OrderEvent, OrderReply,
    OrderRequest, OrderResponse, OrderStage, OrderTask, OrderType, QuantitySource, Rounding,
    SignRequest, Signature, SignedOrder, Sizing, SizingFault, TimeInForce,
    DEFAULT_TAKER_FEE_BITS, ORDER_LIFE_MILLIS,
};
use extended_connector::rest::RestClient;
use extended_connector::state::ClockFault;
use extended_connector::types::{
    ApiResponse, ConnectorError, L2Config, MarketConfig, OrderBook, OrderSide, Position,
    PositionSide, PriceLevel, TradingConfig,
};

fn amount(x: f64) -> Amount {
    Amount { bits: x.to_bits() }
}

fn config() -> MarketConfig {
    MarketConfig {
        name: "SOL-USD".to_string(),
        l2_config: L2Config {
            synthetic_id: "0xaa".to_string(),
            collateral_id: "0xbb".to_string(),
            synthetic_resolution: 1000,
            collateral_resolution: 1000000,
        },
        trading_config: TradingConfig {
            min_order_size: "0.1".to_string(),
            min_order_size_change: "0.01".to_string(),
            price_precision: 2,
        },
    }
}

fn book() -> OrderBook {
    let level = |price: &str| PriceLevel { qty: "5".to_string(), price: price.to_string() };
    OrderBook {
        market: "SOL-USD".to_string(),
        bid: vec![level("149.9"), level("149.8")],
        ask: vec![level("150.1")],
    }
}

fn task(side: OrderSide, reduce_only: bool, size: Option<f64>) -> OrderTask {
    OrderTask {
        market: "SOL-USD".to_string(),
        side,
        notional_usd: amount(15.0),
        reduce_only,
        max_base_size: size.map(amount),
        stark_public_key: "0xkey".to_string(),
        vault_id: "42".to_string(),
    }
}

fn sizing(rounded: f64) -> Sizing {
    Sizing {
        price: amount(151.23),
        raw_text: "0.004".to_string(),
        rounded: amount(rounded),
        min_size: amount(0.1),
        increment: amount(0.01),
        increment_text: "0.01".to_string(),
    }
}

fn client(key: Option<&str>) -> RestClient {
    RestClient::new("http://host/v1", key.map(|k| k.to_string()))
}

fn failure(outcome: (OrderStage, OrderAction)) -> ConnectorError {
    match outcome {
        (OrderStage::Finished, OrderAction::Finish(Err(e))) => e,
        _ => panic!("a failure was expected"),
    }
}

fn other(error: ConnectorError) -> String {
    match error {
        ConnectorError::Other(text) => text,
        e => panic!("{:?}", e),
    }
}

fn api(error: ConnectorError) -> String {
    match error {
        ConnectorError::ApiError(text) => text,
        e => panic!("{:?}", e),
    }
}

/// Takes an order as far as its signature.
fn up_to_signature(
    client: &RestClient,
    task: &OrderTask,
    rounded: f64,
    fee: Option<f64>,
) -> (OrderStage, SignRequest) {
    let (stage, action) = client.place_market_order(task, OrderStage::Start, OrderEvent::Begin);
    assert!(matches!(action, OrderAction::FetchConfig));
    let (stage, action) = client.place_market_order(task, stage, OrderEvent::Config(Ok(config())));
    assert!(matches!(action, OrderAction::FetchBook));
    let (stage, action) = client.place_market_order(task, stage, OrderEvent::Book(Ok(book())));
    assert!(matches!(action, OrderAction::ReadPrices { bid, ask } if bid == "149.9" && ask == "150.1"));
    let prices = OrderEvent::Prices { bid: Some(amount(149.9)), ask: Some(amount(150.1)) };
    let (stage, action) = client.place_market_order(task, stage, prices);
    match action {
        OrderAction::Size { min_size_text, increment_text, .. } => {
            assert_eq!(min_size_text, "0.1");
            assert_eq!(increment_text, "0.01");
        }
        _ => panic!("a size must be worked out"),
    }
    let (stage, action) = client.place_market_order(task, stage, OrderEvent::Sized(Ok(sizing(rounded))));
    match action {
        OrderAction::Format { whole_units, price, price_precision, .. } => {
            assert!(!whole_units);
            assert_eq!(price, amount(151.23));
            assert_eq!(price_precision, 2);
        }
        _ => panic!("the numbers must be printed"),
    }
    let formatted = OrderEvent::Formatted {
        quantity_text: "0.25".to_string(),
        price_text: "151.23".to_string(),
    };
    let (stage, action) = client.place_market_order(task, stage, formatted);
    assert!(matches!(action, OrderAction::FetchFees));
    let (stage, action) = client.place_market_order(task, stage, OrderEvent::Fees(Ok(fee.map(amount))));
    match action {
        OrderAction::Sign(request) => (stage, request),
        _ => panic!("the order must be signed"),
    }
}

fn signed() -> OrderEvent {
    OrderEvent::Signed(Ok(SignedOrder {
        signature: Signature { r: "0x1".to_string(), s: "0x2".to_string() },
        fee_text: "0.000250".to_string(),
    }))
}

fn submitted(client: &RestClient, task: &OrderTask) -> (SignRequest, OrderRequest) {
    let (stage, request) = up_to_signature(client, task, 0.25, Some(0.00025));
    match client.place_market_order(task, stage, signed()) {
        (OrderStage::AwaitReply, OrderAction::Submit { url, api_key, order }) => {
            assert_eq!(url, "http://host/v1/user/order");
            assert_eq!(api_key, "key");
            (request, order)
        }
        _ => panic!("the order must be sent"),
    }
}

#[test]
fn a_buyer_pays_more_than_the_ask_and_a_seller_takes_less_than_the_bid() {
    let buy = task(OrderSide::Buy, false, None).rule(2, amount(10.0), amount(11.0));
    assert_eq!(buy.book_side, BookSide::Ask);
    assert_eq!(buy.best_price, amount(11.0));
    assert_eq!(buy.factor, 10075);
    assert_eq!(buy.source, QuantitySource::Notional(amount(15.0)));
    assert_eq!(buy.rounding, Rounding::Nearest);
    assert_eq!(buy.price_precision, 2);
    let sell = task(OrderSide::Sell, true, Some(0.5)).rule(2, amount(10.0), amount(11.0));
    assert_eq!(sell.book_side, BookSide::Bid);
    assert_eq!(sell.best_price, amount(10.0));
    assert_eq!(sell.factor, 9925);
    assert_eq!(sell.source, QuantitySource::Base(amount(0.5)));
    assert_eq!(sell.rounding, Rounding::Down);
}

#[test]
fn an_order_is_sent_as_it_was_signed() {
    let (request, order) = submitted(&client(Some("key")), &task(OrderSide::Buy, false, None));
    assert_eq!(request.synthetic_id, "0xaa");
    assert_eq!(request.collateral_id, "0xbb");
    assert_eq!(request.synthetic_resolution, 1000);
    assert_eq!(request.collateral_resolution, 1000000);
    assert_eq!(request.side, OrderSide::Buy);
    assert_eq!(request.quantity_text, order.qty);
    assert_eq!(request.price_text, order.price);
    assert_eq!(request.fee_rate, amount(0.00025));
    assert_eq!(request.vault, 42);
    assert_eq!(request.nonce.to_string(), order.nonce);
    assert_eq!(request.expiry_epoch_millis, order.expiry_epoch_millis);
    assert_eq!(request.public_key, "0xkey");
    assert_eq!(request.chain, ChainId::SnMain);
    assert_eq!(order.market, "SOL-USD");
    assert_eq!(order.order_type, OrderType::Limit);
    assert_eq!(order.time_in_force, TimeInForce::ImmediateOrCancel);
    assert_eq!(order.qty, "0.25");
    assert_eq!(order.price, "151.23");
    assert_eq!(order.fee, "0.000250");
    assert_eq!(order.signature.r, "0x1");
    assert_eq!(order.stark_key, "0xkey");
    assert_eq!(order.collateral_position, "42");
    assert_eq!(order.self_trade_protection_level, "ACCOUNT");
    assert!(!order.reduce_only);
    assert!(!order.post_only);
    let millis: u64 = order.id.strip_prefix("rust-").unwrap().parse().unwrap();
    assert_eq!(millis / 1000, request.nonce);
    let life = order.expiry_epoch_millis - millis;
    assert!((3_600_000..3_610_000).contains(&life));
}

#[test]
fn the_times_of_an_order_come_from_the_clock() {
    let times = order_times(1700000000, 1700000000123, 1700000000456);
    assert_eq!(times.id_millis, 1700000000123);
    assert_eq!(times.nonce, 1700000000);
    assert_eq!(times.expiry_epoch_millis, 1700003600456);
    assert_eq!(ORDER_LIFE_MILLIS, 3600 * 1000);
}

#[test]
fn an_order_is_dated_by_two_readings() {
    let times = order_times_given(Some((1700000000, 5_000_000)), Some((1700000001, 0))).unwrap();
    assert_eq!(times.id_millis, 1700000000005);
    assert_eq!(times.nonce, 1700000000);
    assert_eq!(times.expiry_epoch_millis, 1700003601000);
    assert_eq!(order_times_given(None, Some((1, 0))), Err(ClockFault::BeforeEpoch));
    assert_eq!(order_times_given(Some((1, 0)), None), Err(ClockFault::BeforeEpoch));
    assert_eq!(order_times_given(Some((u64::MAX, 0)), None), Err(ClockFault::BeyondDates));
}

#[test]
fn an_order_that_cannot_be_dated_is_not_signed() {
    let order = task(OrderSide::Buy, false, None);
    let draft = OrderDraft {
        config: config(),
        quantity: amount(1.0),
        quantity_text: "1".to_string(),
        price_text: "2".to_string(),
    };
    let outcome = client(Some("key")).place_market_order_at(
        &order,
        OrderStage::AwaitFees(draft),
        OrderEvent::Fees(Ok(None)),
        Err(ClockFault::BeforeEpoch),
    );
    assert!(matches!(
        outcome,
        (OrderStage::Finished, OrderAction::ClockFault(ClockFault::BeforeEpoch))
    ));
}

#[test]
fn a_reducing_size_shows_all_places_of_the_increment() {
    let places = |reduce_only: bool| {
        let order = task(OrderSide::Sell, reduce_only, Some(0.75));
        let mut sized = sizing(0.75);
        sized.increment = amount(0.25);
        sized.increment_text = "0.25".to_string();
        match client(None).place_market_order(&order, OrderStage::AwaitSizing(config()), OrderEvent::Sized(Ok(sized))) {
            (_, OrderAction::Format { least_places, .. }) => least_places,
            _ => panic!("the numbers must be printed"),
        }
    };
    assert_eq!(places(true), 2);
    assert_eq!(places(false), 0);
}

#[test]
fn the_test_network_signs_under_its_own_name() {
    let test = RestClient::new_testnet(Some("key".to_string()));
    let (_, request) = up_to_signature(&test, &task(OrderSide::Sell, false, None), 0.25, None);
    assert_eq!(request.chain, ChainId::SnSepolia);
    assert_eq!(request.chain.text(), "SN_SEPOLIA");
    assert_eq!(ChainId::SnMain.text(), "SN_MAIN");
}

#[test]
fn an_unreadable_fee_is_taken_for_the_default() {
    let (_, request) = up_to_signature(&client(None), &task(OrderSide::Buy, false, None), 0.25, None);
    assert_eq!(request.fee_rate, amount(0.0006));
    assert_eq!(DEFAULT_TAKER_FEE_BITS, 0.0006f64.to_bits());
}

#[test]
fn a_vault_that_is_no_number_is_signed_as_zero() {
    let mut odd = task(OrderSide::Buy, false, None);
    odd.vault_id = "vault".to_string();
    let (_, request) = up_to_signature(&client(None), &odd, 0.25, None);
    assert_eq!(request.vault, 0);
}

#[test]
fn an_order_without_a_key_is_signed_and_not_sent() {
    let keyless = client(None);
    let order = task(OrderSide::Buy, false, None);
    let (stage, _) = up_to_signature(&keyless, &order, 0.25, None);
    let refusal = failure(keyless.place_market_order(&order, stage, signed()));
    assert_eq!(api(refusal), "API key required for order placement");
}

#[test]
fn the_minimum_size_is_enforced_on_openings_only() {
    let at = client(None);
    let format = |reduce_only: bool| {
        let order = task(OrderSide::Buy, reduce_only, Some(0.05));
        match at.place_market_order(&order, OrderStage::AwaitSizing(config()), OrderEvent::Sized(Ok(sizing(0.05)))) {
            (_, OrderAction::Format { quantity, .. }) => quantity,
            _ => panic!("the numbers must be printed"),
        }
    };
    assert_eq!(format(false), amount(0.1));
    assert_eq!(format(true), amount(0.05));
}

#[test]
fn an_increment_of_one_asks_for_whole_units() {
    let order = task(OrderSide::Buy, false, None);
    let mut sized = sizing(3.0);
    sized.increment = amount(1.0);
    match client(None).place_market_order(&order, OrderStage::AwaitSizing(config()), OrderEvent::Sized(Ok(sized))) {
        (_, OrderAction::Format { whole_units, .. }) => assert!(whole_units),
        _ => panic!("the numbers must be printed"),
    }
}

#[test]
fn dust_is_refused_before_it_is_signed() {
    let order = task(OrderSide::Sell, true, Some(0.004));
    let refusal = failure(client(None).place_market_order(
        &order,
        OrderStage::AwaitSizing(config()),
        OrderEvent::Sized(Ok(sizing(0.0))),
    ));
    assert_eq!(
        other(refusal),
        "Refusing to submit a zero-size order for SOL-USD (raw=0.004, increment=0.01, \
         reduce_only=true). The remaining position is smaller than one size increment; it must be \
         closed manually or left as dust."
    );
    let strange = failure(client(None).place_market_order(
        &order,
        OrderStage::AwaitSizing(config()),
        OrderEvent::Sized(Ok(sizing(f64::NAN))),
    ));
    assert!(other(strange).starts_with("Refusing to submit a zero-size order"));
}

#[test]
fn each_fault_on_the_way_is_reported() {
    let at = client(None);
    let order = task(OrderSide::Buy, false, None);
    let cause = || ConnectorError::Transport("down".to_string());
    let mut empty = book();
    empty.ask.clear();
    assert_eq!(
        api(failure(at.place_market_order(&order, OrderStage::AwaitBook(config()), OrderEvent::Book(Ok(empty))))),
        "Orderbook has no bids or asks"
    );
    let no_bid = OrderEvent::Prices { bid: None, ask: None };
    assert_eq!(
        other(failure(at.place_market_order(&order, OrderStage::AwaitPrices(config()), no_bid))),
        "Failed to parse best bid price"
    );
    let no_ask = OrderEvent::Prices { bid: Some(amount(1.0)), ask: None };
    assert_eq!(
        other(failure(at.place_market_order(&order, OrderStage::AwaitPrices(config()), no_ask))),
        "Failed to parse best ask price"
    );
    let min = OrderEvent::Sized(Err(SizingFault::MinSize("invalid float literal".to_string())));
    assert_eq!(
        other(failure(at.place_market_order(&order, OrderStage::AwaitSizing(config()), min))),
        "Failed to parse minOrderSize: invalid float literal"
    );
    let step = OrderEvent::Sized(Err(SizingFault::Increment("invalid float literal".to_string())));
    assert_eq!(
        other(failure(at.place_market_order(&order, OrderStage::AwaitSizing(config()), step))),
        "Failed to parse minOrderSizeChange: invalid float literal"
    );
    for (stage, event) in [
        (OrderStage::AwaitConfig, OrderEvent::Config(Err(cause()))),
        (OrderStage::AwaitBook(config()), OrderEvent::Book(Err(cause()))),
        (OrderStage::AwaitReply, OrderEvent::Replied(Err(cause()))),
    ] {
        let error = failure(at.place_market_order(&order, stage, event));
        assert!(matches!(error, ConnectorError::Transport(t) if t == "down"));
    }
}

#[test]
fn the_reply_to_an_order_is_read() {
    let reply = |code: u16, text: &str, parsed: Result<ApiResponse<OrderResponse>, String>| OrderReply {
        status: HttpStatus::from_code(code).unwrap(),
        text: text.to_string(),
        parsed,
    };
    let taken = OrderResponse { id: "7".to_string(), external_id: "rust-1".to_string() };
    let good = order_result(reply(200, "{}", Ok(ApiResponse { data: Some(taken), error: None })));
    assert_eq!(good.unwrap().external_id, "rust-1");
    let refused = order_result(reply(400, "bad order", Err("unused".to_string())));
    assert_eq!(api(refused.unwrap_err()), "HTTP 400 Bad Request: bad order");
    let odd = order_result(reply(200, "<html>", Err("expected value".to_string())));
    assert_eq!(
        other(odd.unwrap_err()),
        "Failed to parse order response: expected value. Response: <html>"
    );
    let empty = order_result(reply(200, "{}", Ok(ApiResponse { data: None, error: None })));
    assert_eq!(api(empty.unwrap_err()), "Unknown error");
}

#[test]
fn an_order_is_submitted_once() {
    let at = client(Some("key"));
    let order = task(OrderSide::Buy, false, None);
    let (stage, _) = up_to_signature(&at, &order, 0.25, None);
    let (stage, _) = at.place_market_order(&order, stage, signed());
    let (stage, action) = at.place_market_order(&order, stage, signed());
    assert!(matches!(stage, OrderStage::AwaitReply));
    assert!(matches!(action, OrderAction::Await));
}

#[test]
fn a_position_is_closed_on_the_other_side() {
    let position = |side: PositionSide| Position {
        market: "SOL-USD".to_string(),
        side,
        size: amount(0.5),
        value: amount(75.0),
        unrealized_pnl: None,
    };
    let long = RestClient::close_position(&position(PositionSide::Long), "0xkey", "42");
    assert_eq!(long.side, OrderSide::Sell);
    assert_eq!(long.market, "SOL-USD");
    assert_eq!(long.notional_usd, amount(75.0));
    assert_eq!(long.max_base_size, Some(amount(0.5)));
    assert!(long.reduce_only);
    assert_eq!(long.stark_public_key, "0xkey");
    assert_eq!(long.vault_id, "42");
    let short = RestClient::close_position(&position(PositionSide::Short), "0xkey", "42");
    assert_eq!(short.side, OrderSide::Buy);
}
