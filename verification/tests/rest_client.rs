use extended_connector::amount::Amount;
use extended_connector::http::{HttpMethod, HttpStatus};
use extended_connector::rest::{
    collect_funding_rates, collect_results, data_of, exchange, funding_rate_at,
    funding_rate_exchange, funding_rate_exchange_at, leverage_after, market_config_for, refused, ExchangeAction,
    ExchangeEvent, ExchangeStage, Rate, RestClient, StatsAction, StatsEvent, TaskOutcome,
    REQUEST_TIMEOUT_SECS,
};
use extended_connector::state::ClockFault;
use extended_connector::types::{
    ApiErrorInfo, ApiResponse, BidAsk, ConnectorError, FundingRateInfo, L2Config, LeverageData,
    MarketConfig, MarketInfo, OrderBook, PriceLevel, TradingConfig,
};

fn amount(x: f64) -> Amount {
    Amount { bits: x.to_bits() }
}

fn status(code: u16) -> HttpStatus {
    HttpStatus::from_code(code).unwrap()
}

fn level(price: &str) -> PriceLevel {
    PriceLevel { qty: "1".to_string(), price: price.to_string() }
}

fn book(market: &str) -> OrderBook {
    OrderBook {
        market: market.to_string(),
        bid: vec![level("99.5"), level("99.0")],
        ask: vec![level("100.5")],
    }
}

/// Runs an exchange whose reply has this status and this body.
fn reply<T>(code: u16, body: Result<ApiResponse<T>, ConnectorError>, text: Option<String>) -> Result<T, ConnectorError> {
    let (stage, action) = exchange(ExchangeStage::AwaitStatus, ExchangeEvent::<T>::Sent(Ok(status(code))));
    let event = match action {
        ExchangeAction::ReadJson => ExchangeEvent::Json(body),
        ExchangeAction::ReadErrorText => ExchangeEvent::ErrorText(text),
        _ => panic!("the body must be read"),
    };
    match exchange(stage, event) {
        (ExchangeStage::Finished, ExchangeAction::Finish(result)) => result,
        _ => panic!("the exchange must end"),
    }
}

fn api_error<T>(result: Result<T, ConnectorError>) -> String {
    match result {
        Err(ConnectorError::ApiError(text)) => text,
        _ => panic!("an error of the service was expected"),
    }
}

fn config(name: &str) -> MarketConfig {
    MarketConfig {
        name: name.to_string(),
        l2_config: L2Config {
            synthetic_id: "0x1".to_string(),
            collateral_id: "0x2".to_string(),
            synthetic_resolution: 1000,
            collateral_resolution: 1000000,
        },
        trading_config: TradingConfig {
            min_order_size: "0.01".to_string(),
            min_order_size_change: "0.001".to_string(),
            price_precision: 1,
        },
    }
}

#[test]
fn test_get_orderbook() {
    let client = RestClient::new_mainnet(None);
    let request = client.get_orderbook("BTC-USD");
    assert_eq!(
        request.url,
        "https://api.starknet.extended.exchange/api/v1/info/markets/BTC-USD/orderbook"
    );
    let result = reply(200, Ok(ApiResponse { data: Some(book("BTC-USD")), error: None }), None);
    match result {
        Ok(orderbook) => {
            assert_eq!(orderbook.market, "BTC-USD");
            assert!(!orderbook.bid.is_empty(), "Bid should not be empty");
            assert!(!orderbook.ask.is_empty(), "Ask should not be empty");
            println!("Orderbook: {:?}", orderbook);
        }
        Err(e) => panic!("{:?}", e),
    }
}

#[test]
fn test_get_bid_ask() {
    match RestClient::get_bid_ask(Ok(book("BTC-USD"))) {
        Ok(bid_ask) => {
            assert_eq!(bid_ask.market, "BTC-USD");
            assert_eq!(bid_ask.bid.unwrap().price, "99.5");
            assert_eq!(bid_ask.ask.unwrap().price, "100.5");
        }
        Err(e) => panic!("{:?}", e),
    }
}

#[test]
fn test_multiple_markets() {
    let client = RestClient::new_mainnet(None);
    let markets = vec!["BTC-USD".to_string(), "ETH-USD".to_string()];
    let requests = client.get_multiple_bid_asks(&markets);
    assert_eq!(requests.len(), 2);
    for (request, market) in requests.iter().zip(&markets) {
        assert_eq!(request.url, client.get_orderbook(market).url);
    }
    let results = collect_results(vec![
        TaskOutcome::Returned(RestClient::get_bid_ask(Ok(book("BTC-USD")))),
        TaskOutcome::Returned(RestClient::get_bid_ask(Ok(book("ETH-USD")))),
    ]);
    assert_eq!(results.len(), 2);
}

#[test]
fn an_empty_book_has_no_best_offers() {
    let empty = OrderBook { market: "BTC-USD".to_string(), bid: vec![], ask: vec![] };
    let best = BidAsk::from_book(&empty);
    assert!(best.bid.is_none());
    assert!(best.ask.is_none());
    let cause = ConnectorError::Transport("timeout".to_string());
    assert!(matches!(RestClient::get_bid_ask(Err(cause)), Err(ConnectorError::Transport(t)) if t == "timeout"));
}

#[test]
fn public_requests_carry_the_key_where_there_is_one() {
    let with_key = RestClient::new("http://host/v1", Some("key".to_string()));
    let without = RestClient::new("http://host/v1", None);
    let request = with_key.get_all_markets();
    assert_eq!(request.method, HttpMethod::Get);
    assert_eq!(request.url, "http://host/v1/info/markets");
    assert_eq!(request.api_key, Some("key".to_string()));
    assert_eq!(request.json, None);
    assert_eq!(without.get_all_markets().api_key, None);
    assert_eq!(with_key.get_funding_rate("SOL-USD").url, "http://host/v1/info/markets/SOL-USD/stats");
    assert_eq!(with_key.get_funding_rate("SOL-USD").api_key, Some("key".to_string()));
    // The configuration of the markets is asked for without a key.
    assert_eq!(with_key.get_market_config().url, "http://host/v1/info/markets");
    assert_eq!(with_key.get_market_config().api_key, None);
}

#[test]
fn private_requests_are_refused_without_a_key() {
    let client = RestClient::new("http://host/v1", None);
    assert_eq!(api_error(client.get_account_info()), "API key required for account info");
    assert_eq!(api_error(client.get_positions(None)), "API key required for positions");
    assert_eq!(api_error(client.get_balance()), "API key required for balance");
    assert_eq!(
        api_error(client.update_leverage("BTC-USD", "1")),
        "API key required for leverage update"
    );
    assert_eq!(api_error(client.get_fees("BTC-USD")), "API key required for fee info");
}

#[test]
fn private_requests_name_what_they_read() {
    let client = RestClient::new("http://host/v1", Some("key".to_string()));
    assert_eq!(client.get_account_info().unwrap().url, "http://host/v1/user/account/info");
    assert_eq!(client.get_positions(None).unwrap().url, "http://host/v1/user/positions");
    assert_eq!(
        client.get_positions(Some("BTC-USD")).unwrap().url,
        "http://host/v1/user/positions?market=BTC-USD"
    );
    assert_eq!(client.get_balance().unwrap().url, "http://host/v1/user/balance");
    assert_eq!(client.get_fees("BTC-USD").unwrap().url, "http://host/v1/user/fees?market=BTC-USD");
    assert_eq!(client.get_fees("BTC-USD").unwrap().api_key, Some("key".to_string()));
}

#[test]
fn a_leverage_is_sent_as_json() {
    let client = RestClient::new("http://host/v1", Some("key".to_string()));
    let request = client.update_leverage("BTC-USD", "1").unwrap();
    assert_eq!(request.method, HttpMethod::Patch);
    assert_eq!(request.url, "http://host/v1/user/leverage");
    assert_eq!(request.json, Some("{\"leverage\":\"1\",\"market\":\"BTC-USD\"}".to_string()));
    let quoted = client.update_leverage("a\"b", "2").unwrap();
    assert_eq!(quoted.json, Some("{\"leverage\":\"2\",\"market\":\"a\\\"b\"}".to_string()));
}

#[test]
fn the_networks_have_their_hosts() {
    let main = RestClient::new_mainnet(None);
    let test = RestClient::new_testnet(None);
    assert!(!main.is_testnet());
    assert!(test.is_testnet());
    assert_eq!(
        test.get_all_markets().url,
        "https://api.starknet.sepolia.extended.exchange/api/v1/info/markets"
    );
    assert_eq!(test.clone_for_parallel().get_all_markets().url, test.get_all_markets().url);
    assert_eq!(RestClient::user_agent(), "extended-connector/0.1.0");
    assert_eq!(REQUEST_TIMEOUT_SECS, 30);
}

#[test]
fn statuses_are_printed_with_their_reason() {
    assert_eq!(status(404).text(), "404 Not Found");
    assert_eq!(status(200).text(), "200 OK");
    assert_eq!(status(799).text(), "799 <unknown status code>");
    assert!(HttpStatus::from_code(99).is_none());
    assert!(HttpStatus::from_code(1000).is_none());
    assert!(status(299).is_success());
    assert!(!status(300).is_success());
    assert!(!status(199).is_success());
}

#[test]
fn refusals_are_reported_with_their_text() {
    let refusal = reply::<OrderBook>(500, Err(ConnectorError::Other("unused".to_string())), Some("down".to_string()));
    assert_eq!(api_error(refusal), "HTTP 500 Internal Server Error: down");
    let unreadable = reply::<OrderBook>(404, Err(ConnectorError::Other("unused".to_string())), None);
    assert_eq!(api_error(unreadable), "HTTP 404 Not Found: Unknown error");
    assert_eq!(
        api_error::<()>(Err(refused(status(401), Some("who".to_string())))),
        "HTTP 401 Unauthorized: who"
    );
}

#[test]
fn replies_without_data_are_errors() {
    let named: ApiResponse<u8> = ApiResponse {
        data: None,
        error: Some(ApiErrorInfo { code: "1001".to_string(), message: "no such market".to_string() }),
    };
    assert_eq!(api_error(data_of(named)), "1001: no such market");
    let silent: ApiResponse<u8> = ApiResponse { data: None, error: None };
    assert_eq!(api_error(reply(200, Ok(silent), None)), "Unknown error");
    assert_eq!(data_of(ApiResponse { data: Some(7u8), error: None }).unwrap(), 7);
}

#[test]
fn exchanges_that_fail_report_the_cause() {
    let sent: ExchangeEvent<u8> = ExchangeEvent::Sent(Err(ConnectorError::Transport("refused".to_string())));
    match exchange(ExchangeStage::AwaitStatus, sent) {
        (ExchangeStage::Finished, ExchangeAction::Finish(Err(ConnectorError::Transport(t)))) => {
            assert_eq!(t, "refused")
        }
        _ => panic!("the exchange must fail"),
    }
    let malformed = reply::<u8>(200, Err(ConnectorError::Malformed("eof".to_string())), None);
    assert!(matches!(malformed, Err(ConnectorError::Malformed(t)) if t == "eof"));
    // A body that comes before the status changes nothing.
    let early: ExchangeEvent<u8> = ExchangeEvent::ErrorText(None);
    assert!(matches!(
        exchange(ExchangeStage::AwaitStatus, early),
        (ExchangeStage::AwaitStatus, ExchangeAction::Await)
    ));
}

#[test]
fn a_market_is_found_by_its_name() {
    let found = market_config_for(vec![config("ETH-USD"), config("BTC-USD")], "BTC-USD").unwrap();
    assert_eq!(found.name, "BTC-USD");
    match market_config_for(vec![config("ETH-USD")], "BTC-USD") {
        Err(ConnectorError::InvalidMarket(text)) => assert_eq!(text, "Market BTC-USD not found"),
        _ => panic!("there is no such market"),
    }
}

#[test]
fn a_bare_confirmation_keeps_the_requested_leverage() {
    let bare = leverage_after(
        "1",
        "{\"status\":\"OK\"}",
        Err(ConnectorError::Malformed("unused".to_string())),
    );
    assert_eq!(bare.unwrap(), "1");
    let parsed = ApiResponse {
        data: Some(LeverageData { market: "BTC-USD".to_string(), leverage: "3".to_string() }),
        error: None,
    };
    assert_eq!(leverage_after("1", "{}", Ok(parsed)).unwrap(), "3");
    let empty = || ApiResponse { data: None, error: None };
    assert_eq!(leverage_after("1", "{\"status\":\"OK\"}", Ok(empty())).unwrap(), "1");
    assert_eq!(api_error(leverage_after("1", "{}", Ok(empty()))), "Unknown error");
    let broken = leverage_after("1", "", Err(ConnectorError::Malformed("eof".to_string())));
    assert!(matches!(broken, Err(ConnectorError::Malformed(_))));
}

#[test]
fn a_reported_leverage_goes_before_the_requested_one() {
    let reply = "{\"status\":\"OK\",\"data\":{\"market\":\"BTC-USD\",\"leverage\":\"5\"}}";
    let parsed = ApiResponse {
        data: Some(LeverageData { market: "BTC-USD".to_string(), leverage: "5".to_string() }),
        error: None,
    };
    assert_eq!(leverage_after("10", reply, Ok(parsed)).unwrap(), "5");
}

#[test]
fn a_rate_without_a_time_is_a_clock_fault() {
    let rate = || StatsEvent::Stats(Ok(Some(Rate { rate: amount(0.5), percentage: amount(50.0) })));
    let at = |reading| funding_rate_exchange_at("BTC-USD", ExchangeStage::AwaitJson, rate(), reading);
    match at(Some((1700000000, 123_999_999))).1 {
        StatsAction::Finish(Ok(Some(info))) => assert_eq!(info.timestamp, 1700000000123),
        _ => panic!("a rate was expected"),
    }
    assert!(matches!(at(None).1, StatsAction::ClockFault(ClockFault::BeforeEpoch)));
    let late = Some((8_210_266_876_800, 0));
    assert!(matches!(at(late).1, StatsAction::ClockFault(ClockFault::BeyondDates)));
}

#[test]
fn funding_rates_are_asked_of_active_markets() {
    let client = RestClient::new("http://host/v1", None);
    let market = |name: &str, active: bool, status: &str| MarketInfo {
        name: name.to_string(),
        active,
        status: status.to_string(),
    };
    let requests = client.get_all_funding_rates(&vec![
        market("A-USD", true, "ACTIVE"),
        market("B-USD", false, "ACTIVE"),
        market("C-USD", true, "DELISTED"),
        market("D-USD", true, "ACTIVE"),
    ]);
    let names: Vec<&str> = requests.iter().map(|r| r.0.as_str()).collect();
    assert_eq!(names, ["A-USD", "D-USD"]);
    assert_eq!(requests[1].1.url, "http://host/v1/info/markets/D-USD/stats");
}

#[test]
fn a_funding_rate_is_stamped_with_the_time() {
    let rate = Rate { rate: amount(-0.0001), percentage: amount(-0.01) };
    let info = funding_rate_at("BTC-USD", rate, 1700000000123);
    assert_eq!(info.market, "BTC-USD");
    assert_eq!(info.rate, amount(-0.0001));
    assert_eq!(info.rate_percentage, amount(-0.01));
    assert_eq!(info.timestamp, 1700000000123);
    assert!(!info.is_positive);
    let (stage, action) = funding_rate_exchange(
        "BTC-USD",
        ExchangeStage::AwaitStatus,
        StatsEvent::Sent(Ok(status(200))),
    );
    assert!(matches!(action, StatsAction::ReadStats));
    let zero = Rate { rate: amount(0.0), percentage: amount(0.0) };
    match funding_rate_exchange("BTC-USD", stage, StatsEvent::Stats(Ok(Some(zero)))) {
        (ExchangeStage::Finished, StatsAction::Finish(Ok(Some(info)))) => {
            assert!(info.is_positive);
            // The clock of a machine that runs this stands after 2023.
            assert!(info.timestamp > 1_700_000_000_000);
        }
        _ => panic!("a rate was expected"),
    }
}

#[test]
fn a_refused_funding_rate_is_no_rate() {
    let (stage, action) = funding_rate_exchange(
        "X-USD",
        ExchangeStage::AwaitStatus,
        StatsEvent::Sent(Ok(status(404))),
    );
    assert!(matches!(action, StatsAction::ReadErrorText));
    assert!(matches!(
        funding_rate_exchange("X-USD", stage, StatsEvent::ErrorText),
        (ExchangeStage::Finished, StatsAction::Finish(Ok(None)))
    ));
    assert!(matches!(
        funding_rate_exchange("X-USD", ExchangeStage::AwaitJson, StatsEvent::Stats(Ok(None))),
        (ExchangeStage::Finished, StatsAction::Finish(Ok(None)))
    ));
    let cause = ConnectorError::Malformed("eof".to_string());
    assert!(matches!(
        funding_rate_exchange("X-USD", ExchangeStage::AwaitJson, StatsEvent::Stats(Err(cause))),
        (ExchangeStage::Finished, StatsAction::Finish(Err(ConnectorError::Malformed(_))))
    ));
}

#[test]
fn lost_tasks_leave_an_error_or_nothing() {
    let results = collect_results(vec![
        TaskOutcome::Returned(Ok(1u8)),
        TaskOutcome::Lost("task 2 panicked".to_string()),
        TaskOutcome::Returned(Ok(3u8)),
    ]);
    assert!(matches!(results[0], Ok(1)));
    assert!(matches!(&results[1], Err(ConnectorError::Other(t)) if t == "Task join error: task 2 panicked"));
    assert!(matches!(results[2], Ok(3)));
    let info = |market: &str| -> FundingRateInfo {
        funding_rate_at(market, Rate { rate: amount(1.0), percentage: amount(100.0) }, 5)
    };
    let rates = collect_funding_rates(vec![
        TaskOutcome::Returned(Ok(Some(info("A")))),
        TaskOutcome::Returned(Ok(None)),
        TaskOutcome::Lost("gone".to_string()),
        TaskOutcome::Returned(Err(ConnectorError::Other("x".to_string()))),
        TaskOutcome::Returned(Ok(Some(info("B")))),
    ]);
    let names: Vec<&str> = rates.iter().map(|r| r.market.as_str()).collect();
    assert_eq!(names, ["A", "B"]);
}
