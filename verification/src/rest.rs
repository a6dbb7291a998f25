//! The REST interface of the Extended venue: what is sent, and what its replies
//! mean.
use crate::amount::Amount;
use crate::clock::{instant_of, is_reading, since_epoch, utc_instant};
use crate::state::ClockFault;
use crate::http::{is_success_code, json_pair, print_json_pair, status_line, text_view, HttpMethod, HttpRequest, HttpRequestView, HttpStatus};
use crate::text::{concat2, concat3, contains_text, occurs_in, same_text};
use crate::types::{first_level, first_where, ApiErrorInfo, ApiResponse, BidAsk, ConnectorError, FundingRateInfo, LeverageData, MarketConfig, MarketInfo, OrderBook};
use vstd::prelude::*;

verus! {

broadcast use vstd::string::group_string_axioms;

/// The seconds after which a request is given up.
pub const REQUEST_TIMEOUT_SECS: u64 = 30;

/// Where the service is and how the account is known there.
pub struct RestClient {
    base_url: String,
    api_key: Option<String>,
}

/// The contents of a client.
pub struct RestClientView {
    pub base_url: Seq<char>,
    pub api_key: Option<Seq<char>>,
}

impl View for RestClient {
    type V = RestClientView;

    closed spec fn view(&self) -> RestClientView {
        RestClientView { base_url: self.base_url@, api_key: text_view(self.api_key) }
    }
}

pub open spec fn mainnet_url() -> Seq<char> {
    "https://api.starknet.extended.exchange/api/v1"@
}

pub open spec fn testnet_url() -> Seq<char> {
    "https://api.starknet.sepolia.extended.exchange/api/v1"@
}

impl RestClientView {
    /// A request to read what is at `path`, with the key where there is one.
    pub open spec fn get(self, path: Seq<char>) -> HttpRequestView {
        HttpRequestView {
            method: HttpMethod::Get,
            url: self.base_url + path,
            api_key: self.api_key,
            json: None,
        }
    }

    /// The same without a key.
    pub open spec fn anonymous_get(self, path: Seq<char>) -> HttpRequestView {
        HttpRequestView { api_key: None, ..self.get(path) }
    }
}

/// `r` is the request where the client has a key, and else the refusal with
/// this text.
pub open spec fn needs_key(
    client: RestClientView,
    refusal: Seq<char>,
    request: HttpRequestView,
    r: Result<HttpRequest, ConnectorError>,
) -> bool {
    match r {
        Ok(sent) => client.api_key is Some && sent@ == request,
        Err(e) => client.api_key is None && e.is_api_error(refusal),
    }
}

impl RestClient {
    /// A client of the main network.
    pub fn new_mainnet(api_key: Option<String>) -> (r: RestClient)
        ensures
            r@ == (RestClientView { base_url: mainnet_url(), api_key: text_view(api_key) }),
    {
        RestClient::new("https://api.starknet.extended.exchange/api/v1", api_key)
    }

    /// A client of the test network.
    pub fn new_testnet(api_key: Option<String>) -> (r: RestClient)
        ensures
            r@ == (RestClientView { base_url: testnet_url(), api_key: text_view(api_key) }),
    {
        RestClient::new("https://api.starknet.sepolia.extended.exchange/api/v1", api_key)
    }

    /// A client of the service at `base_url`.
    pub fn new(base_url: &str, api_key: Option<String>) -> (r: RestClient)
        ensures
            r@ == (RestClientView { base_url: base_url@, api_key: text_view(api_key) }),
    {
        RestClient { base_url: base_url.to_owned(), api_key }
    }

    /// How the connector introduces itself.
    pub fn user_agent() -> (r: &'static str)
        ensures
            r@ == "extended-connector/0.1.0"@,
    {
        "extended-connector/0.1.0"
    }

    /// The same client, for a request beside others.
    pub fn clone_for_parallel(&self) -> (r: RestClient)
        ensures
            r == *self,
    {
        RestClient {
            base_url: self.base_url.clone(),
            api_key: match &self.api_key {
                Some(key) => Some(key.clone()),
                None => None,
            },
        }
    }

    pub(crate) fn url(&self, path: &str) -> (r: String)
        ensures
            r@ == self@.base_url + path@,
    {
        concat2(self.base_url.as_str(), path)
    }

    /// A request to read what is at `path`, with the key where there is one.
    fn public_get(&self, path: &str) -> (r: HttpRequest)
        ensures
            r@ == self@.get(path@),
    {
        HttpRequest {
            method: HttpMethod::Get,
            url: self.url(path),
            api_key: match &self.api_key {
                Some(key) => Some(key.clone()),
                None => None,
            },
            json: None,
        }
    }

    /// The key, or the refusal with this text where there is none.
    pub(crate) fn key_or(&self, refusal: &str) -> (r: Result<String, ConnectorError>)
        ensures
            match r {
                Ok(key) => self@.api_key == Some(key@),
                Err(e) => self@.api_key is None && e.is_api_error(refusal@),
            },
    {
        match &self.api_key {
            Some(key) => Ok(key.clone()),
            None => Err(ConnectorError::ApiError(refusal.to_owned())),
        }
    }

    /// A request to read what is at `path`, which only an account can make.
    fn private_get(&self, path: &str, refusal: &str) -> (r: Result<HttpRequest, ConnectorError>)
        ensures
            needs_key(self@, refusal@, self@.get(path@), r),
    {
        match self.key_or(refusal) {
            Ok(_) => Ok(self.public_get(path)),
            Err(e) => Err(e),
        }
    }

    /// Whether the service is one of the test network.
    pub fn is_testnet(&self) -> (r: bool)
        ensures
            r == occurs_in(self@.base_url, "sepolia"@),
    {
        contains_text(self.base_url.as_str(), "sepolia")
    }

    /// Asks for the order book of a market.
    pub fn get_orderbook(&self, market: &str) -> (r: HttpRequest)
        ensures
            r@ == self@.get("/info/markets/"@ + market@ + "/orderbook"@),
    {
        let path: String = concat3("/info/markets/", market, "/orderbook");
        self.public_get(path.as_str())
    }

    /// The best offers, given what came of asking for the order book.
    pub fn get_bid_ask(book: Result<OrderBook, ConnectorError>) -> (r: Result<BidAsk, ConnectorError>)
        ensures
            match book {
                Ok(b) => r matches Ok(best) && best.market == b.market && best.bid == first_level(
                    b.bid@,
                ) && best.ask == first_level(b.ask@),
                Err(e) => r == Err::<BidAsk, ConnectorError>(e),
            },
    {
        match book {
            Ok(b) => Ok(BidAsk::from_book(&b)),
            Err(e) => Err(e),
        }
    }

    /// Asks for the order books of several markets, one request for each.
    pub fn get_multiple_bid_asks(&self, markets: &Vec<String>) -> (r: Vec<HttpRequest>)
        ensures
            r@.len() == markets@.len(),
            forall|i: int|
                0 <= i < markets@.len() ==> (#[trigger] r@[i])@ == self@.get(
                    "/info/markets/"@ + markets@[i]@ + "/orderbook"@,
                ),
    {
        let mut requests: Vec<HttpRequest> = Vec::new();
        let mut i: usize = 0;
        while i < markets.len()
            invariant
                i <= markets.len(),
                requests@.len() == i,
                forall|j: int|
                    0 <= j < i ==> (#[trigger] requests@[j])@ == self@.get(
                        "/info/markets/"@ + markets@[j]@ + "/orderbook"@,
                    ),
            decreases markets.len() - i,
        {
            requests.push(self.get_orderbook(markets[i].as_str()));
            i = i + 1;
        }
        requests
    }

    /// Asks for all markets.
    pub fn get_all_markets(&self) -> (r: HttpRequest)
        ensures
            r@ == self@.get("/info/markets"@),
    {
        self.public_get("/info/markets")
    }

    /// Asks for the statistics of a market, which hold its funding rate.
    pub fn get_funding_rate(&self, market: &str) -> (r: HttpRequest)
        ensures
            r@ == self@.get("/info/markets/"@ + market@ + "/stats"@),
    {
        let path: String = concat3("/info/markets/", market, "/stats");
        self.public_get(path.as_str())
    }

    /// Asks for the funding rates of the active markets, in their order: the
    /// name of each with its request.
    pub fn get_all_funding_rates(&self, markets: &Vec<MarketInfo>) -> (r: Vec<(String, HttpRequest)>)
        ensures
            ({
                let active = markets@.filter(is_open_for_trading());
                &&& r@.len() == active.len()
                &&& forall|i: int|
                    0 <= i < active.len() ==> (#[trigger] r@[i]).0 == active[i].name && r@[i].1@
                        == self@.get("/info/markets/"@ + active[i].name@ + "/stats"@)
            }),
    {
        let ghost chosen = is_open_for_trading();
        let mut requests: Vec<(String, HttpRequest)> = Vec::new();
        let mut i: usize = 0;
        assert(markets@.take(0).filter(chosen) =~= Seq::empty()) by {
            reveal(Seq::filter);
        }
        while i < markets.len()
            invariant
                i <= markets.len(),
                chosen == is_open_for_trading(),
                requests@.len() == markets@.take(i as int).filter(chosen).len(),
                forall|j: int|
                    0 <= j < requests@.len() ==> (#[trigger] requests@[j]).0 == markets@.take(
                        i as int,
                    ).filter(chosen)[j].name && requests@[j].1@ == self@.get(
                        "/info/markets/"@ + markets@.take(i as int).filter(chosen)[j].name@ + "/stats"@,
                    ),
            decreases markets.len() - i,
        {
            proof {
                let next = markets@.take(i + 1);
                assert(next.drop_last() =~= markets@.take(i as int));
                assert(next.last() == markets@[i as int]);
                reveal(Seq::filter);
            }
            if markets[i].active && same_text(markets[i].status.as_str(), "ACTIVE") {
                let name: String = markets[i].name.clone();
                let request: HttpRequest = self.get_funding_rate(name.as_str());
                requests.push((name, request));
            }
            i = i + 1;
        }
        assert(markets@.take(i as int) =~= markets@);
        requests
    }

    /// Asks for the account.
    pub fn get_account_info(&self) -> (r: Result<HttpRequest, ConnectorError>)
        ensures
            needs_key(
                self@,
                "API key required for account info"@,
                self@.get("/user/account/info"@),
                r,
            ),
    {
        self.private_get("/user/account/info", "API key required for account info")
    }

    /// Asks for the positions of the account, in one market or in all.
    pub fn get_positions(&self, market: Option<&str>) -> (r: Result<HttpRequest, ConnectorError>)
        ensures
            needs_key(
                self@,
                "API key required for positions"@,
                self@.get(
                    match market {
                        Some(m) => "/user/positions?market="@ + m@,
                        None => "/user/positions"@,
                    },
                ),
                r,
            ),
    {
        let path: String = match market {
            Some(m) => concat2("/user/positions?market=", m),
            None => "/user/positions".to_owned(),
        };
        self.private_get(path.as_str(), "API key required for positions")
    }

    /// Asks for the balance of the account.
    pub fn get_balance(&self) -> (r: Result<HttpRequest, ConnectorError>)
        ensures
            needs_key(self@, "API key required for balance"@, self@.get("/user/balance"@), r),
    {
        self.private_get("/user/balance", "API key required for balance")
    }

    /// Asks for another leverage in a market.
    pub fn update_leverage(&self, market: &str, leverage: &str) -> (r: Result<HttpRequest, ConnectorError>)
        ensures
            needs_key(
                self@,
                "API key required for leverage update"@,
                HttpRequestView {
                    method: HttpMethod::Patch,
                    url: self@.base_url + "/user/leverage"@,
                    api_key: self@.api_key,
                    json: Some(json_pair("market"@, market@, "leverage"@, leverage@)),
                },
                r,
            ),
    {
        match self.key_or("API key required for leverage update") {
            Ok(key) => Ok(
                HttpRequest {
                    method: HttpMethod::Patch,
                    url: self.url("/user/leverage"),
                    api_key: Some(key),
                    json: Some(print_json_pair("market", market, "leverage", leverage)),
                },
            ),
            Err(e) => Err(e),
        }
    }

    /// Asks for the fees of a market.
    pub fn get_fees(&self, market: &str) -> (r: Result<HttpRequest, ConnectorError>)
        ensures
            needs_key(
                self@,
                "API key required for fee info"@,
                self@.get("/user/fees?market="@ + market@),
                r,
            ),
    {
        let path: String = concat2("/user/fees?market=", market);
        self.private_get(path.as_str(), "API key required for fee info")
    }

    /// Asks for the configuration of the markets. No key goes with the request.
    pub fn get_market_config(&self) -> (r: HttpRequest)
        ensures
            r@ == self@.anonymous_get("/info/markets"@),
    {
        HttpRequest {
            method: HttpMethod::Get,
            url: self.url("/info/markets"),
            api_key: None,
            json: None,
        }
    }
}

/// Of a market: it is open for trading.
pub open spec fn is_open_for_trading() -> spec_fn(MarketInfo) -> bool {
    |m: MarketInfo| m.active && m.status@ == "ACTIVE"@
}

// ---------------------------------------------------------------------------
// Replies
// ---------------------------------------------------------------------------
/// What is reported of a reply whose status is not success.
pub open spec fn refusal_text(status: u16, body: Option<Seq<char>>) -> Seq<char> {
    "HTTP "@ + status_line(status) + ": "@ + match body {
        Some(text) => text,
        None => "Unknown error"@,
    }
}

/// The error of a reply whose status is not success, with the text of its body
/// where that could be read.
pub fn refused(status: HttpStatus, body: Option<String>) -> (r: ConnectorError)
    ensures
        r.is_api_error(refusal_text(status@, text_view(body))),
{
    let printed: String = status.text();
    let mut text: String = concat3("HTTP ", printed.as_str(), ": ");
    match body {
        Some(b) => text.append(b.as_str()),
        None => text.append("Unknown error"),
    }
    ConnectorError::ApiError(text)
}

/// What is reported of a reply without data.
pub open spec fn missing_data_text(error: Option<ApiErrorInfo>) -> Seq<char> {
    match error {
        Some(e) => e.code@ + ": "@ + e.message@,
        None => "Unknown error"@,
    }
}

/// The data of a reply, or the error that it names in their place.
pub fn data_of<T>(response: ApiResponse<T>) -> (r: Result<T, ConnectorError>)
    ensures
        match response.data {
            Some(data) => r == Ok::<T, ConnectorError>(data),
            None => r matches Err(e) && e.is_api_error(missing_data_text(response.error)),
        },
{
    match response.data {
        Some(data) => Ok(data),
        None => Err(
            ConnectorError::ApiError(
                match response.error {
                    Some(e) => concat3(e.code.as_str(), ": ", e.message.as_str()),
                    None => "Unknown error".to_owned(),
                },
            ),
        ),
    }
}

/// Where an exchange of a request for a reply stands.
#[derive(Clone, Copy)]
pub enum ExchangeStage {
    AwaitStatus,
    AwaitErrorText(HttpStatus),
    AwaitJson,
    Finished,
}

pub enum ExchangeEvent<T> {
    /// The request was sent and a status came back, or it could not be sent.
    Sent(Result<HttpStatus, ConnectorError>),
    /// The body of a refusal, where it could be read.
    ErrorText(Option<String>),
    Json(Result<ApiResponse<T>, ConnectorError>),
}

pub enum ExchangeAction<T> {
    /// Nothing to do: the event was not the one waited for.
    Await,
    ReadErrorText,
    ReadJson,
    Finish(Result<T, ConnectorError>),
}

/// How an exchange goes on from a stage when an event comes in.
pub open spec fn exchange_follows<T>(
    stage: ExchangeStage,
    event: ExchangeEvent<T>,
    next: ExchangeStage,
    action: ExchangeAction<T>,
) -> bool {
    match (stage, event) {
        (ExchangeStage::AwaitStatus, ExchangeEvent::Sent(Ok(status))) => if is_success_code(
            status@,
        ) {
            next is AwaitJson && action is ReadJson
        } else {
            next == ExchangeStage::AwaitErrorText(status) && action is ReadErrorText
        },
        (ExchangeStage::AwaitStatus, ExchangeEvent::Sent(Err(e))) => next is Finished && action
            == ExchangeAction::<T>::Finish(Err(e)),
        (ExchangeStage::AwaitErrorText(status), ExchangeEvent::ErrorText(body)) => next is Finished
            && (action matches ExchangeAction::Finish(Err(e)) && e.is_api_error(
            refusal_text(status@, text_view(body)),
        )),
        (ExchangeStage::AwaitJson, ExchangeEvent::Json(Err(e))) => next is Finished && action
            == ExchangeAction::<T>::Finish(Err(e)),
        (ExchangeStage::AwaitJson, ExchangeEvent::Json(Ok(response))) => next is Finished && (
        match response.data {
            Some(data) => action == ExchangeAction::Finish(Ok::<T, ConnectorError>(data)),
            None => action matches ExchangeAction::Finish(Err(e)) && e.is_api_error(
                missing_data_text(response.error),
            ),
        }),
        _ => next == stage && action is Await,
    }
}

/// One step of an exchange: the status decides whether the body is data or the
/// text of a refusal.
pub fn exchange<T>(stage: ExchangeStage, event: ExchangeEvent<T>) -> (r: (
    ExchangeStage,
    ExchangeAction<T>,
))
    ensures
        exchange_follows(stage, event, r.0, r.1),
{
    match (stage, event) {
        (ExchangeStage::AwaitStatus, ExchangeEvent::Sent(sent)) => match sent {
            Ok(status) => if status.is_success() {
                (ExchangeStage::AwaitJson, ExchangeAction::ReadJson)
            } else {
                (ExchangeStage::AwaitErrorText(status), ExchangeAction::ReadErrorText)
            },
            Err(e) => (ExchangeStage::Finished, ExchangeAction::Finish(Err(e))),
        },
        (ExchangeStage::AwaitErrorText(status), ExchangeEvent::ErrorText(body)) => (
            ExchangeStage::Finished,
            ExchangeAction::Finish(Err(refused(status, body))),
        ),
        (ExchangeStage::AwaitJson, ExchangeEvent::Json(json)) => match json {
            Ok(response) => (ExchangeStage::Finished, ExchangeAction::Finish(data_of(response))),
            Err(e) => (ExchangeStage::Finished, ExchangeAction::Finish(Err(e))),
        },
        _ => (stage, ExchangeAction::Await),
    }
}

/// Data come out of an exchange only where they came in with a reply: a refusal
/// never ends in data.
pub proof fn law_data_come_from_the_reply<T>(
    stage: ExchangeStage,
    event: ExchangeEvent<T>,
    next: ExchangeStage,
    action: ExchangeAction<T>,
)
    requires
        exchange_follows(stage, event, next, action),
    ensures
        action matches ExchangeAction::Finish(Ok(data)) ==> stage is AwaitJson && (
        event matches ExchangeEvent::Json(Ok(response)) && response.data == Some(data)),
        next is AwaitJson ==> stage is AwaitJson || (event matches ExchangeEvent::Sent(Ok(status))
            && is_success_code(status@)),
{
}

/// Of the configuration of a market: it is the one of this name.
pub open spec fn config_is_of(market: Seq<char>) -> spec_fn(MarketConfig) -> bool {
    |m: MarketConfig| m.name@ == market
}

/// The configuration of a market among those of all, or the error that there is
/// none.
pub fn market_config_for(markets: Vec<MarketConfig>, market: &str) -> (r: Result<
    MarketConfig,
    ConnectorError,
>)
    ensures
        r matches Ok(found) ==> found.name@ == market@ && markets@.contains(found),
        r is Err <==> forall|i: int|
            0 <= i < markets@.len() ==> (#[trigger] markets@[i]).name@ != market@,
        match first_where(markets@, config_is_of(market@)) {
            Some(found) => r == Ok::<MarketConfig, ConnectorError>(found),
            None => r matches Err(e) && e.is_invalid_market(
                "Market "@ + market@ + " not found"@,
            ),
        },
{
    let ghost wanted = config_is_of(market@);
    let mut i: usize = 0;
    while i < markets.len()
        invariant
            i <= markets.len(),
            wanted == config_is_of(market@),
            forall|j: int| 0 <= j < i ==> !wanted(#[trigger] markets@[j]),
        decreases markets.len() - i,
    {
        assert(wanted(markets@[i as int]) == (markets@[i as int].name@ == market@));
        if same_text(markets[i].name.as_str(), market) {
            proof {
                crate::types::lemma_first_is(markets@, wanted, i as int);
            }
            let mut all: Vec<MarketConfig> = markets;
            return Ok(all.swap_remove(i));
        }
        i = i + 1;
    }
    proof {
        crate::types::lemma_first_is_none(markets@, wanted);
        assert forall|i: int| 0 <= i < markets@.len() implies (
        #[trigger] markets@[i]).name@ != market@ by {
            assert(!wanted(markets@[i]));
        }
    }
    Err(ConnectorError::InvalidMarket(concat3("Market ", market, " not found")))
}

/// What a reply holds that confirms a leverage without repeating it.
pub open spec fn bare_confirmation() -> Seq<char> {
    "\"status\":\"OK\""@
}

/// The leverage after a reply to `update_leverage`, given the text of the reply
/// and what came of parsing it. The status of the reply is not looked at. Where the
/// reply reports the leverage of the market, that is the leverage; a text that only
/// says the status is OK confirms the one that was asked for.
pub fn leverage_after(
    requested: &str,
    reply: &str,
    parsed: Result<ApiResponse<LeverageData>, ConnectorError>,
) -> (r: Result<String, ConnectorError>)
    ensures
        match parsed {
            Ok(response) => match response.data {
                Some(data) => r == Ok::<String, ConnectorError>(data.leverage),
                None => if occurs_in(reply@, bare_confirmation()) {
                    r matches Ok(leverage) && leverage@ == requested@
                } else {
                    r matches Err(e) && e.is_api_error(missing_data_text(response.error))
                },
            },
            Err(cause) => if occurs_in(reply@, bare_confirmation()) {
                r matches Ok(leverage) && leverage@ == requested@
            } else {
                r == Err::<String, ConnectorError>(cause)
            },
        },
{
    let reported: Result<LeverageData, ConnectorError> = match parsed {
        Ok(response) => data_of(response),
        Err(e) => Err(e),
    };
    match reported {
        Ok(data) => Ok(data.leverage),
        Err(e) => if contains_text(reply, "\"status\":\"OK\"") {
            Ok(requested.to_owned())
        } else {
            Err(e)
        },
    }
}

// ---------------------------------------------------------------------------
// Funding rates
// ---------------------------------------------------------------------------
/// A funding rate, and the same as a percentage.
#[derive(Clone, Copy, Debug)]
pub struct Rate {
    pub rate: Amount,
    pub percentage: Amount,
}

/// The funding rate of a market as of `millis` since the Unix epoch.
pub fn funding_rate_at(market: &str, rate: Rate, millis: u64) -> (r: FundingRateInfo)
    ensures
        r.market@ == market@,
        r.rate == rate.rate,
        r.rate_percentage == rate.percentage,
        r.timestamp == millis,
        r.is_positive == rate.rate.spec_at_least_zero(),
{
    FundingRateInfo {
        market: market.to_owned(),
        rate: rate.rate,
        rate_percentage: rate.percentage,
        timestamp: millis,
        is_positive: rate.rate.at_least_zero(),
    }
}

pub enum StatsEvent {
    Sent(Result<HttpStatus, ConnectorError>),
    ErrorText,
    /// The rate in the statistics, where there are any.
    Stats(Result<Option<Rate>, ConnectorError>),
}

pub enum StatsAction {
    /// Nothing to do: the event was not the one waited for.
    Await,
    ReadErrorText,
    ReadStats,
    Finish(Result<Option<FundingRateInfo>, ConnectorError>),
    /// A rate is to be stamped and the clock cannot tell the time.
    ClockFault(ClockFault),
}

/// How the exchange for a funding rate goes on, where the clock gives `reading`. A
/// refusal is no error here: the market has no rate then.
pub open spec fn stats_follow(
    market: Seq<char>,
    stage: ExchangeStage,
    event: StatsEvent,
    reading: Option<(u64, u32)>,
    next: ExchangeStage,
    action: StatsAction,
) -> bool {
    match (stage, event) {
        (ExchangeStage::AwaitStatus, StatsEvent::Sent(Ok(status))) => if is_success_code(status@) {
            next is AwaitJson && action is ReadStats
        } else {
            next == ExchangeStage::AwaitErrorText(status) && action is ReadErrorText
        },
        (ExchangeStage::AwaitStatus, StatsEvent::Sent(Err(e))) => next is Finished && action
            == StatsAction::Finish(Err(e)),
        (ExchangeStage::AwaitErrorText(_), StatsEvent::ErrorText) => next is Finished && action
            == StatsAction::Finish(Ok(None)),
        (ExchangeStage::AwaitJson, StatsEvent::Stats(Err(e))) => next is Finished && action
            == StatsAction::Finish(Err(e)),
        (ExchangeStage::AwaitJson, StatsEvent::Stats(Ok(None))) => next is Finished && action
            == StatsAction::Finish(Ok(None)),
        (ExchangeStage::AwaitJson, StatsEvent::Stats(Ok(Some(rate)))) => next is Finished && (
        match instant_of(reading) {
            Ok(instant) => action matches StatsAction::Finish(Ok(Some(info))) && info.market@
                == market && info.rate == rate.rate && info.rate_percentage == rate.percentage
                && info.is_positive == rate.rate.spec_at_least_zero() && info.timestamp
                == instant.1,
            Err(fault) => action == StatsAction::ClockFault(fault),
        }),
        _ => next == stage && action is Await,
    }
}

/// One step of the exchange for a funding rate, given a reading of the clock.
pub fn funding_rate_exchange_at(
    market: &str,
    stage: ExchangeStage,
    event: StatsEvent,
    reading: Option<(u64, u32)>,
) -> (r: (ExchangeStage, StatsAction))
    ensures
        stats_follow(market@, stage, event, reading, r.0, r.1),
{
    match (stage, event) {
        (ExchangeStage::AwaitStatus, StatsEvent::Sent(sent)) => match sent {
            Ok(status) => if status.is_success() {
                (ExchangeStage::AwaitJson, StatsAction::ReadStats)
            } else {
                (ExchangeStage::AwaitErrorText(status), StatsAction::ReadErrorText)
            },
            Err(e) => (ExchangeStage::Finished, StatsAction::Finish(Err(e))),
        },
        (ExchangeStage::AwaitErrorText(_), StatsEvent::ErrorText) => (
            ExchangeStage::Finished,
            StatsAction::Finish(Ok(None)),
        ),
        (ExchangeStage::AwaitJson, StatsEvent::Stats(stats)) => match stats {
            Ok(found) => match found {
                Some(rate) => match utc_instant(reading) {
                    Ok(instant) => {
                        let info: FundingRateInfo = funding_rate_at(
                            market,
                            rate,
                            instant.1 as u64,
                        );
                        (ExchangeStage::Finished, StatsAction::Finish(Ok(Some(info))))
                    },
                    Err(fault) => (ExchangeStage::Finished, StatsAction::ClockFault(fault)),
                },
                None => (ExchangeStage::Finished, StatsAction::Finish(Ok(None))),
            },
            Err(e) => (ExchangeStage::Finished, StatsAction::Finish(Err(e))),
        },
        _ => (stage, StatsAction::Await),
    }
}

/// One step of the exchange for a funding rate. A rate is stamped with the time
/// at which it is read.
pub fn funding_rate_exchange(market: &str, stage: ExchangeStage, event: StatsEvent) -> (r: (
    ExchangeStage,
    StatsAction,
))
    ensures
        exists|reading: Option<(u64, u32)>|
            is_reading(reading) && #[trigger] stats_follow(
                market@,
                stage,
                event,
                reading,
                r.0,
                r.1,
            ),
{
    let reading: Option<(u64, u32)> = since_epoch();
    funding_rate_exchange_at(market, stage, event, reading)
}

// ---------------------------------------------------------------------------
// Tasks
// ---------------------------------------------------------------------------
/// What came of a task that ran beside others.
pub enum TaskOutcome<T> {
    Returned(Result<T, ConnectorError>),
    /// The task was lost, for this reason.
    Lost(String),
}

/// What a lost task leaves.
pub open spec fn lost_text(reason: Seq<char>) -> Seq<char> {
    "Task join error: "@ + reason
}

/// The results of tasks in their order. A lost task leaves an error in its place.
pub fn collect_results<T>(outcomes: Vec<TaskOutcome<T>>) -> (r: Vec<Result<T, ConnectorError>>)
    ensures
        r@.len() == outcomes@.len(),
        forall|i: int|
            0 <= i < outcomes@.len() ==> match #[trigger] outcomes@[i] {
                TaskOutcome::Returned(result) => r@[i] == result,
                TaskOutcome::Lost(reason) => r@[i] matches Err(e) && e.is_other(
                    lost_text(reason@),
                ),
            },
{
    let ghost all = outcomes@;
    let mut rest: Vec<TaskOutcome<T>> = outcomes;
    let mut results: Vec<Result<T, ConnectorError>> = Vec::new();
    while rest.len() > 0
        invariant
            results@.len() + rest@.len() == all.len(),
            rest@ == all.skip(results@.len() as int),
            forall|i: int|
                0 <= i < results@.len() ==> match #[trigger] all[i] {
                    TaskOutcome::Returned(result) => results@[i] == result,
                    TaskOutcome::Lost(reason) => results@[i] matches Err(e) && e.is_other(
                        lost_text(reason@),
                    ),
                },
        decreases rest.len(),
    {
        let outcome: TaskOutcome<T> = rest.remove(0);
        assert(outcome == all[results@.len() as int]);
        match outcome {
            TaskOutcome::Returned(result) => results.push(result),
            TaskOutcome::Lost(reason) => results.push(
                Err(ConnectorError::Other(concat2("Task join error: ", reason.as_str()))),
            ),
        }
        assert(rest@ =~= all.skip(results@.len() as int));
    }
    results
}

/// The rate that a task brought, where it brought one.
pub open spec fn brought_rate(outcome: TaskOutcome<Option<FundingRateInfo>>) -> Option<FundingRateInfo> {
    match outcome {
        TaskOutcome::Returned(Ok(found)) => found,
        _ => None,
    }
}

/// The rates that the tasks brought, in their order.
pub open spec fn brought_rates(outcomes: Seq<TaskOutcome<Option<FundingRateInfo>>>) -> Seq<
    FundingRateInfo,
>
    decreases outcomes.len(),
{
    if outcomes.len() == 0 {
        Seq::empty()
    } else {
        match brought_rate(outcomes.last()) {
            Some(info) => brought_rates(outcomes.drop_last()).push(info),
            None => brought_rates(outcomes.drop_last()),
        }
    }
}

/// The funding rates that could be had. A market without one, an error and a
/// lost task leave nothing.
pub fn collect_funding_rates(outcomes: Vec<TaskOutcome<Option<FundingRateInfo>>>) -> (r: Vec<
    FundingRateInfo,
>)
    ensures
        r@ == brought_rates(outcomes@),
{
    let ghost all = outcomes@;
    let mut rest: Vec<TaskOutcome<Option<FundingRateInfo>>> = outcomes;
    let mut rates: Vec<FundingRateInfo> = Vec::new();
    let ghost mut done: int = 0;
    assert(all.take(0) =~= Seq::empty());
    while rest.len() > 0
        invariant
            0 <= done <= all.len(),
            rest@ == all.skip(done),
            rates@ == brought_rates(all.take(done)),
        decreases rest.len(),
    {
        let outcome: TaskOutcome<Option<FundingRateInfo>> = rest.remove(0);
        proof {
            let next = all.take(done + 1);
            assert(next.drop_last() =~= all.take(done));
            assert(next.last() == outcome);
        }
        match outcome {
            TaskOutcome::Returned(result) => match result {
                Ok(found) => match found {
                    Some(info) => rates.push(info),
                    None => {},
                },
                Err(_) => {},
            },
            TaskOutcome::Lost(_) => {},
        }
        proof {
            done = done + 1;
            assert(rest@ =~= all.skip(done));
        }
    }
    assert(all.take(done) =~= all);
    rates
}

/// A task that brought a rate adds it behind the others, whatever the rate is; any other
/// task adds nothing.
pub proof fn law_each_task_adds_what_it_brought(
    outcomes: Seq<TaskOutcome<Option<FundingRateInfo>>>,
    info: FundingRateInfo,
    other: TaskOutcome<Option<FundingRateInfo>>,
)
    requires
        !(other matches TaskOutcome::Returned(Ok(found)) && found is Some),
    ensures
        brought_rates(Seq::<TaskOutcome<Option<FundingRateInfo>>>::empty()).len() == 0,
        brought_rates(outcomes.push(TaskOutcome::Returned(Ok(Some(info))))) == brought_rates(
            outcomes,
        ).push(info),
        brought_rates(outcomes.push(other)) == brought_rates(outcomes),
{
    assert(outcomes.push(TaskOutcome::Returned(Ok(Some(info)))).drop_last() =~= outcomes);
    assert(outcomes.push(other).drop_last() =~= outcomes);
}

/// Every rate that a task returned is in the result, and the result holds no other.
pub proof fn law_every_rate_is_collected(
    outcomes: Seq<TaskOutcome<Option<FundingRateInfo>>>,
    info: FundingRateInfo,
)
    ensures
        brought_rates(outcomes).contains(info) <==> outcomes.contains(
            TaskOutcome::Returned(Ok(Some(info))),
        ),
    decreases outcomes.len(),
{
    let wanted = TaskOutcome::Returned(Ok(Some(info)));
    if outcomes.len() > 0 {
        let before = outcomes.drop_last();
        let last = outcomes.last();
        law_every_rate_is_collected(before, info);
        if before.contains(wanted) {
            let i = choose|i: int| 0 <= i < before.len() && before[i] == wanted;
            assert(outcomes[i] == wanted);
        }
        if outcomes.contains(wanted) {
            let i = choose|i: int| 0 <= i < outcomes.len() && outcomes[i] == wanted;
            if i < before.len() {
                assert(before[i] == wanted);
            }
        }
        assert(outcomes[outcomes.len() - 1] == last);
        let rates = brought_rates(before);
        if let Some(brought) = brought_rate(last) {
            let longer = rates.push(brought);
            assert(longer[rates.len() as int] == brought);
            if rates.contains(info) {
                let i = choose|i: int| 0 <= i < rates.len() && rates[i] == info;
                assert(longer[i] == info);
            }
            if longer.contains(info) {
                let i = choose|i: int| 0 <= i < longer.len() && longer[i] == info;
                if i < rates.len() {
                    assert(rates[i] == info);
                }
            }
        }
    }
}

/// The rates of two groups of tasks are those of the first followed by those of the second,
/// so they come as often and in the order in which the tasks brought them.
pub proof fn law_rates_are_collected_in_order(
    first: Seq<TaskOutcome<Option<FundingRateInfo>>>,
    second: Seq<TaskOutcome<Option<FundingRateInfo>>>,
)
    ensures
        brought_rates(first + second) == brought_rates(first) + brought_rates(second),
    decreases second.len(),
{
    if second.len() == 0 {
        assert(first + second =~= first);
        assert(brought_rates(first) + brought_rates(second) =~= brought_rates(first));
    } else {
        law_rates_are_collected_in_order(first, second.drop_last());
        assert((first + second).drop_last() =~= first + second.drop_last());
        assert((first + second).last() == second.last());
        assert(brought_rates(first + second) =~= brought_rates(first) + brought_rates(second));
    }
}

/// A market is asked for its funding rate exactly where it is active and its status says so,
/// and each such market is asked once, in the order of the markets.
pub proof fn law_active_markets_are_asked(markets: Seq<MarketInfo>, market: MarketInfo)
    ensures
        markets.push(market).filter(is_open_for_trading()) == (if market.active && market.status@
            == "ACTIVE"@ {
            markets.filter(is_open_for_trading()).push(market)
        } else {
            markets.filter(is_open_for_trading())
        }),
        Seq::<MarketInfo>::empty().filter(is_open_for_trading()).len() == 0,
{
    reveal(Seq::filter);
    assert(markets.push(market).drop_last() =~= markets);
}

/// A request goes to the service of the client, to the path it is for, with the key of the
/// client, where it has one and the request is not an anonymous one.
pub proof fn law_requests_go_to_the_service(client: RestClientView, path: Seq<char>)
    ensures
        client.get(path).method == HttpMethod::Get,
        client.get(path).url == client.base_url + path,
        client.get(path).api_key == client.api_key,
        client.get(path).json is None,
        client.anonymous_get(path).method == HttpMethod::Get,
        client.anonymous_get(path).url == client.base_url + path,
        client.anonymous_get(path).api_key is None,
        client.anonymous_get(path).json is None,
{
}

/// A request that only an account can make is made exactly where the client has a key, and it
/// carries that key.
pub proof fn law_private_requests_need_a_key(
    client: RestClientView,
    refusal: Seq<char>,
    path: Seq<char>,
    r: Result<HttpRequest, ConnectorError>,
)
    requires
        needs_key(client, refusal, client.get(path), r),
    ensures
        r is Ok <==> client.api_key is Some,
        r matches Ok(sent) ==> sent@.api_key == client.api_key && sent@.url == client.base_url + path,
        r matches Err(e) ==> (e matches ConnectorError::ApiError(text) && text@ == refusal),
{
}

/// The body of a reply is read as data exactly where its status is a success, and as the text
/// of a refusal where it is not.
pub proof fn law_the_status_decides_how_a_reply_is_read<T>(
    stage: ExchangeStage,
    event: ExchangeEvent<T>,
    next: ExchangeStage,
    action: ExchangeAction<T>,
)
    requires
        exchange_follows(stage, event, next, action),
    ensures
        action is ReadJson <==> stage is AwaitStatus && (event matches ExchangeEvent::Sent(
            Ok(status),
        ) && 200 <= status@ < 300),
        action is ReadJson ==> next is AwaitJson,
        action is ReadErrorText <==> stage is AwaitStatus && (event matches ExchangeEvent::Sent(
            Ok(status),
        ) && !(200 <= status@ < 300)),
        action is ReadErrorText ==> (next matches ExchangeStage::AwaitErrorText(kept) && event
            == ExchangeEvent::<T>::Sent(Ok(kept))),
{
}

/// An exchange ends with data exactly where a reply that was a success holds some, and with
/// those; an error that came in ends it as it is.
pub proof fn law_how_an_exchange_ends<T>(
    stage: ExchangeStage,
    event: ExchangeEvent<T>,
    next: ExchangeStage,
    action: ExchangeAction<T>,
)
    requires
        exchange_follows(stage, event, next, action),
    ensures
        (action matches ExchangeAction::Finish(result) && result is Ok) <==> stage is AwaitJson && (
        event matches ExchangeEvent::Json(Ok(response)) && response.data is Some),
        action matches ExchangeAction::Finish(Ok(data)) ==> (event matches ExchangeEvent::Json(
            Ok(response),
        ) && response.data == Some(data)),
        match (stage, event) {
            (ExchangeStage::AwaitStatus, ExchangeEvent::Sent(Err(e))) => action
                == ExchangeAction::<T>::Finish(Err(e)),
            (ExchangeStage::AwaitJson, ExchangeEvent::Json(Err(e))) => action == ExchangeAction::<
                T,
            >::Finish(Err(e)),
            (ExchangeStage::AwaitErrorText(_), ExchangeEvent::ErrorText(_)) => action
                matches ExchangeAction::Finish(Err(e)) && e is ApiError,
            (ExchangeStage::AwaitJson, ExchangeEvent::Json(Ok(response))) => action is Finish && (
            response.data is None ==> (action matches ExchangeAction::Finish(Err(e)) && e
                is ApiError)),
            _ => true,
        },
        action is Finish ==> next is Finished,
        action is Await <==> !((stage is AwaitStatus && event is Sent) || (stage is AwaitErrorText
            && event is ErrorText) || (stage is AwaitJson && event is Json)),
        action is Await ==> next == stage,
{
}

/// A refusal is reported with its status and with the text of its body, and a reply without
/// data with the code and the message that it names.
pub proof fn law_errors_say_what_the_service_said(
    status: u16,
    body: Seq<char>,
    error: ApiErrorInfo,
)
    ensures
        refusal_text(status, Some(body)) == "HTTP "@ + status_line(status) + ": "@ + body,
        refusal_text(status, None) == refusal_text(status, Some("Unknown error"@)),
        missing_data_text(Some(error)) == error.code@ + ": "@ + error.message@,
        missing_data_text(None) == "Unknown error"@,
{
}

/// A funding rate comes out exactly where the statistics that came in hold one: the same rate
/// and percentage, for the market that was asked, stamped with the millisecond of the clock,
/// and positive exactly where it is not below zero.
pub proof fn law_the_rate_of_the_statistics_comes_out(
    market: Seq<char>,
    stage: ExchangeStage,
    event: StatsEvent,
    reading: Option<(u64, u32)>,
    next: ExchangeStage,
    action: StatsAction,
)
    requires
        stats_follow(market, stage, event, reading, next, action),
    ensures
        (action matches StatsAction::Finish(Ok(found)) && found is Some) <==> stage is AwaitJson && (
        event matches StatsEvent::Stats(Ok(found)) && found is Some) && (reading matches Some(t)
            && t.0 <= 8_210_266_876_799),
        action matches StatsAction::Finish(Ok(Some(info))) ==> (event matches StatsEvent::Stats(
            Ok(Some(rate)),
        ) && reading matches Some(t) && {
            &&& info.market@ == market
            &&& info.rate == rate.rate
            &&& info.rate_percentage == rate.percentage
            &&& info.timestamp == t.0 * 1000 + t.1 / 1_000_000
            &&& info.is_positive <==> !rate.rate.is_nan() && rate.rate.rank() >= 0
        }),
        action is ClockFault <==> stage is AwaitJson && (event matches StatsEvent::Stats(Ok(found))
            && found is Some) && !(reading matches Some(t) && t.0 <= 8_210_266_876_799),
        action matches StatsAction::ClockFault(fault) ==> fault == (if reading is None {
            ClockFault::BeforeEpoch
        } else {
            ClockFault::BeyondDates
        }),
{
}

/// Statistics that the service refuses, or that hold no rate, are no error: the market has no
/// rate. An error that came in ends the exchange as it is.
pub proof fn law_a_market_without_a_rate_is_no_error(
    market: Seq<char>,
    stage: ExchangeStage,
    event: StatsEvent,
    reading: Option<(u64, u32)>,
    next: ExchangeStage,
    action: StatsAction,
)
    requires
        stats_follow(market, stage, event, reading, next, action),
    ensures
        action == StatsAction::Finish(Ok(None)) <==> (stage is AwaitErrorText && event is ErrorText)
            || (stage is AwaitJson && event == StatsEvent::Stats(Ok(None))),
        match (stage, event) {
            (ExchangeStage::AwaitStatus, StatsEvent::Sent(Err(e))) => action == StatsAction::Finish(
                Err(e),
            ),
            (ExchangeStage::AwaitJson, StatsEvent::Stats(Err(e))) => action == StatsAction::Finish(
                Err(e),
            ),
            _ => !(action matches StatsAction::Finish(result) && result is Err),
        },
        action is ReadStats <==> stage is AwaitStatus && (event matches StatsEvent::Sent(Ok(status))
            && 200 <= status@ < 300),
        action is ReadStats ==> next is AwaitJson,
        action is ReadErrorText <==> stage is AwaitStatus && (event matches StatsEvent::Sent(
            Ok(status),
        ) && !(200 <= status@ < 300)),
        action is ReadErrorText ==> next is AwaitErrorText,
        action is Finish || action is ClockFault ==> next is Finished,
        action is Await ==> next == stage,
        action is Await <==> !((stage is AwaitStatus && event is Sent) || (stage is AwaitErrorText
            && event is ErrorText) || (stage is AwaitJson && event is Stats)),
{
}

/// The task returned a rate.
pub open spec fn returned_a_rate() -> spec_fn(TaskOutcome<Option<FundingRateInfo>>) -> bool {
    |o: TaskOutcome<Option<FundingRateInfo>>|
        o matches TaskOutcome::Returned(Ok(found)) && found is Some
}

/// There are as many rates as tasks that returned one.
pub proof fn law_there_is_one_rate_for_each_task_that_brought_one(
    outcomes: Seq<TaskOutcome<Option<FundingRateInfo>>>,
)
    ensures
        brought_rates(outcomes).len() == outcomes.filter(returned_a_rate()).len(),
    decreases outcomes.len(),
{
    reveal(Seq::filter);
    if outcomes.len() > 0 {
        law_there_is_one_rate_for_each_task_that_brought_one(outcomes.drop_last());
    }
}

/// The main network and the test network are told apart by their addresses.
pub proof fn law_the_networks_are_told_apart()
    ensures
        occurs_in(testnet_url(), "sepolia"@),
        !occurs_in(mainnet_url(), "sepolia"@),
        mainnet_url() == "https://api.starknet.extended.exchange/api/v1"@,
        testnet_url() == "https://api.starknet.sepolia.extended.exchange/api/v1"@,
{
    reveal_strlit("sepolia");
    reveal_strlit("https://api.starknet.sepolia.extended.exchange/api/v1");
    reveal_strlit("https://api.starknet.extended.exchange/api/v1");
    let word = "sepolia"@;
    assert(testnet_url().subrange(21, 28) =~= word);
    assert(crate::text::occurs_at(testnet_url(), word, 21));
    assert forall|at: int| !#[trigger] crate::text::occurs_at(mainnet_url(), word, at) by {
        if crate::text::occurs_at(mainnet_url(), word, at) {
            let part = mainnet_url().subrange(at, at + 7);
            assert(part[0] == 's' && part[1] == 'e');
            assert(mainnet_url()[at] == 's');
            assert(at == 4 || at == 12);
            assert(mainnet_url()[at + 1] == 'e');
        }
    }
}

/// What a lost task leaves says why it was lost.
pub proof fn law_a_lost_task_says_why(reason: Seq<char>)
    ensures
        lost_text(reason) == "Task join error: "@ + reason,
{
}

/// A bare confirmation is a status of OK in the JSON text of the reply.
pub proof fn law_what_confirms_a_leverage()
    ensures
        bare_confirmation() == "\"status\":\"OK\""@,
{
}

/// The configuration of a market is that of the first one with its name, and there is none
/// exactly where no market has it.
pub proof fn law_a_market_is_found_by_its_name(markets: Seq<MarketConfig>, name: Seq<char>)
    ensures
        first_where(markets, config_is_of(name)) is None <==> forall|i: int|
            0 <= i < markets.len() ==> (#[trigger] markets[i]).name@ != name,
        first_where(markets, config_is_of(name)) matches Some(found) ==> exists|i: int|
            {
                &&& 0 <= i < markets.len()
                &&& #[trigger] markets[i] == found
                &&& found.name@ == name
                &&& forall|j: int| 0 <= j < i ==> (#[trigger] markets[j]).name@ != name
            },
{
    let wanted = config_is_of(name);
    crate::types::lemma_first_where(markets, wanted);
    match first_where(markets, wanted) {
        Some(found) => {
            let i = choose|i: int|
                0 <= i < markets.len() && markets[i] == found && wanted(markets[i]) && (forall|j: int|
                    0 <= j < i ==> !wanted(#[trigger] markets[j]));
            assert(markets[i].name@ == name);
            assert forall|j: int| 0 <= j < i implies (#[trigger] markets[j]).name@ != name by {
                assert(!wanted(markets[j]));
            }
        },
        None => {
            assert forall|j: int| 0 <= j < markets.len() implies (
            #[trigger] markets[j]).name@ != name by {
                assert(!wanted(markets[j]));
            }
        },
    }
}

} // verus!
