//! Opening a position in the best opportunity.
use crate::amount::Amount;
use crate::bot::{extended_market, market_name, FundingBot};
use crate::clock::unix_now;
use crate::live::RecoveryOutcome;
use crate::state::BotState;
use crate::text::{begins_with, concat2, concat3, contains_text, occurs_in, same_text};
use crate::types::{
    first_where, lemma_first_where, DeltaNeutralPosition, Opportunity, OrderBook, PacificaMarket,
};
use vstd::prelude::*;

verus! {

broadcast use vstd::string::group_string_axioms;

/// The leverage that both legs are opened with, as the Extended venue takes it.
pub open spec fn extended_leverage() -> Seq<char> {
    "1"@
}

/// The leverage that both legs are opened with, as the Pacifica venue takes it.
pub const PACIFICA_LEVERAGE: u64 = 1;

/// What is to be opened.
pub struct Choice {
    pub symbol: String,
    pub extended_market: String,
    pub long_on_extended: bool,
}

/// What limits the size of a position.
#[derive(Clone, Copy, PartialEq, Eq, Debug, Structural)]
pub struct SizeLimits {
    pub extended_free: Amount,
    pub pacifica_free: Amount,
    pub extended_lot: Amount,
    pub pacifica_lot: Amount,
}

/// What is to be opened, and how much of it.
pub struct Trade {
    pub choice: Choice,
    pub size: Amount,
    pub price: Amount,
}

/// Where the opening stands.
pub enum OpenStage {
    Start,
    AwaitRecovery,
    AwaitScan,
    AwaitExtendedFree(Choice),
    AwaitPacificaFree(Choice, Amount),
    AwaitExtendedLot(Choice, Amount, Amount),
    AwaitPacificaMarkets(Choice, Amount, Amount, Amount),
    AwaitBook(Choice, SizeLimits),
    AwaitPrice(Choice, SizeLimits),
    AwaitSize(Choice, Amount),
    AwaitExtendedLeverage(Trade),
    AwaitPacificaLeverage(Trade),
    AwaitOpen,
    AwaitSave,
    Finished,
}

pub enum OpenEvent {
    Begin,
    /// What came of looking for live positions that the bot does not know of.
    Recovery(Result<RecoveryOutcome, String>),
    /// The opportunities, the best first.
    Scan(Result<Vec<Opportunity>, String>),
    /// The free collateral on the Extended venue.
    ExtendedFree(Result<Amount, String>),
    /// The free collateral on the Pacifica venue.
    PacificaFree(Result<Amount, String>),
    /// The step of order sizes in the market on the Extended venue.
    ExtendedLot(Result<Amount, String>),
    PacificaMarkets(Result<Vec<PacificaMarket>, String>),
    Book(Result<OrderBook, String>),
    /// The price halfway between the best offers.
    Price(Result<Amount, String>),
    /// The size that the limits allow.
    Size(Amount),
    ExtendedLeverage(Result<(), String>),
    PacificaLeverage(Result<(), String>),
    Opened(Result<DeltaNeutralPosition, String>),
    Saved(Result<(), String>),
}

/// How an opening ended well.
#[derive(Clone, Copy, PartialEq, Eq, Debug, Structural)]
pub enum OpenOutcome {
    /// A live position was taken up instead.
    Recovered,
    /// No opportunity met the criteria.
    NothingFound,
    Opened,
}

/// How an opening failed.
pub enum OpenFailure {
    /// A query failed, for this reason.
    Query(String),
    /// There are live positions that the bot does not know of.
    Blocked(String),
    /// The Pacifica venue has no market of this symbol.
    MarketMissing(String),
    EmptyBook,
    InsufficientCapital,
    /// The leverage in a market of the Extended venue could not be set.
    ExtendedLeverage(String, String),
    /// The leverage in a symbol of the Pacifica venue could not be set.
    PacificaLeverage(String, String),
    Open(String),
    /// The clock stands before the Unix epoch.
    Clock,
    Save(String),
}

pub enum OpenAction {
    /// Nothing to do: the event was not the one waited for.
    Await,
    Recover,
    Scan,
    QueryExtendedFree,
    QueryPacificaFree,
    /// Ask for the step of order sizes in this market of the Extended venue.
    QueryExtendedLot(String),
    QueryPacificaMarkets,
    /// Ask for the order book of this market of the Extended venue.
    QueryBook(String),
    /// Take the price halfway between these two.
    TakePrice(String, String),
    /// Work out the size at this price.
    TakeSize(SizeLimits, Amount),
    /// Set the leverage in a market of the Extended venue.
    SetExtendedLeverage(String, String),
    /// Set the leverage in a symbol of the Pacifica venue.
    SetPacificaLeverage(String, u64),
    OpenPosition(Trade),
    SaveState,
    Finish(OpenOutcome),
    Fail(OpenFailure),
}

impl Clone for Choice {
    fn clone(&self) -> (r: Choice)
        ensures
            r == *self,
    {
        Choice {
            symbol: self.symbol.clone(),
            extended_market: self.extended_market.clone(),
            long_on_extended: self.long_on_extended,
        }
    }
}

impl Clone for Trade {
    fn clone(&self) -> (r: Trade)
        ensures
            r == *self,
    {
        Trade { choice: self.choice.clone(), size: self.size, price: self.price }
    }
}

impl OpenFailure {
    pub open spec fn message(self) -> Seq<char> {
        match self {
            OpenFailure::Query(e) => e@,
            OpenFailure::Blocked(details) =>
                "Live positions exist while bot state is empty. Aborting open to prevent duplicates. "@
                + details@,
            OpenFailure::MarketMissing(symbol) => "Pacifica market "@ + symbol@ + " not found"@,
            OpenFailure::EmptyBook => "No orderbook data available"@,
            OpenFailure::InsufficientCapital => "Insufficient capital to open position"@,
            OpenFailure::ExtendedLeverage(market, e) => "Refusing to open "@ + market@
                + ": could not set Extended leverage to 1x ("@ + e@
                + "). Opening at unknown leverage risks liquidating one leg."@,
            OpenFailure::PacificaLeverage(symbol, e) => "Refusing to open "@ + symbol@
                + ": could not set Pacifica leverage to 1x ("@ + e@
                + "). Extended is already at 1x; opening now would give the two legs mismatched margin profiles."@,
            OpenFailure::Open(e) => "Failed to open position: "@ + e@,
            OpenFailure::Clock => "second time provided was later than self"@,
            OpenFailure::Save(e) => e@,
        }
    }

    /// The failure in words.
    pub fn text(&self) -> (r: String)
        ensures
            r@ == self.message(),
    {
        match self {
            OpenFailure::Query(e) => e.clone(),
            OpenFailure::Blocked(details) => concat2(
                "Live positions exist while bot state is empty. Aborting open to prevent duplicates. ",
                details.as_str(),
            ),
            OpenFailure::MarketMissing(symbol) => concat3(
                "Pacifica market ",
                symbol.as_str(),
                " not found",
            ),
            OpenFailure::EmptyBook => "No orderbook data available".to_owned(),
            OpenFailure::InsufficientCapital => "Insufficient capital to open position".to_owned(),
            OpenFailure::ExtendedLeverage(market, e) => {
                let mut text: String = concat3(
                    "Refusing to open ",
                    market.as_str(),
                    ": could not set Extended leverage to 1x (",
                );
                text.append(e.as_str());
                text.append("). Opening at unknown leverage risks liquidating one leg.");
                text
            },
            OpenFailure::PacificaLeverage(symbol, e) => {
                let mut text: String = concat3(
                    "Refusing to open ",
                    symbol.as_str(),
                    ": could not set Pacifica leverage to 1x (",
                );
                text.append(e.as_str());
                text.append(
                    "). Extended is already at 1x; opening now would give the two legs mismatched margin profiles.",
                );
                text
            },
            OpenFailure::Open(e) => concat2("Failed to open position: ", e.as_str()),
            OpenFailure::Clock => "second time provided was later than self".to_owned(),
            OpenFailure::Save(e) => e.clone(),
        }
    }
}

/// What is opened to take an opportunity.
pub open spec fn is_choice(best: Opportunity, choice: Choice) -> bool {
    &&& choice.symbol == best.symbol
    &&& choice.extended_market@ == market_name(best.symbol@)
    &&& choice.long_on_extended == occurs_in(best.best_direction@, "Long Extended"@)
}

/// Of a market on the Pacifica venue: it is the one of this symbol.
pub open spec fn pacifica_market_is(symbol: Seq<char>) -> spec_fn(PacificaMarket) -> bool {
    |m: PacificaMarket| m.symbol@ == symbol
}

/// The state after a position was opened at the second `now`.
pub open spec fn state_with_opened(before: BotState, pos: DeltaNeutralPosition, now: u64) -> BotState {
    BotState {
        current_position: Some(pos),
        last_rotation_time: Some(now),
        total_rotations: (before.total_rotations + 1) as u64,
    }
}

/// The opening goes on to `next` with `action`, and the state stays as it is.
pub open spec fn goes_on(
    before: BotState,
    after: BotState,
    next: OpenStage,
    action: OpenAction,
    stage: OpenStage,
    act: OpenAction,
) -> bool {
    after == before && next == stage && action == act
}

/// How the opening goes on from a stage when an event comes in. Where the time is
/// needed, `now` is what the clock says.
pub open spec fn open_follows(
    before: BotState,
    stage: OpenStage,
    event: OpenEvent,
    now: Option<u64>,
    after: BotState,
    next: OpenStage,
    action: OpenAction,
) -> bool {
    let fails = |f: OpenFailure|
        goes_on(before, after, next, action, OpenStage::Finished, OpenAction::Fail(f));
    let ends = |o: OpenOutcome|
        goes_on(before, after, next, action, OpenStage::Finished, OpenAction::Finish(o));
    let goes = |n: OpenStage, a: OpenAction| goes_on(before, after, next, action, n, a);
    match (stage, event) {
        (OpenStage::Start, OpenEvent::Begin) => goes(
            OpenStage::AwaitRecovery,
            OpenAction::Recover,
        ),
        (OpenStage::AwaitRecovery, OpenEvent::Recovery(outcome)) => match outcome {
            Ok(RecoveryOutcome::Recovered) => ends(OpenOutcome::Recovered),
            Ok(RecoveryOutcome::Blocked(details)) => fails(OpenFailure::Blocked(details)),
            Ok(RecoveryOutcome::NoAction) => goes(OpenStage::AwaitScan, OpenAction::Scan),
            Err(e) => fails(OpenFailure::Query(e)),
        },
        (OpenStage::AwaitScan, OpenEvent::Scan(scan)) => match scan {
            Ok(found) => if found@.len() == 0 {
                ends(OpenOutcome::NothingFound)
            } else {
                &&& after == before
                &&& next matches OpenStage::AwaitExtendedFree(choice) && is_choice(found@[0], choice)
                &&& action == OpenAction::QueryExtendedFree
            },
            Err(e) => fails(OpenFailure::Query(e)),
        },
        (OpenStage::AwaitExtendedFree(choice), OpenEvent::ExtendedFree(answer)) => match answer {
            Ok(extended_free) => goes(
                OpenStage::AwaitPacificaFree(choice, extended_free),
                OpenAction::QueryPacificaFree,
            ),
            Err(e) => fails(OpenFailure::Query(e)),
        },
        (
            OpenStage::AwaitPacificaFree(choice, extended_free),
            OpenEvent::PacificaFree(answer),
        ) => match answer {
            Ok(pacifica_free) => goes(
                OpenStage::AwaitExtendedLot(choice, extended_free, pacifica_free),
                OpenAction::QueryExtendedLot(choice.extended_market),
            ),
            Err(e) => fails(OpenFailure::Query(e)),
        },
        (
            OpenStage::AwaitExtendedLot(choice, extended_free, pacifica_free),
            OpenEvent::ExtendedLot(answer),
        ) => match answer {
            Ok(extended_lot) => goes(
                OpenStage::AwaitPacificaMarkets(
                    choice,
                    extended_free,
                    pacifica_free,
                    extended_lot,
                ),
                OpenAction::QueryPacificaMarkets,
            ),
            Err(e) => fails(OpenFailure::Query(e)),
        },
        (
            OpenStage::AwaitPacificaMarkets(choice, extended_free, pacifica_free, extended_lot),
            OpenEvent::PacificaMarkets(answer),
        ) => match answer {
            Ok(markets) => match first_where(markets@, pacifica_market_is(choice.symbol@)) {
                Some(market) => match market.lot_size {
                    Ok(pacifica_lot) => goes(
                        OpenStage::AwaitBook(
                            choice,
                            SizeLimits { extended_free, pacifica_free, extended_lot, pacifica_lot },
                        ),
                        OpenAction::QueryBook(choice.extended_market),
                    ),
                    Err(e) => fails(OpenFailure::Query(e)),
                },
                None => fails(OpenFailure::MarketMissing(choice.symbol)),
            },
            Err(e) => fails(OpenFailure::Query(e)),
        },
        (OpenStage::AwaitBook(choice, limits), OpenEvent::Book(answer)) => match answer {
            Ok(book) => if book.bid@.len() > 0 && book.ask@.len() > 0 {
                goes(
                    OpenStage::AwaitPrice(choice, limits),
                    OpenAction::TakePrice(book.bid@[0].price, book.ask@[0].price),
                )
            } else {
                fails(OpenFailure::EmptyBook)
            },
            Err(e) => fails(OpenFailure::Query(e)),
        },
        (OpenStage::AwaitPrice(choice, limits), OpenEvent::Price(answer)) => match answer {
            Ok(price) => goes(
                OpenStage::AwaitSize(choice, price),
                OpenAction::TakeSize(limits, price),
            ),
            Err(e) => fails(OpenFailure::Query(e)),
        },
        (OpenStage::AwaitSize(choice, price), OpenEvent::Size(size)) => if size.spec_at_most_zero() {
            fails(OpenFailure::InsufficientCapital)
        } else {
            &&& after == before
            &&& next == OpenStage::AwaitExtendedLeverage(Trade { choice, size, price })
            &&& action matches OpenAction::SetExtendedLeverage(market, leverage) && market
                == choice.extended_market && leverage@ == extended_leverage()
        },
        (OpenStage::AwaitExtendedLeverage(trade), OpenEvent::ExtendedLeverage(answer)) => match answer {
            Ok(_) => goes(
                OpenStage::AwaitPacificaLeverage(trade),
                OpenAction::SetPacificaLeverage(trade.choice.symbol, PACIFICA_LEVERAGE),
            ),
            Err(e) => fails(OpenFailure::ExtendedLeverage(trade.choice.extended_market, e)),
        },
        (OpenStage::AwaitPacificaLeverage(trade), OpenEvent::PacificaLeverage(answer)) => match answer {
            Ok(_) => goes(OpenStage::AwaitOpen, OpenAction::OpenPosition(trade)),
            Err(e) => fails(OpenFailure::PacificaLeverage(trade.choice.symbol, e)),
        },
        (OpenStage::AwaitOpen, OpenEvent::Opened(answer)) => match answer {
            Ok(pos) => match now {
                Some(t) => after == state_with_opened(before, pos, t) && next
                    == OpenStage::AwaitSave && action == OpenAction::SaveState,
                None => after == (BotState { current_position: Some(pos), ..before }) && next
                    == OpenStage::Finished && action == OpenAction::Fail(OpenFailure::Clock),
            },
            Err(e) => fails(OpenFailure::Open(e)),
        },
        (OpenStage::AwaitSave, OpenEvent::Saved(answer)) => match answer {
            Ok(_) => ends(OpenOutcome::Opened),
            Err(e) => fails(OpenFailure::Save(e)),
        },
        _ => goes(stage, OpenAction::Await),
    }
}

/// The opening counts a rotation at this step.
pub open spec fn counts_a_rotation(stage: OpenStage, event: OpenEvent) -> bool {
    stage is AwaitOpen && (event matches OpenEvent::Opened(answer) && answer is Ok)
}

fn choose_best(best: &Opportunity) -> (r: Choice)
    ensures
        is_choice(*best, r),
{
    Choice {
        symbol: best.symbol.clone(),
        extended_market: extended_market(best.symbol.as_str()),
        long_on_extended: contains_text(best.best_direction.as_str(), "Long Extended"),
    }
}

fn find_pacifica_market(markets: &Vec<PacificaMarket>, symbol: &str) -> (r: Option<PacificaMarket>)
    ensures
        r == first_where(markets@, pacifica_market_is(symbol@)),
{
    let ghost wanted = pacifica_market_is(symbol@);
    let mut i: usize = 0;
    while i < markets.len()
        invariant
            i <= markets.len(),
            wanted == pacifica_market_is(symbol@),
            forall|j: int| 0 <= j < i ==> !wanted(#[trigger] markets@[j]),
        decreases markets.len() - i,
    {
        if same_text(markets[i].symbol.as_str(), symbol) {
            proof {
                crate::types::lemma_first_is(markets@, wanted, i as int);
            }
            return Some(markets[i].clone());
        }
        i = i + 1;
    }
    proof {
        crate::types::lemma_first_is_none(markets@, wanted);
    }
    None
}

fn failed(failure: OpenFailure) -> (r: (OpenStage, OpenAction))
    ensures
        r == (OpenStage::Finished, OpenAction::Fail(failure)),
{
    (OpenStage::Finished, OpenAction::Fail(failure))
}

impl FundingBot {
    /// One step of opening a position in the best opportunity, given what the
    /// clock says.
    pub fn open_at(&mut self, stage: OpenStage, event: OpenEvent, now: Option<u64>) -> (r: (
        OpenStage,
        OpenAction,
    ))
        requires
            counts_a_rotation(stage, event) && now is Some ==> old(self).state.total_rotations
                < u64::MAX,
        ensures
            open_follows(old(self).state, stage, event, now, final(self).state, r.0, r.1),
            final(self).hold_time_hours == old(self).hold_time_hours,
            final(self).state_path == old(self).state_path,
    {
        match (stage, event) {
            (OpenStage::Start, OpenEvent::Begin) => (OpenStage::AwaitRecovery, OpenAction::Recover),
            (OpenStage::AwaitRecovery, OpenEvent::Recovery(outcome)) => match outcome {
                Ok(RecoveryOutcome::Recovered) => (
                    OpenStage::Finished,
                    OpenAction::Finish(OpenOutcome::Recovered),
                ),
                Ok(RecoveryOutcome::Blocked(details)) => failed(OpenFailure::Blocked(details)),
                Ok(RecoveryOutcome::NoAction) => (OpenStage::AwaitScan, OpenAction::Scan),
                Err(e) => failed(OpenFailure::Query(e)),
            },
            (OpenStage::AwaitScan, OpenEvent::Scan(scan)) => match scan {
                Ok(found) => if found.len() == 0 {
                    (OpenStage::Finished, OpenAction::Finish(OpenOutcome::NothingFound))
                } else {
                    (
                        OpenStage::AwaitExtendedFree(choose_best(&found[0])),
                        OpenAction::QueryExtendedFree,
                    )
                },
                Err(e) => failed(OpenFailure::Query(e)),
            },
            (OpenStage::AwaitExtendedFree(choice), OpenEvent::ExtendedFree(answer)) => match answer {
                Ok(extended_free) => (
                    OpenStage::AwaitPacificaFree(choice, extended_free),
                    OpenAction::QueryPacificaFree,
                ),
                Err(e) => failed(OpenFailure::Query(e)),
            },
            (
                OpenStage::AwaitPacificaFree(choice, extended_free),
                OpenEvent::PacificaFree(answer),
            ) => match answer {
                Ok(pacifica_free) => {
                    let market: String = choice.extended_market.clone();
                    (
                        OpenStage::AwaitExtendedLot(choice, extended_free, pacifica_free),
                        OpenAction::QueryExtendedLot(market),
                    )
                },
                Err(e) => failed(OpenFailure::Query(e)),
            },
            (
                OpenStage::AwaitExtendedLot(choice, extended_free, pacifica_free),
                OpenEvent::ExtendedLot(answer),
            ) => match answer {
                Ok(extended_lot) => (
                    OpenStage::AwaitPacificaMarkets(
                        choice,
                        extended_free,
                        pacifica_free,
                        extended_lot,
                    ),
                    OpenAction::QueryPacificaMarkets,
                ),
                Err(e) => failed(OpenFailure::Query(e)),
            },
            (
                OpenStage::AwaitPacificaMarkets(choice, extended_free, pacifica_free, extended_lot),
                OpenEvent::PacificaMarkets(answer),
            ) => match answer {
                Ok(markets) => match find_pacifica_market(&markets, choice.symbol.as_str()) {
                    Some(found) => match found.lot_size {
                        Ok(pacifica_lot) => {
                            let market: String = choice.extended_market.clone();
                            let limits: SizeLimits = SizeLimits {
                                extended_free,
                                pacifica_free,
                                extended_lot,
                                pacifica_lot,
                            };
                            (OpenStage::AwaitBook(choice, limits), OpenAction::QueryBook(market))
                        },
                        Err(e) => failed(OpenFailure::Query(e)),
                    },
                    None => failed(OpenFailure::MarketMissing(choice.symbol)),
                },
                Err(e) => failed(OpenFailure::Query(e)),
            },
            (OpenStage::AwaitBook(choice, limits), OpenEvent::Book(answer)) => match answer {
                Ok(book) => if book.bid.len() > 0 && book.ask.len() > 0 {
                    (
                        OpenStage::AwaitPrice(choice, limits),
                        OpenAction::TakePrice(book.bid[0].price.clone(), book.ask[0].price.clone()),
                    )
                } else {
                    failed(OpenFailure::EmptyBook)
                },
                Err(e) => failed(OpenFailure::Query(e)),
            },
            (OpenStage::AwaitPrice(choice, limits), OpenEvent::Price(answer)) => match answer {
                Ok(price) => (
                    OpenStage::AwaitSize(choice, price),
                    OpenAction::TakeSize(limits, price),
                ),
                Err(e) => failed(OpenFailure::Query(e)),
            },
            (OpenStage::AwaitSize(choice, price), OpenEvent::Size(size)) => if size.at_most_zero() {
                failed(OpenFailure::InsufficientCapital)
            } else {
                let market: String = choice.extended_market.clone();
                (
                    OpenStage::AwaitExtendedLeverage(Trade { choice, size, price }),
                    OpenAction::SetExtendedLeverage(market, "1".to_owned()),
                )
            },
            (
                OpenStage::AwaitExtendedLeverage(trade),
                OpenEvent::ExtendedLeverage(answer),
            ) => match answer {
                Ok(_) => {
                    let symbol: String = trade.choice.symbol.clone();
                    (
                        OpenStage::AwaitPacificaLeverage(trade),
                        OpenAction::SetPacificaLeverage(symbol, PACIFICA_LEVERAGE),
                    )
                },
                Err(e) => failed(OpenFailure::ExtendedLeverage(trade.choice.extended_market, e)),
            },
            (
                OpenStage::AwaitPacificaLeverage(trade),
                OpenEvent::PacificaLeverage(answer),
            ) => match answer {
                Ok(_) => (OpenStage::AwaitOpen, OpenAction::OpenPosition(trade)),
                Err(e) => failed(OpenFailure::PacificaLeverage(trade.choice.symbol, e)),
            },
            (OpenStage::AwaitOpen, OpenEvent::Opened(answer)) => match answer {
                Ok(pos) => {
                    self.state.current_position = Some(pos);
                    match now {
                        Some(t) => {
                            self.state.last_rotation_time = Some(t);
                            self.state.total_rotations = self.state.total_rotations + 1;
                            (OpenStage::AwaitSave, OpenAction::SaveState)
                        },
                        None => failed(OpenFailure::Clock),
                    }
                },
                Err(e) => failed(OpenFailure::Open(e)),
            },
            (OpenStage::AwaitSave, OpenEvent::Saved(answer)) => match answer {
                Ok(_) => (OpenStage::Finished, OpenAction::Finish(OpenOutcome::Opened)),
                Err(e) => failed(OpenFailure::Save(e)),
            },
            (other, _) => (other, OpenAction::Await),
        }
    }

    /// One step of opening a position in the best opportunity. Nothing is opened
    /// while there are live positions that the bot does not know of, nor before the
    /// leverage is known to be one on both venues.
    pub fn open_best_opportunity(&mut self, stage: OpenStage, event: OpenEvent) -> (r: (
        OpenStage,
        OpenAction,
    ))
        requires
            counts_a_rotation(stage, event) ==> old(self).state.total_rotations < u64::MAX,
        ensures
            exists|now: Option<u64>|
                #[trigger] open_follows(
                    old(self).state,
                    stage,
                    event,
                    now,
                    final(self).state,
                    r.0,
                    r.1,
                ),
            final(self).hold_time_hours == old(self).hold_time_hours,
            final(self).state_path == old(self).state_path,
    {
        let now: Option<u64> = unix_now();
        self.open_at(stage, event, now)
    }
}

/// One move in the opening of a position.
pub struct OpenMove {
    pub before: BotState,
    pub stage: OpenStage,
    pub event: OpenEvent,
    pub now: Option<u64>,
    pub after: BotState,
    pub next: OpenStage,
    pub action: OpenAction,
}

/// The moves of one opening, from its start on. Between two moves the state stays
/// as it is, but for what the recovery makes of it.
pub open spec fn is_opening(moves: Seq<OpenMove>) -> bool {
    &&& moves.len() > 0 ==> moves[0].stage is Start
    &&& forall|i: int|
        0 <= i < moves.len() ==> {
            let m = #[trigger] moves[i];
            open_follows(m.before, m.stage, m.event, m.now, m.after, m.next, m.action)
        }
    &&& forall|i: int, j: int|
        0 <= i && j == i + 1 && j < moves.len() ==> {
            let a = #[trigger] moves[i];
            let b = #[trigger] moves[j];
            a.next == b.stage && (b.stage is AwaitRecovery || a.after == b.before)
        }
}

/// Before the move at `k`, no live position was found that the bot does not know of.
pub open spec fn recovery_found_nothing(moves: Seq<OpenMove>, k: int) -> bool {
    exists|i: int|
        0 <= i < k && (#[trigger] moves[i]).stage is AwaitRecovery && moves[i].event
            == OpenEvent::Recovery(Ok(RecoveryOutcome::NoAction))
}

/// Before the move at `k`, a scan found this to be the best.
pub open spec fn scan_found(moves: Seq<OpenMove>, k: int, choice: Choice) -> bool {
    exists|i: int|
        0 <= i < k && (#[trigger] moves[i]).stage is AwaitScan && (
        moves[i].event matches OpenEvent::Scan(Ok(found)) && found@.len() > 0 && is_choice(
            found@[0],
            choice,
        ))
}

/// Before the move at `k`, this was the answer to what free collateral there is on the
/// Extended venue.
pub open spec fn extended_free_was(moves: Seq<OpenMove>, k: int, free: Amount) -> bool {
    exists|i: int|
        0 <= i < k && (#[trigger] moves[i]).stage is AwaitExtendedFree && moves[i].event
            == OpenEvent::ExtendedFree(Ok(free))
}

/// Before the move at `k`, this was the answer to what free collateral there is on the
/// Pacifica venue.
pub open spec fn pacifica_free_was(moves: Seq<OpenMove>, k: int, free: Amount) -> bool {
    exists|i: int|
        0 <= i < k && (#[trigger] moves[i]).stage is AwaitPacificaFree && moves[i].event
            == OpenEvent::PacificaFree(Ok(free))
}

/// Before the move at `k`, the step of order sizes in this market of the Extended
/// venue was asked for.
pub open spec fn extended_lot_was_asked(moves: Seq<OpenMove>, k: int, market: String) -> bool {
    exists|i: int|
        0 <= i < k && (#[trigger] moves[i]).action == OpenAction::QueryExtendedLot(market)
}

/// Before the move at `k`, this was the answer to what the step of order sizes is in
/// this market of the Extended venue.
pub open spec fn extended_lot_was(moves: Seq<OpenMove>, k: int, market: String, lot: Amount) -> bool {
    exists|i: int|
        0 <= i < k && (#[trigger] moves[i]).stage is AwaitExtendedLot && moves[i].event
            == OpenEvent::ExtendedLot(Ok(lot)) && extended_lot_was_asked(moves, i, market)
}

/// Before the move at `k`, the Pacifica venue listed its markets, and this was the
/// step of order sizes in the one of this symbol.
pub open spec fn pacifica_lot_was(moves: Seq<OpenMove>, k: int, symbol: String, lot: Amount) -> bool {
    exists|i: int|
        0 <= i < k && (#[trigger] moves[i]).stage is AwaitPacificaMarkets && (
        moves[i].event matches OpenEvent::PacificaMarkets(Ok(markets)) && (first_where(
            markets@,
            pacifica_market_is(symbol@),
        ) matches Some(market) && market.lot_size == Ok::<Amount, String>(lot)))
}

/// Before the move at `k`, the venues gave these limits for what is chosen.
pub open spec fn limits_were(moves: Seq<OpenMove>, k: int, choice: Choice, limits: SizeLimits) -> bool {
    &&& extended_free_was(moves, k, limits.extended_free)
    &&& pacifica_free_was(moves, k, limits.pacifica_free)
    &&& extended_lot_was(moves, k, choice.extended_market, limits.extended_lot)
    &&& pacifica_lot_was(moves, k, choice.symbol, limits.pacifica_lot)
}

/// Before the move at `k`, the order book of this market was asked for.
pub open spec fn book_was_asked(moves: Seq<OpenMove>, k: int, market: String) -> bool {
    exists|i: int| 0 <= i < k && (#[trigger] moves[i]).action == OpenAction::QueryBook(market)
}

/// Before the move at `k`, the order book of this market came in, and the price
/// halfway between its best offers was to be taken.
pub open spec fn book_was_read(moves: Seq<OpenMove>, k: int, market: String) -> bool {
    exists|i: int|
        0 <= i < k && (#[trigger] moves[i]).stage is AwaitBook && book_was_asked(moves, i, market)
            && (moves[i].event matches OpenEvent::Book(Ok(book)) && book.bid@.len() > 0
            && book.ask@.len() > 0 && moves[i].action == OpenAction::TakePrice(
            book.bid@[0].price,
            book.ask@[0].price,
        ))
}

/// Before the move at `k`, this was the price taken from the order book of this
/// market.
pub open spec fn price_was(moves: Seq<OpenMove>, k: int, market: String, price: Amount) -> bool {
    exists|i: int|
        0 <= i < k && (#[trigger] moves[i]).stage is AwaitPrice && moves[i].event
            == OpenEvent::Price(Ok(price)) && book_was_read(moves, i, market)
}

/// Before the move at `k`, the size at this price was asked for, with the limits that
/// the venues gave for what is chosen.
pub open spec fn size_was_asked(moves: Seq<OpenMove>, k: int, choice: Choice, price: Amount) -> bool {
    exists|i: int, limits: SizeLimits|
        0 <= i < k && (#[trigger] moves[i]).action == OpenAction::TakeSize(limits, price)
            && #[trigger] limits_were(moves, i, choice, limits)
}

/// Before the move at `k`, this was the answer to what the size is at this price.
pub open spec fn size_was(
    moves: Seq<OpenMove>,
    k: int,
    choice: Choice,
    price: Amount,
    size: Amount,
) -> bool {
    exists|i: int|
        0 <= i < k && (#[trigger] moves[i]).stage is AwaitSize && moves[i].event
            == OpenEvent::Size(size) && size_was_asked(moves, i, choice, price)
}

/// Before the move at `k`, the leverage in this market of the Extended venue was
/// to be set to one, and it was set.
pub open spec fn extended_leverage_was_set(moves: Seq<OpenMove>, k: int, market: String) -> bool {
    exists|i: int, j: int|
        0 <= i < j < k && ((#[trigger] moves[i]).action matches OpenAction::SetExtendedLeverage(
            m,
            leverage,
        ) && m == market && leverage@ == extended_leverage()) && (
        (#[trigger] moves[j]).event matches OpenEvent::ExtendedLeverage(answer) && answer is Ok)
}

/// Before the move at `k`, the leverage in this symbol of the Pacifica venue was to
/// be set to one.
pub open spec fn pacifica_leverage_was_asked(moves: Seq<OpenMove>, k: int, symbol: String) -> bool {
    exists|i: int|
        0 <= i < k && (#[trigger] moves[i]).action == OpenAction::SetPacificaLeverage(
            symbol,
            PACIFICA_LEVERAGE,
        )
}

/// How far a stage is on the way.
spec fn rank(stage: OpenStage) -> int {
    match stage {
        OpenStage::Start => 0,
        OpenStage::AwaitRecovery => 1,
        OpenStage::AwaitScan => 2,
        OpenStage::AwaitExtendedFree(_) => 3,
        OpenStage::AwaitPacificaFree(_, _) => 4,
        OpenStage::AwaitExtendedLot(_, _, _) => 5,
        OpenStage::AwaitPacificaMarkets(_, _, _, _) => 6,
        OpenStage::AwaitBook(_, _) => 7,
        OpenStage::AwaitPrice(_, _) => 8,
        OpenStage::AwaitSize(_, _) => 9,
        OpenStage::AwaitExtendedLeverage(_) => 10,
        OpenStage::AwaitPacificaLeverage(_) => 11,
        OpenStage::AwaitOpen => 12,
        OpenStage::AwaitSave => 13,
        OpenStage::Finished => 14,
    }
}

proof fn lemma_rank_grows(moves: Seq<OpenMove>, i: int, j: int)
    requires
        is_opening(moves),
        0 <= i < j < moves.len(),
    ensures
        rank(moves[i].next) <= rank(moves[j].stage),
        rank(moves[i].stage) <= rank(moves[j].stage),
    decreases j - i,
{
    assert(rank(moves[i].stage) <= rank(moves[i].next));
    if j > i + 1 {
        lemma_rank_grows(moves, i, j - 1);
        assert(rank(moves[j - 1].stage) <= rank(moves[j - 1].next));
    }
    assert(moves[j - 1].next == moves[j].stage);
}

/// What is chosen at a stage.
spec fn choice_at(stage: OpenStage) -> Option<Choice> {
    match stage {
        OpenStage::AwaitExtendedFree(c) => Some(c),
        OpenStage::AwaitPacificaFree(c, _) => Some(c),
        OpenStage::AwaitExtendedLot(c, _, _) => Some(c),
        OpenStage::AwaitPacificaMarkets(c, _, _, _) => Some(c),
        OpenStage::AwaitBook(c, _) => Some(c),
        OpenStage::AwaitPrice(c, _) => Some(c),
        OpenStage::AwaitSize(c, _) => Some(c),
        OpenStage::AwaitExtendedLeverage(t) => Some(t.choice),
        OpenStage::AwaitPacificaLeverage(t) => Some(t.choice),
        _ => None,
    }
}

proof fn lemma_choice_is_found(moves: Seq<OpenMove>, k: int)
    requires
        is_opening(moves),
        0 <= k < moves.len(),
    ensures
        2 <= rank(moves[k].stage) < 14 ==> recovery_found_nothing(moves, k),
        choice_at(moves[k].stage) matches Some(choice) ==> scan_found(moves, k, choice),
    decreases k,
{
    if k > 0 {
        lemma_choice_is_found(moves, k - 1);
        let m = moves[k - 1];
        assert(m.next == moves[k].stage);
        if choice_at(m.stage) is Some && choice_at(m.next) is Some {
            assert(choice_at(m.stage) == choice_at(m.next));
        }
    }
}

/// The limits that are held at a stage came from the venues, and the book of the
/// market was asked for and read.
proof fn lemma_limits_are_heard(moves: Seq<OpenMove>, k: int)
    requires
        is_opening(moves),
        0 <= k < moves.len(),
    ensures
        moves[k].stage matches OpenStage::AwaitPacificaFree(_, ef) ==> extended_free_was(
            moves,
            k,
            ef,
        ),
        moves[k].stage matches OpenStage::AwaitExtendedLot(c, ef, pf) ==> extended_free_was(
            moves,
            k,
            ef,
        ) && pacifica_free_was(moves, k, pf) && extended_lot_was_asked(moves, k, c.extended_market),
        moves[k].stage matches OpenStage::AwaitPacificaMarkets(c, ef, pf, el) ==> extended_free_was(
            moves,
            k,
            ef,
        ) && pacifica_free_was(moves, k, pf) && extended_lot_was(moves, k, c.extended_market, el),
        moves[k].stage matches OpenStage::AwaitBook(c, limits) ==> limits_were(moves, k, c, limits)
            && book_was_asked(moves, k, c.extended_market),
        moves[k].stage matches OpenStage::AwaitPrice(c, limits) ==> limits_were(moves, k, c, limits)
            && book_was_read(moves, k, c.extended_market),
    decreases k,
{
    if k > 0 {
        lemma_limits_are_heard(moves, k - 1);
        let m = moves[k - 1];
        assert(m.next == moves[k].stage);
    }
}

proof fn lemma_size_is_asked(moves: Seq<OpenMove>, k: int)
    requires
        is_opening(moves),
        0 <= k < moves.len(),
    ensures
        moves[k].stage matches OpenStage::AwaitSize(c, price) ==> size_was_asked(
            moves,
            k,
            c,
            price,
        ) && price_was(moves, k, c.extended_market, price),
    decreases k,
{
    if k > 0 {
        lemma_size_is_asked(moves, k - 1);
        lemma_limits_are_heard(moves, k - 1);
        let m = moves[k - 1];
        assert(m.next == moves[k].stage);
        if m.stage is AwaitPrice && m.next is AwaitSize {
            let c = m.stage->AwaitPrice_0;
            let limits = m.stage->AwaitPrice_1;
            assert(limits_were(moves, k - 1, c, limits));
        }
        if m.stage is AwaitSize && m.next is AwaitSize {
            assert(m.stage == m.next);
        }
    }
}

proof fn lemma_trade_is_prepared(moves: Seq<OpenMove>, k: int)
    requires
        is_opening(moves),
        0 <= k < moves.len(),
    ensures
        moves[k].stage matches OpenStage::AwaitExtendedLeverage(t) ==> {
            &&& size_was(moves, k, t.choice, t.price, t.size)
            &&& price_was(moves, k, t.choice.extended_market, t.price)
            &&& !t.size.spec_at_most_zero()
            &&& exists|i: int|
                0 <= i < k && ((#[trigger] moves[i]).action matches OpenAction::SetExtendedLeverage(
                    m,
                    leverage,
                ) && m == t.choice.extended_market && leverage@ == extended_leverage())
        },
        moves[k].stage matches OpenStage::AwaitPacificaLeverage(t) ==> {
            &&& size_was(moves, k, t.choice, t.price, t.size)
            &&& price_was(moves, k, t.choice.extended_market, t.price)
            &&& !t.size.spec_at_most_zero()
            &&& extended_leverage_was_set(moves, k, t.choice.extended_market)
            &&& pacifica_leverage_was_asked(moves, k, t.choice.symbol)
        },
    decreases k,
{
    if k > 0 {
        lemma_trade_is_prepared(moves, k - 1);
        lemma_size_is_asked(moves, k - 1);
        let m = moves[k - 1];
        assert(m.next == moves[k].stage);
    }
}

/// A position is opened only after the venues were found to hold none that the bot
/// does not know of, in the best opportunity of a scan, at the price taken from the
/// order book of its market, with the size that was worked out at that price from the
/// limits of both venues and that is above zero or not a number, and after the
/// leverage was set to one on both venues for it.
pub proof fn law_a_position_is_opened_only_when_prepared(moves: Seq<OpenMove>, k: int)
    requires
        is_opening(moves),
        0 <= k < moves.len(),
        moves[k].action is OpenPosition,
    ensures
        ({
            let trade = moves[k].action->OpenPosition_0;
            &&& recovery_found_nothing(moves, k)
            &&& scan_found(moves, k, trade.choice)
            &&& price_was(moves, k, trade.choice.extended_market, trade.price)
            &&& size_was(moves, k, trade.choice, trade.price, trade.size)
            &&& !trade.size.spec_at_most_zero()
            &&& extended_leverage_was_set(moves, k, trade.choice.extended_market)
            &&& pacifica_leverage_was_asked(moves, k, trade.choice.symbol)
            &&& moves[k].event matches OpenEvent::PacificaLeverage(answer) && answer is Ok
        }),
{
    lemma_choice_is_found(moves, k);
    lemma_trade_is_prepared(moves, k);
}

/// An opening opens one position at most.
pub proof fn law_a_position_is_opened_once(moves: Seq<OpenMove>, i: int, j: int)
    requires
        is_opening(moves),
        0 <= i < moves.len(),
        0 <= j < moves.len(),
        moves[i].action is OpenPosition,
        moves[j].action is OpenPosition,
    ensures
        i == j,
{
    if i < j {
        lemma_rank_grows(moves, i, j);
    }
    if j < i {
        lemma_rank_grows(moves, j, i);
    }
}

/// Where the leverage could not be set on one venue, no position is opened.
pub proof fn law_failed_leverage_opens_nothing(moves: Seq<OpenMove>, i: int, k: int)
    requires
        is_opening(moves),
        0 <= i < moves.len(),
        0 <= k < moves.len(),
        (moves[i].stage is AwaitExtendedLeverage && (
        moves[i].event matches OpenEvent::ExtendedLeverage(answer) && answer is Err)) || (
        moves[i].stage is AwaitPacificaLeverage && (
        moves[i].event matches OpenEvent::PacificaLeverage(answer) && answer is Err)),
    ensures
        moves[i].action is Fail,
        !(moves[k].action is OpenPosition),
{
    if i < k {
        lemma_rank_grows(moves, i, k);
    }
    if k < i {
        lemma_rank_grows(moves, k, i);
    }
}

proof fn lemma_opened_state(moves: Seq<OpenMove>, k: int)
    requires
        is_opening(moves),
        0 <= k < moves.len(),
        moves[k].stage is AwaitSave,
    ensures
        exists|i: int|
            0 <= i < k && ((#[trigger] moves[i]).event matches OpenEvent::Opened(Ok(pos)) && (
            moves[i].now matches Some(t) && moves[k].before == state_with_opened(
                moves[i].before,
                pos,
                t,
            ))),
    decreases k,
{
    let m = moves[k - 1];
    assert(m.next == moves[k].stage);
    if m.stage is AwaitSave {
        lemma_opened_state(moves, k - 1);
        let i = choose|i: int|
            0 <= i < k - 1 && ((#[trigger] moves[i]).event matches OpenEvent::Opened(Ok(pos)) && (
            moves[i].now matches Some(t) && moves[k - 1].before == state_with_opened(
                moves[i].before,
                pos,
                t,
            )));
        assert(moves[i].event is Opened);
    } else {
        assert(m.event is Opened);
    }
}

/// Where an opening reports a position as opened, the state holds that position,
/// dates the rotation and counts it.
pub proof fn law_an_opened_position_is_tracked(moves: Seq<OpenMove>, k: int)
    requires
        is_opening(moves),
        0 <= k < moves.len(),
        moves[k].action == OpenAction::Finish(OpenOutcome::Opened),
    ensures
        exists|i: int|
            0 <= i < k && ((#[trigger] moves[i]).event matches OpenEvent::Opened(Ok(pos)) && (
            moves[i].now matches Some(t) && moves[k].after == state_with_opened(
                moves[i].before,
                pos,
                t,
            ))),
{
    lemma_opened_state(moves, k);
}

/// After an opening that went well the state holds the position that the opening reported,
/// in every field, whatever the state was before. The rotation is dated by the clock and
/// counted, or, where the clock cannot tell the time, neither.
pub proof fn law_the_opened_position_is_held_as_reported(
    before: BotState,
    pos: DeltaNeutralPosition,
    now: Option<u64>,
    after: BotState,
    next: OpenStage,
    action: OpenAction,
)
    requires
        open_follows(
            before,
            OpenStage::AwaitOpen,
            OpenEvent::Opened(Ok(pos)),
            now,
            after,
            next,
            action,
        ),
    ensures
        after.current_position matches Some(held) && {
            &&& held == pos
            &&& held.symbol == pos.symbol
            &&& held.extended_position == pos.extended_position
            &&& held.pacifica_position == pos.pacifica_position
            &&& held.opened_at == pos.opened_at
            &&& held.target_notional_usd == pos.target_notional_usd
        },
        now matches Some(t) ==> {
            &&& after.last_rotation_time == Some(t)
            &&& before.total_rotations < u64::MAX ==> after.total_rotations
                == before.total_rotations + 1
            &&& next is AwaitSave
            &&& action is SaveState
        },
        now is None ==> {
            &&& after.last_rotation_time == before.last_rotation_time
            &&& after.total_rotations == before.total_rotations
            &&& next is Finished
            &&& action == OpenAction::Fail(OpenFailure::Clock)
        },
{
}

/// Nothing but an opened position changes the state.
pub proof fn law_only_an_opened_position_changes_the_state(
    before: BotState,
    stage: OpenStage,
    event: OpenEvent,
    now: Option<u64>,
    after: BotState,
    next: OpenStage,
    action: OpenAction,
)
    requires
        open_follows(before, stage, event, now, after, next, action),
    ensures
        after == before || (stage is AwaitOpen && (event matches OpenEvent::Opened(answer)
            && answer is Ok)),
        action is SaveState <==> stage is AwaitOpen && (event matches OpenEvent::Opened(answer)
            && answer is Ok) && now is Some,
{
}

/// An opening first looks for live positions, and scans for opportunities exactly where
/// there are none that it does not know of.
pub proof fn law_an_opening_scans_only_a_clear_account(
    before: BotState,
    stage: OpenStage,
    event: OpenEvent,
    now: Option<u64>,
    after: BotState,
    next: OpenStage,
    action: OpenAction,
)
    requires
        open_follows(before, stage, event, now, after, next, action),
    ensures
        action is Recover <==> stage is Start && event is Begin,
        action is Recover ==> next is AwaitRecovery,
        action is Scan <==> stage is AwaitRecovery && event == OpenEvent::Recovery(
            Ok(RecoveryOutcome::NoAction),
        ),
        action is Scan ==> next is AwaitScan,
{
}

/// The first opportunity of a scan is the one that is chosen, with its symbol, the market
/// of that symbol on the Extended venue, and the venue to be long on that its words name.
pub proof fn law_the_first_opportunity_is_chosen(
    before: BotState,
    stage: OpenStage,
    event: OpenEvent,
    now: Option<u64>,
    after: BotState,
    next: OpenStage,
    action: OpenAction,
)
    requires
        open_follows(before, stage, event, now, after, next, action),
    ensures
        action is QueryExtendedFree <==> stage is AwaitScan && (event matches OpenEvent::Scan(
            Ok(found),
        ) && found@.len() > 0),
        action is QueryExtendedFree ==> (next matches OpenStage::AwaitExtendedFree(choice)
            && event matches OpenEvent::Scan(Ok(found)) && {
            &&& choice.symbol == found@[0].symbol
            &&& choice.extended_market@ == found@[0].symbol@ + "-USD"@
            &&& choice.long_on_extended <==> occurs_in(
                found@[0].best_direction@,
                "Long Extended"@,
            )
        }),
{
}

/// What is asked of the venues, in its order: the free collateral on both, the steps of
/// order sizes on both, and the order book, each for what was chosen. Each answer is kept as
/// it came.
pub proof fn law_the_answers_of_the_venues_are_kept(
    before: BotState,
    stage: OpenStage,
    event: OpenEvent,
    now: Option<u64>,
    after: BotState,
    next: OpenStage,
    action: OpenAction,
)
    requires
        open_follows(before, stage, event, now, after, next, action),
    ensures
        action is QueryPacificaFree <==> stage is AwaitExtendedFree && (
        event matches OpenEvent::ExtendedFree(answer) && answer is Ok),
        action is QueryPacificaFree ==> (next matches OpenStage::AwaitPacificaFree(c, ef) && stage
            == OpenStage::AwaitExtendedFree(c) && event == OpenEvent::ExtendedFree(Ok(ef))),
        action is QueryExtendedLot <==> stage is AwaitPacificaFree && (
        event matches OpenEvent::PacificaFree(answer) && answer is Ok),
        action matches OpenAction::QueryExtendedLot(market) ==> (
        next matches OpenStage::AwaitExtendedLot(c, ef, pf) && stage
            == OpenStage::AwaitPacificaFree(c, ef) && event == OpenEvent::PacificaFree(Ok(pf))
            && market == c.extended_market),
        action is QueryPacificaMarkets <==> stage is AwaitExtendedLot && (
        event matches OpenEvent::ExtendedLot(answer) && answer is Ok),
        action is QueryPacificaMarkets ==> (next matches OpenStage::AwaitPacificaMarkets(
            c,
            ef,
            pf,
            el,
        ) && stage == OpenStage::AwaitExtendedLot(c, ef, pf) && event == OpenEvent::ExtendedLot(
            Ok(el),
        )),
{
}

proof fn lemma_first_market(markets: Seq<PacificaMarket>, symbol: Seq<char>)
    ensures
        match first_where(markets, pacifica_market_is(symbol)) {
            Some(found) => exists|i: int|
                0 <= i < markets.len() && #[trigger] markets[i] == found && found.symbol@ == symbol && (
                forall|j: int| 0 <= j < i ==> (#[trigger] markets[j]).symbol@ != symbol),
            None => forall|j: int|
                0 <= j < markets.len() ==> (#[trigger] markets[j]).symbol@ != symbol,
        },
{
    let wanted = pacifica_market_is(symbol);
    lemma_first_where(markets, wanted);
    match first_where(markets, wanted) {
        Some(found) => {
            let i = choose|i: int|
                0 <= i < markets.len() && markets[i] == found && wanted(markets[i]) && (forall|j: int|
                    0 <= j < i ==> !wanted(#[trigger] markets[j]));
            assert(markets[i] == found);
            assert forall|j: int| 0 <= j < i implies (#[trigger] markets[j]).symbol@ != symbol by {
                assert(!wanted(markets[j]));
            }
        },
        None => {
            assert forall|j: int| 0 <= j < markets.len() implies (
            #[trigger] markets[j]).symbol@ != symbol by {
                assert(!wanted(markets[j]));
            }
        },
    }
}

/// The order book is asked for exactly where the Pacifica venue has a market of the symbol
/// whose step of order sizes can be read, and that step is kept beside the other limits.
/// Of several markets of the symbol the first counts.
pub proof fn law_the_lot_of_the_symbol_is_kept(
    before: BotState,
    stage: OpenStage,
    event: OpenEvent,
    now: Option<u64>,
    after: BotState,
    next: OpenStage,
    action: OpenAction,
)
    requires
        open_follows(before, stage, event, now, after, next, action),
    ensures
        action is QueryBook ==> stage is AwaitPacificaMarkets && (
        event matches OpenEvent::PacificaMarkets(answer) && answer is Ok),
        match (stage, event) {
            (
                OpenStage::AwaitPacificaMarkets(c, ef, pf, el),
                OpenEvent::PacificaMarkets(Ok(markets)),
            ) => {
            &&& action is QueryBook || action is Fail
            &&& action matches OpenAction::QueryBook(market) ==> market == c.extended_market && (
            next matches OpenStage::AwaitBook(chosen, limits) && {
                &&& chosen == c
                &&& limits.extended_free == ef
                &&& limits.pacifica_free == pf
                &&& limits.extended_lot == el
                &&& exists|i: int|
                    0 <= i < markets@.len() && (#[trigger] markets@[i]).symbol@ == c.symbol@
                        && markets@[i].lot_size == Ok::<Amount, String>(limits.pacifica_lot) && (
                    forall|j: int| 0 <= j < i ==> (#[trigger] markets@[j]).symbol@ != c.symbol@)
            })
            &&& action == OpenAction::Fail(OpenFailure::MarketMissing(c.symbol)) <==> forall|j: int|
                0 <= j < markets@.len() ==> (#[trigger] markets@[j]).symbol@ != c.symbol@
            },
            _ => true,
        },
{
    if let (
        OpenStage::AwaitPacificaMarkets(c, ef, pf, el),
        OpenEvent::PacificaMarkets(Ok(markets)),
    ) = (stage, event) {
        lemma_first_market(markets@, c.symbol@);
        match first_where(markets@, pacifica_market_is(c.symbol@)) {
            Some(found) => {
                let i = choose|i: int|
                    0 <= i < markets@.len() && #[trigger] markets@[i] == found && found.symbol@
                        == c.symbol@ && (forall|j: int|
                        0 <= j < i ==> (#[trigger] markets@[j]).symbol@ != c.symbol@);
                assert(markets@[i].symbol@ == c.symbol@);
                assert(action != OpenAction::Fail(OpenFailure::MarketMissing(c.symbol)));
                if action is QueryBook {
                    let limits = next->AwaitBook_1;
                    assert(markets@[i].lot_size == Ok::<Amount, String>(limits.pacifica_lot));
                }
            },
            None => {
                assert(action == OpenAction::Fail(OpenFailure::MarketMissing(c.symbol)));
            },
        }
    }
}

/// The price is taken from the best offers of the order book where it has both, and the size
/// is asked for with the limits at that price.
pub proof fn law_price_and_size_are_taken_from_the_book(
    before: BotState,
    stage: OpenStage,
    event: OpenEvent,
    now: Option<u64>,
    after: BotState,
    next: OpenStage,
    action: OpenAction,
)
    requires
        open_follows(before, stage, event, now, after, next, action),
    ensures
        action is TakePrice <==> stage is AwaitBook && (event matches OpenEvent::Book(Ok(book))
            && book.bid@.len() > 0 && book.ask@.len() > 0),
        action matches OpenAction::TakePrice(bid, ask) ==> (event matches OpenEvent::Book(Ok(book))
            && bid == book.bid@[0].price && ask == book.ask@[0].price),
        action is TakePrice ==> (next matches OpenStage::AwaitPrice(c, limits) && stage
            == OpenStage::AwaitBook(c, limits)),
        action is TakeSize <==> stage is AwaitPrice && (event matches OpenEvent::Price(answer)
            && answer is Ok),
        action matches OpenAction::TakeSize(limits, price) ==> event == OpenEvent::Price(Ok(price))
            && (next matches OpenStage::AwaitSize(c, at) && at == price && stage
            == OpenStage::AwaitPrice(c, limits)),
{
}

/// The leverage is set to one on the Extended venue exactly where the size is not zero or
/// less, on the Pacifica venue exactly where that went well, and the position is opened
/// exactly where this went well too: for what was chosen, at the price and with the size that
/// were worked out.
pub proof fn law_leverage_is_set_before_the_position_is_opened(
    before: BotState,
    stage: OpenStage,
    event: OpenEvent,
    now: Option<u64>,
    after: BotState,
    next: OpenStage,
    action: OpenAction,
)
    requires
        open_follows(before, stage, event, now, after, next, action),
    ensures
        action is SetExtendedLeverage <==> stage is AwaitSize && (event matches OpenEvent::Size(size)
            && (size.is_nan() || size.rank() > 0)),
        action matches OpenAction::SetExtendedLeverage(market, leverage) ==> leverage@ == "1"@ && (
        next matches OpenStage::AwaitExtendedLeverage(trade) && stage == OpenStage::AwaitSize(
            trade.choice,
            trade.price,
        ) && event == OpenEvent::Size(trade.size) && market == trade.choice.extended_market),
        action is SetPacificaLeverage <==> stage is AwaitExtendedLeverage && (
        event matches OpenEvent::ExtendedLeverage(answer) && answer is Ok),
        action matches OpenAction::SetPacificaLeverage(symbol, leverage) ==> leverage == 1 && (
        next matches OpenStage::AwaitPacificaLeverage(trade) && stage
            == OpenStage::AwaitExtendedLeverage(trade) && symbol == trade.choice.symbol),
        action is OpenPosition <==> stage is AwaitPacificaLeverage && (
        event matches OpenEvent::PacificaLeverage(answer) && answer is Ok),
        action matches OpenAction::OpenPosition(trade) ==> next is AwaitOpen && stage
            == OpenStage::AwaitPacificaLeverage(trade),
{
}

/// An opening ends well in three cases: a live position was taken up; a scan found nothing;
/// or the opened position is in the state and on disk.
pub proof fn law_how_an_opening_ends_well(
    before: BotState,
    stage: OpenStage,
    event: OpenEvent,
    now: Option<u64>,
    after: BotState,
    next: OpenStage,
    action: OpenAction,
)
    requires
        open_follows(before, stage, event, now, after, next, action),
    ensures
        action == OpenAction::Finish(OpenOutcome::Recovered) <==> stage is AwaitRecovery && event
            == OpenEvent::Recovery(Ok(RecoveryOutcome::Recovered)),
        action == OpenAction::Finish(OpenOutcome::NothingFound) <==> stage is AwaitScan && (
        event matches OpenEvent::Scan(Ok(found)) && found@.len() == 0),
        action == OpenAction::Finish(OpenOutcome::Opened) <==> stage is AwaitSave && (
        event matches OpenEvent::Saved(answer) && answer is Ok),
        action is Finish || action is Fail ==> next is Finished,
{
}

/// An opening fails only where something that it needs failed or is not there, and the
/// failure carries the reason as it came.
pub proof fn law_how_an_opening_fails(
    before: BotState,
    stage: OpenStage,
    event: OpenEvent,
    now: Option<u64>,
    after: BotState,
    next: OpenStage,
    action: OpenAction,
)
    requires
        open_follows(before, stage, event, now, after, next, action),
    ensures
        action matches OpenAction::Fail(failure) ==> match failure {
            OpenFailure::Query(e) => {
                ||| stage is AwaitRecovery && event == OpenEvent::Recovery(Err(e))
                ||| stage is AwaitScan && event == OpenEvent::Scan(Err(e))
                ||| stage is AwaitExtendedFree && event == OpenEvent::ExtendedFree(Err(e))
                ||| stage is AwaitPacificaFree && event == OpenEvent::PacificaFree(Err(e))
                ||| stage is AwaitExtendedLot && event == OpenEvent::ExtendedLot(Err(e))
                ||| stage is AwaitPacificaMarkets && (
                event matches OpenEvent::PacificaMarkets(answer) && (match answer {
                    Err(cause) => cause == e,
                    Ok(markets) => exists|i: int|
                        0 <= i < markets@.len() && (#[trigger] markets@[i]).lot_size == Err::<
                            Amount,
                            String,
                        >(e) && markets@[i].symbol@
                            == stage->AwaitPacificaMarkets_0.symbol@,
                }))
                ||| stage is AwaitBook && event == OpenEvent::Book(Err(e))
                ||| stage is AwaitPrice && event == OpenEvent::Price(Err(e))
            },
            OpenFailure::Blocked(details) => stage is AwaitRecovery && event
                == OpenEvent::Recovery(Ok(RecoveryOutcome::Blocked(details))),
            OpenFailure::MarketMissing(symbol) => stage is AwaitPacificaMarkets && symbol
                == stage->AwaitPacificaMarkets_0.symbol,
            OpenFailure::EmptyBook => stage is AwaitBook && (event matches OpenEvent::Book(Ok(book))
                && (book.bid@.len() == 0 || book.ask@.len() == 0)),
            OpenFailure::InsufficientCapital => stage is AwaitSize && (
            event matches OpenEvent::Size(size) && !size.is_nan() && size.rank() <= 0),
            OpenFailure::ExtendedLeverage(market, e) => stage is AwaitExtendedLeverage && event
                == OpenEvent::ExtendedLeverage(Err(e)) && market
                == stage->AwaitExtendedLeverage_0.choice.extended_market,
            OpenFailure::PacificaLeverage(symbol, e) => stage is AwaitPacificaLeverage && event
                == OpenEvent::PacificaLeverage(Err(e)) && symbol
                == stage->AwaitPacificaLeverage_0.choice.symbol,
            OpenFailure::Open(e) => stage is AwaitOpen && event == OpenEvent::Opened(Err(e)),
            OpenFailure::Clock => stage is AwaitOpen && event is Opened && now is None,
            OpenFailure::Save(e) => stage is AwaitSave && event == OpenEvent::Saved(Err(e)),
        },
{
    if let (
        OpenStage::AwaitPacificaMarkets(c, ef, pf, el),
        OpenEvent::PacificaMarkets(Ok(markets)),
    ) = (stage, event) {
        lemma_first_market(markets@, c.symbol@);
    }
}

/// The event is the one that the stage waits for.
pub open spec fn is_awaited(stage: OpenStage, event: OpenEvent) -> bool {
    match event {
        OpenEvent::Begin => stage is Start,
        OpenEvent::Recovery(_) => stage is AwaitRecovery,
        OpenEvent::Scan(_) => stage is AwaitScan,
        OpenEvent::ExtendedFree(_) => stage is AwaitExtendedFree,
        OpenEvent::PacificaFree(_) => stage is AwaitPacificaFree,
        OpenEvent::ExtendedLot(_) => stage is AwaitExtendedLot,
        OpenEvent::PacificaMarkets(_) => stage is AwaitPacificaMarkets,
        OpenEvent::Book(_) => stage is AwaitBook,
        OpenEvent::Price(_) => stage is AwaitPrice,
        OpenEvent::Size(_) => stage is AwaitSize,
        OpenEvent::ExtendedLeverage(_) => stage is AwaitExtendedLeverage,
        OpenEvent::PacificaLeverage(_) => stage is AwaitPacificaLeverage,
        OpenEvent::Opened(_) => stage is AwaitOpen,
        OpenEvent::Saved(_) => stage is AwaitSave,
    }
}

/// An event that is waited for always brings the opening on, and one that is not changes
/// nothing.
pub proof fn law_only_awaited_events_move_an_opening(
    before: BotState,
    stage: OpenStage,
    event: OpenEvent,
    now: Option<u64>,
    after: BotState,
    next: OpenStage,
    action: OpenAction,
)
    requires
        open_follows(before, stage, event, now, after, next, action),
    ensures
        action is Await <==> !is_awaited(stage, event),
        action is Await ==> after == before && next == stage,
{
}

/// A failure that came in from outside is told as it came or with what failed in front of it, and
/// a refusal to open names the market or the symbol, the venue whose leverage is unknown and the
/// reason.
pub proof fn law_how_a_failed_opening_is_told(reason: String, name: String)
    ensures
        OpenFailure::Query(reason).message() == reason@,
        OpenFailure::Save(reason).message() == reason@,
        OpenFailure::Open(reason).message() == "Failed to open position: "@ + reason@,
        OpenFailure::Blocked(reason).message()
            == "Live positions exist while bot state is empty. Aborting open to prevent duplicates. "@
            + reason@,
        OpenFailure::MarketMissing(name).message() == "Pacifica market "@ + name@ + " not found"@,
        begins_with(
            OpenFailure::ExtendedLeverage(name, reason).message(),
            "Refusing to open "@ + name@ + ": could not set Extended leverage to 1x ("@ + reason@,
        ),
        begins_with(
            OpenFailure::PacificaLeverage(name, reason).message(),
            "Refusing to open "@ + name@ + ": could not set Pacifica leverage to 1x ("@ + reason@,
        ),
        OpenFailure::EmptyBook.message() == "No orderbook data available"@,
        OpenFailure::InsufficientCapital.message() == "Insufficient capital to open position"@,
{
    let extended = "Refusing to open "@ + name@ + ": could not set Extended leverage to 1x ("@
        + reason@;
    let pacifica = "Refusing to open "@ + name@ + ": could not set Pacifica leverage to 1x ("@
        + reason@;
    let whole_extended = OpenFailure::ExtendedLeverage(name, reason).message();
    let whole_pacifica = OpenFailure::PacificaLeverage(name, reason).message();
    assert(whole_extended.subrange(0, extended.len() as int) =~= extended);
    assert(whole_pacifica.subrange(0, pacifica.len() as int) =~= pacifica);
}

} // verus!
