use extended_connector::amount::Amount;
use extended_connector::bot::{extended_market, market_symbol, FundingBot, MONITORING_INTERVAL_MINUTES};
use extended_connector::close::{
    count_open_on_extended, count_open_on_pacifica, CloseAction, CloseEvent, CloseFailure,
    CloseOutcome, CloseStage,
};
use extended_connector::live::{
    examine_live, FetchStep, LiveFinding, RecoverAction, RecoverEvent, RecoverStage,
    RecoveryOutcome, FIRST_ATTEMPT, LIVE_POSITIONS_MAX_ATTEMPTS,
};
use extended_connector::open::{
    OpenAction, OpenEvent, OpenFailure, OpenOutcome, OpenStage, Trade, PACIFICA_LEVERAGE,
};
use extended_connector::reconcile::{ReconcileAction, ReconcileEvent, ReconcileStage};
use extended_connector::run::{RunAction, RunEvent, RunStage};
use extended_connector::state::{BotState, ClockFault};
use extended_connector::status::{leg_word, status_title, CellStyle, StatusRow, StatusValue};
use extended_connector::types::{
    DeltaNeutralPosition, Opportunity, OrderBook, PacificaMarket, PacificaPosition, Position,
    PositionSide, PriceLevel,
};

fn amount(x: f64) -> Amount {
    Amount { bits: x.to_bits() }
}

fn extended(market: &str, size: f64, value: f64) -> Position {
    Position {
        market: market.to_string(),
        side: PositionSide::Long,
        size: amount(size),
        value: amount(value),
        unrealized_pnl: Some(amount(-1.25)),
    }
}

fn pacifica(symbol: &str, size: f64, created_at: i64) -> PacificaPosition {
    PacificaPosition {
        symbol: symbol.to_string(),
        side: "ask".to_string(),
        amount: amount(size),
        entry: amount(100.0),
        notional: amount(size * 100.0),
        created_at,
    }
}

fn pair(symbol: &str, opened_at: u64) -> DeltaNeutralPosition {
    DeltaNeutralPosition {
        symbol: symbol.to_string(),
        extended_position: Some(extended(&format!("{}-USD", symbol), 1.0, 100.0)),
        pacifica_position: Some(pacifica(symbol, 1.0, 0)),
        opened_at,
        target_notional_usd: amount(100.0),
    }
}

fn bot(position: Option<DeltaNeutralPosition>) -> FundingBot {
    let state = BotState { current_position: position, last_rotation_time: None, total_rotations: 0 };
    FundingBot::new(24, state, "state/bot_state.json".to_string())
}

fn err<T>() -> Result<T, String> {
    Err("down".to_string())
}

#[test]
fn a_bot_holds_what_it_is_given() {
    let bot = bot(Some(pair("BTC", 5)));
    assert_eq!(bot.hold_time_hours, 24);
    assert_eq!(bot.state_path, "state/bot_state.json");
    assert_eq!(bot.state.current_position.unwrap().symbol, "BTC");
    assert_eq!(MONITORING_INTERVAL_MINUTES, 15);
}

#[test]
fn markets_are_named_after_symbols() {
    assert_eq!(extended_market("BTC"), "BTC-USD");
    assert_eq!(market_symbol("BTC-USD"), "BTC");
    assert_eq!(market_symbol("BTC"), "BTC");
    assert_eq!(market_symbol(&extended_market("1000PEPE")), "1000PEPE");
}

#[test]
fn a_single_leg_is_an_imbalance() {
    let mut bot = bot(Some(pair("BTC", 5)));
    assert!(!bot.is_imbalanced());
    bot.state.current_position.as_mut().unwrap().pacifica_position = None;
    assert!(bot.is_imbalanced());
    bot.state.current_position.as_mut().unwrap().extended_position = None;
    assert!(!bot.is_imbalanced());
    bot.state.current_position = None;
    assert!(!bot.is_imbalanced());
}

#[test]
fn live_positions_are_asked_for_six_times() {
    let text = |step: FetchStep| match step {
        FetchStep::Retry(next, t) => format!("retry {} {}", next, t),
        FetchStep::GiveUp(t) => format!("give up {}", t),
        FetchStep::Done(e, p) => format!("{} {}", e.len(), p.len()),
    };
    assert_eq!(LIVE_POSITIONS_MAX_ATTEMPTS, 6);
    assert_eq!(FIRST_ATTEMPT, 1);
    let fetch = FundingBot::fetch_live_positions_with_backoff;
    assert_eq!(text(fetch(1, err(), err())), "retry 2 Extended: down | Pacifica: down");
    assert_eq!(text(fetch(5, err(), Ok(vec![]))), "retry 6 Extended: down");
    assert_eq!(text(fetch(6, Ok(vec![]), err())), "give up Pacifica: down");
    assert_eq!(text(fetch(6, Ok(vec![extended("A-USD", 1.0, 1.0)]), Ok(vec![]))), "1 0");
}

#[test]
fn live_positions_are_told_apart() {
    assert!(matches!(examine_live(&vec![], &vec![]), LiveFinding::Flat));
    let both = examine_live(&vec![extended("BTC-USD", 1.0, 1.0)], &vec![pacifica("BTC", 1.0, 0)]);
    assert!(matches!(both, LiveFinding::Single(s) if s == "BTC"));
    let one = examine_live(&vec![], &vec![pacifica("ETH", 1.0, 0)]);
    assert!(matches!(one, LiveFinding::Single(s) if s == "ETH"));
    // A symbol on both venues is the pair, whatever else is there.
    let more = examine_live(
        &vec![extended("SOL-USD", 1.0, 1.0), extended("BTC-USD", 1.0, 1.0)],
        &vec![pacifica("BTC", 1.0, 0)],
    );
    assert!(matches!(more, LiveFinding::Single(s) if s == "BTC"));
    let unclear = examine_live(
        &vec![extended("SOL-USD", 1.0, 1.0), extended("BTC-USD", 1.0, 1.0)],
        &vec![pacifica("ETH", 1.0, 0)],
    );
    match unclear {
        LiveFinding::Unclear(text) => assert_eq!(
            text,
            "extended: 2 position(s) [BTC, SOL]; pacifica: 1 position(s) [ETH]; overlap: []"
        ),
        _ => panic!("these are no pair"),
    }
}

#[test]
fn a_live_pair_is_taken_up() {
    let mut bot = bot(None);
    let (stage, action) = bot.recover_state_at(RecoverStage::Start, RecoverEvent::Begin, Some(9));
    assert!(matches!(action, RecoverAction::FetchLive));
    let live = RecoverEvent::Live(Ok((
        vec![extended("BTC-USD", 2.0, 150.0)],
        vec![pacifica("BTC", 2.0, 1_700_000_000_999)],
    )));
    let (stage, action) = bot.recover_state_at(stage, live, Some(9));
    assert!(matches!(action, RecoverAction::SaveState));
    let position = bot.state.current_position.as_ref().unwrap();
    assert_eq!(position.symbol, "BTC");
    assert_eq!(position.opened_at, 1_700_000_000);
    assert_eq!(position.target_notional_usd, amount(200.0));
    assert!(position.extended_position.is_some() && position.pacifica_position.is_some());
    assert_eq!(bot.state.last_rotation_time, Some(1_700_000_000));
    let (_, action) = bot.recover_state_at(stage, RecoverEvent::Saved(Ok(())), Some(9));
    assert!(matches!(action, RecoverAction::Finish(RecoveryOutcome::Recovered)));
}

#[test]
fn a_leg_without_a_date_is_dated_by_the_clock() {
    let mut bot = bot(None);
    bot.state.last_rotation_time = Some(3);
    let live = || RecoverEvent::Live(Ok((vec![extended("BTC-USD", 2.0, -1.0)], vec![])));
    let (_, action) = bot.recover_state_at(RecoverStage::AwaitLive, live(), None);
    assert!(matches!(action, RecoverAction::ClockFault(ClockFault::BeforeEpoch)));
    assert!(bot.state.current_position.is_none());
    let (_, action) = bot.recover_state_at(RecoverStage::AwaitLive, live(), Some(77));
    assert!(matches!(action, RecoverAction::SaveState));
    let position = bot.state.current_position.as_ref().unwrap();
    assert_eq!(position.opened_at, 77);
    assert_eq!(position.target_notional_usd, amount(0.0));
    assert_eq!(bot.state.last_rotation_time, Some(3));
}

#[test]
fn the_recovery_reads_the_clock() {
    let mut bot = bot(None);
    let live = RecoverEvent::Live(Ok((vec![], vec![pacifica("ETH", 1.0, 0)])));
    let (_, action) = bot.recover_state_if_untracked(RecoverStage::AwaitLive, live);
    assert!(matches!(action, RecoverAction::SaveState));
    // The clock of a machine that runs this stands after 2023.
    assert!(bot.state.current_position.unwrap().opened_at > 1_700_000_000);
}

#[test]
fn a_tracked_position_needs_no_recovery() {
    let mut bot = bot(Some(pair("BTC", 5)));
    let (_, action) = bot.recover_state_at(RecoverStage::Start, RecoverEvent::Begin, Some(9));
    assert!(matches!(action, RecoverAction::Finish(RecoveryOutcome::NoAction)));
    assert_eq!(bot.state.current_position.unwrap().opened_at, 5);
}

#[test]
fn unclear_or_unanswered_positions_stop_the_recovery() {
    let mut bot = bot(None);
    let unclear = RecoverEvent::Live(Ok((
        vec![extended("SOL-USD", 1.0, 1.0)],
        vec![pacifica("ETH", 1.0, 0)],
    )));
    let (_, action) = bot.recover_state_at(RecoverStage::AwaitLive, unclear, Some(9));
    assert!(matches!(action, RecoverAction::Finish(RecoveryOutcome::Blocked(_))));
    let (_, action) = bot.recover_state_at(RecoverStage::AwaitLive, RecoverEvent::Live(err()), Some(9));
    assert!(matches!(action, RecoverAction::Fail(e) if e == "down"));
    let flat = RecoverEvent::Live(Ok((vec![], vec![])));
    let (_, action) = bot.recover_state_at(RecoverStage::AwaitLive, flat, Some(9));
    assert!(matches!(action, RecoverAction::Finish(RecoveryOutcome::NoAction)));
    let (_, action) = bot.recover_state_at(RecoverStage::AwaitSave, RecoverEvent::Saved(err()), Some(9));
    assert!(matches!(action, RecoverAction::Fail(e) if e == "down"));
    assert!(bot.state.current_position.is_none());
}

/// Reconciles with these answers, and gives the last action.
fn reconcile(
    bot: &mut FundingBot,
    ext: Result<Vec<Position>, String>,
    pac: Result<Option<PacificaPosition>, String>,
) -> ReconcileAction {
    let (stage, action) = bot.reconcile_state(ReconcileStage::Start, ReconcileEvent::Begin);
    assert!(matches!(action, ReconcileAction::QueryExtended(s) if s == "BTC"));
    let (stage, action) = bot.reconcile_state(stage, ReconcileEvent::Extended(ext));
    match action {
        ReconcileAction::QueryPacifica(symbol) => assert_eq!(symbol, "BTC"),
        last => return last,
    }
    bot.reconcile_state(stage, ReconcileEvent::Pacifica(pac)).1
}

#[test]
fn a_position_that_is_gone_is_forgotten() {
    let mut bot = bot(Some(pair("BTC", 5)));
    let other = vec![extended("BTC-USDC", 1.0, 1.0)];
    assert!(matches!(reconcile(&mut bot, Ok(other), Ok(None)), ReconcileAction::SaveState));
    assert!(bot.state.current_position.is_none());
    let (_, action) = bot.reconcile_state(ReconcileStage::AwaitSave, ReconcileEvent::Saved(Ok(())));
    assert!(matches!(action, ReconcileAction::Finish));
    let (_, action) = bot.reconcile_state(ReconcileStage::Start, ReconcileEvent::Begin);
    assert!(matches!(action, ReconcileAction::Finish));
}

#[test]
fn a_missing_leg_is_taken_out() {
    let mut bot = bot(Some(pair("BTC", 5)));
    let live = vec![extended("ETH-USD", 9.0, 9.0), extended("BTC-USD", 2.0, 2.0)];
    assert!(matches!(reconcile(&mut bot, Ok(live), Ok(None)), ReconcileAction::SaveState));
    assert!(bot.is_imbalanced());
    let position = bot.state.current_position.as_ref().unwrap();
    assert_eq!(position.extended_position.as_ref().unwrap().size, amount(2.0));
    assert!(position.pacifica_position.is_none());
    assert_eq!(position.opened_at, 5);
    // A second reconciliation with the same answers changes nothing.
    let live = vec![extended("BTC-USD", 2.0, 2.0)];
    reconcile(&mut bot, Ok(live), Ok(None));
    let again = bot.state.current_position.as_ref().unwrap();
    assert_eq!(again.extended_position.as_ref().unwrap().size, amount(2.0));
    assert!(again.pacifica_position.is_none());
}

#[test]
fn an_unanswered_query_keeps_the_state() {
    let mut bot = bot(Some(pair("BTC", 5)));
    assert!(matches!(reconcile(&mut bot, err(), Ok(None)), ReconcileAction::Fail(e) if e == "down"));
    assert!(!bot.is_imbalanced());
    assert!(matches!(reconcile(&mut bot, Ok(vec![]), err()), ReconcileAction::Fail(e) if e == "down"));
    assert!(!bot.is_imbalanced());
    assert!(bot.state.current_position.is_some());
    let (_, action) = bot.reconcile_state(ReconcileStage::AwaitSave, ReconcileEvent::Saved(err()));
    assert!(matches!(action, ReconcileAction::Fail(e) if e == "down"));
}

fn close_failure(action: CloseAction) -> CloseFailure {
    match action {
        CloseAction::Fail(failure) => failure,
        _ => panic!("the closing must fail"),
    }
}

#[test]
fn a_position_is_closed_and_forgotten() {
    let mut bot = bot(Some(pair("BTC", 5)));
    let (stage, action) = bot.close_current_position(CloseStage::Start, CloseEvent::Begin);
    assert!(matches!(action, CloseAction::Reconcile));
    let (stage, action) = bot.close_current_position(stage, CloseEvent::Reconciled);
    assert!(matches!(action, CloseAction::ClosePosition(p) if p.symbol == "BTC"));
    let (stage, action) = bot.close_current_position(stage, CloseEvent::Closed(Ok(())));
    assert!(matches!(action, CloseAction::SaveState));
    assert!(bot.state.current_position.is_none());
    let (_, action) = bot.close_current_position(stage, CloseEvent::Saved(Ok(())));
    assert!(matches!(action, CloseAction::Finish(CloseOutcome::Closed)));
}

#[test]
fn a_position_that_is_no_longer_live_needs_no_closing() {
    let mut bot = bot(Some(pair("BTC", 5)));
    let (stage, _) = bot.close_current_position(CloseStage::Start, CloseEvent::Begin);
    bot.state.current_position = None;
    let (_, action) = bot.close_current_position(stage, CloseEvent::Reconciled);
    assert!(matches!(action, CloseAction::Finish(CloseOutcome::NothingLive)));
}

#[test]
fn a_failed_closing_keeps_the_position() {
    let mut bot = bot(Some(pair("BTC", 5)));
    let (_, action) = bot.close_current_position(CloseStage::AwaitClose, CloseEvent::Closed(err()));
    assert_eq!(close_failure(action).text(), "Failed to close position: down");
    assert!(bot.state.current_position.is_some());
    let (_, action) = bot.close_current_position(CloseStage::AwaitSave, CloseEvent::Saved(err()));
    assert_eq!(close_failure(action).text(), "down");
}

#[test]
fn flat_is_reported_only_after_both_venues_were_asked() {
    let mut bot = bot(None);
    let (stage, action) = bot.close_current_position(CloseStage::Start, CloseEvent::Begin);
    assert!(matches!(action, CloseAction::ScanExtended));
    let scan = CloseEvent::ExtendedScan(Ok(vec![extended("BTC-USD", 0.0, 0.0)]));
    let (stage, action) = bot.close_current_position(stage, scan);
    assert!(matches!(action, CloseAction::ScanPacifica));
    let scan = CloseEvent::PacificaScan(Ok(vec![pacifica("BTC", -0.0, 0)]));
    let (_, action) = bot.close_current_position(stage, scan);
    assert!(matches!(action, CloseAction::Finish(CloseOutcome::VerifiedFlat)));
}

#[test]
fn untracked_positions_are_not_reported_as_closed() {
    let mut bot = bot(None);
    let live = vec![extended("A-USD", 1.0, 1.0), extended("B-USD", 0.0, 0.0), extended("C-USD", -2.0, 1.0)];
    assert_eq!(count_open_on_extended(&live), 2);
    assert_eq!(count_open_on_pacifica(&vec![pacifica("A", f64::NAN, 0), pacifica("B", 1.0, 0)]), 1);
    let stage = CloseStage::AwaitPacificaScan(live);
    let scan = CloseEvent::PacificaScan(Ok(vec![pacifica("A", 1.0, 0)]));
    let (_, action) = bot.close_current_position(stage, scan);
    assert_eq!(
        close_failure(action).text(),
        "Refusing to report success: 2 Extended and 1 Pacifica position(s) are open but absent \
         from state. Close them manually and verify both venues before restarting."
    );
    let (_, action) =
        bot.close_current_position(CloseStage::AwaitExtendedScan, CloseEvent::ExtendedScan(err()));
    assert_eq!(
        close_failure(action).text(),
        "Extended position scan failed: down. Refusing to report success over an unknown account state."
    );
    let stage = CloseStage::AwaitPacificaScan(vec![]);
    let (_, action) = bot.close_current_position(stage, CloseEvent::PacificaScan(err()));
    assert_eq!(
        close_failure(action).text(),
        "Pacifica position scan failed: down. Refusing to report success over an unknown account state."
    );
}

fn opportunity(symbol: &str, direction: &str) -> Opportunity {
    Opportunity { symbol: symbol.to_string(), best_direction: direction.to_string() }
}

fn book() -> OrderBook {
    let level = |price: &str| PriceLevel { qty: "1".to_string(), price: price.to_string() };
    OrderBook { market: "SOL-USD".to_string(), bid: vec![level("99")], ask: vec![level("101")] }
}

/// The events of an opening that goes well, up to the position.
fn good_events() -> Vec<OpenEvent> {
    vec![
        OpenEvent::Begin,
        OpenEvent::Recovery(Ok(RecoveryOutcome::NoAction)),
        OpenEvent::Scan(Ok(vec![
            opportunity("SOL", "Long Extended / Short Pacifica"),
            opportunity("ETH", "Short Extended / Long Pacifica"),
        ])),
        OpenEvent::ExtendedFree(Ok(amount(500.0))),
        OpenEvent::PacificaFree(Ok(amount(400.0))),
        OpenEvent::ExtendedLot(Ok(amount(0.01))),
        OpenEvent::PacificaMarkets(Ok(vec![
            PacificaMarket { symbol: "ETH".to_string(), lot_size: Ok(amount(1.0)) },
            PacificaMarket { symbol: "SOL".to_string(), lot_size: Ok(amount(0.02)) },
        ])),
        OpenEvent::Book(Ok(book())),
        OpenEvent::Price(Ok(amount(100.0))),
        OpenEvent::Size(amount(3.8)),
        OpenEvent::ExtendedLeverage(Ok(())),
        OpenEvent::PacificaLeverage(Ok(())),
    ]
}

/// Opens with these events, and gives all actions and the last stage.
fn open(bot: &mut FundingBot, events: Vec<OpenEvent>) -> (Vec<OpenAction>, OpenStage) {
    let mut stage = OpenStage::Start;
    let mut actions = Vec::new();
    for event in events {
        let (next, action) = bot.open_at(stage, event, Some(1000));
        stage = next;
        actions.push(action);
    }
    (actions, stage)
}

/// Opens with the good events, the one at `at` replaced, and gives the failure.
fn open_with(at: usize, event: OpenEvent) -> String {
    let mut events = good_events();
    events.truncate(at);
    events.push(event);
    match open(&mut bot(None), events).0.pop() {
        Some(OpenAction::Fail(failure)) => failure.text(),
        _ => panic!("the opening must fail"),
    }
}

#[test]
fn the_best_opportunity_is_opened() {
    let mut bot = bot(None);
    let (actions, stage) = open(&mut bot, good_events());
    assert!(matches!(actions[0], OpenAction::Recover));
    assert!(matches!(actions[1], OpenAction::Scan));
    assert!(matches!(actions[2], OpenAction::QueryExtendedFree));
    assert!(matches!(actions[3], OpenAction::QueryPacificaFree));
    assert!(matches!(&actions[4], OpenAction::QueryExtendedLot(m) if m == "SOL-USD"));
    assert!(matches!(actions[5], OpenAction::QueryPacificaMarkets));
    assert!(matches!(&actions[6], OpenAction::QueryBook(m) if m == "SOL-USD"));
    assert!(matches!(&actions[7], OpenAction::TakePrice(b, a) if b == "99" && a == "101"));
    match &actions[8] {
        OpenAction::TakeSize(limits, price) => {
            assert_eq!(limits.extended_free, amount(500.0));
            assert_eq!(limits.pacifica_free, amount(400.0));
            assert_eq!(limits.extended_lot, amount(0.01));
            assert_eq!(limits.pacifica_lot, amount(0.02));
            assert_eq!(*price, amount(100.0));
        }
        _ => panic!("a size must be worked out"),
    }
    assert!(matches!(&actions[9], OpenAction::SetExtendedLeverage(m, l) if m == "SOL-USD" && l == "1"));
    assert!(matches!(&actions[10], OpenAction::SetPacificaLeverage(s, l) if s == "SOL" && *l == PACIFICA_LEVERAGE));
    match &actions[11] {
        OpenAction::OpenPosition(Trade { choice, size, price }) => {
            assert_eq!(choice.symbol, "SOL");
            assert_eq!(choice.extended_market, "SOL-USD");
            assert!(choice.long_on_extended);
            assert_eq!(*size, amount(3.8));
            assert_eq!(*price, amount(100.0));
        }
        _ => panic!("a position must be opened"),
    }
    let (stage, action) = bot.open_at(stage, OpenEvent::Opened(Ok(pair("SOL", 999))), Some(1000));
    assert!(matches!(action, OpenAction::SaveState));
    assert_eq!(bot.state.current_position.as_ref().unwrap().symbol, "SOL");
    assert_eq!(bot.state.last_rotation_time, Some(1000));
    assert_eq!(bot.state.total_rotations, 1);
    let (_, action) = bot.open_at(stage, OpenEvent::Saved(Ok(())), Some(1000));
    assert!(matches!(action, OpenAction::Finish(OpenOutcome::Opened)));
}

#[test]
fn the_direction_is_read_from_the_words() {
    let mut events = good_events();
    events[2] = OpenEvent::Scan(Ok(vec![opportunity("SOL", "Short Extended / Long Pacifica")]));
    match open(&mut bot(None), events).0.pop() {
        Some(OpenAction::OpenPosition(trade)) => assert!(!trade.choice.long_on_extended),
        _ => panic!("a position must be opened"),
    }
}

#[test]
fn nothing_is_opened_beside_live_positions() {
    let blocked = OpenEvent::Recovery(Ok(RecoveryOutcome::Blocked("extended: 1".to_string())));
    assert_eq!(
        open_with(1, blocked),
        "Live positions exist while bot state is empty. Aborting open to prevent duplicates. extended: 1"
    );
    let taken = OpenEvent::Recovery(Ok(RecoveryOutcome::Recovered));
    let (actions, _) = open(&mut bot(None), vec![OpenEvent::Begin, taken]);
    assert!(matches!(actions[1], OpenAction::Finish(OpenOutcome::Recovered)));
    let (actions, _) = open(
        &mut bot(None),
        vec![
            OpenEvent::Begin,
            OpenEvent::Recovery(Ok(RecoveryOutcome::NoAction)),
            OpenEvent::Scan(Ok(vec![])),
        ],
    );
    assert!(matches!(actions[2], OpenAction::Finish(OpenOutcome::NothingFound)));
}

#[test]
fn failed_leverage_opens_nothing() {
    assert_eq!(
        open_with(10, OpenEvent::ExtendedLeverage(err())),
        "Refusing to open SOL-USD: could not set Extended leverage to 1x (down). Opening at \
         unknown leverage risks liquidating one leg."
    );
    assert_eq!(
        open_with(11, OpenEvent::PacificaLeverage(err())),
        "Refusing to open SOL: could not set Pacifica leverage to 1x (down). Extended is already \
         at 1x; opening now would give the two legs mismatched margin profiles."
    );
}

#[test]
fn each_failure_of_an_opening_is_reported() {
    assert_eq!(open_with(1, OpenEvent::Recovery(err())), "down");
    assert_eq!(open_with(2, OpenEvent::Scan(err())), "down");
    assert_eq!(open_with(3, OpenEvent::ExtendedFree(err())), "down");
    assert_eq!(open_with(4, OpenEvent::PacificaFree(err())), "down");
    assert_eq!(open_with(5, OpenEvent::ExtendedLot(err())), "down");
    assert_eq!(open_with(6, OpenEvent::PacificaMarkets(err())), "down");
    assert_eq!(open_with(6, OpenEvent::PacificaMarkets(Ok(vec![]))), "Pacifica market SOL not found");
    let unreadable = PacificaMarket { symbol: "SOL".to_string(), lot_size: err() };
    assert_eq!(open_with(6, OpenEvent::PacificaMarkets(Ok(vec![unreadable]))), "down");
    assert_eq!(open_with(7, OpenEvent::Book(err())), "down");
    let mut empty = book();
    empty.bid.clear();
    assert_eq!(open_with(7, OpenEvent::Book(Ok(empty))), "No orderbook data available");
    assert_eq!(open_with(8, OpenEvent::Price(err())), "down");
    assert_eq!(open_with(9, OpenEvent::Size(amount(0.0))), "Insufficient capital to open position");
    assert_eq!(open_with(9, OpenEvent::Size(amount(-1.0))), "Insufficient capital to open position");
    assert_eq!(open_with(12, OpenEvent::Opened(err())), "Failed to open position: down");
    assert_eq!(OpenFailure::Save("full".to_string()).text(), "full");
}

#[test]
fn a_position_opened_under_a_bad_clock_is_kept() {
    let mut bot = bot(None);
    let (_, action) = bot.open_at(OpenStage::AwaitOpen, OpenEvent::Opened(Ok(pair("SOL", 9))), None);
    match action {
        OpenAction::Fail(failure) => {
            assert_eq!(failure.text(), "second time provided was later than self")
        }
        _ => panic!("the opening must fail"),
    }
    assert!(bot.state.current_position.is_some());
    assert_eq!(bot.state.total_rotations, 0);
    assert_eq!(bot.state.last_rotation_time, None);
}

#[test]
fn an_opening_is_dated_by_the_clock() {
    let mut bot = bot(None);
    let opened = OpenEvent::Opened(Ok(pair("SOL", 9)));
    let (_, action) = bot.open_best_opportunity(OpenStage::AwaitOpen, opened);
    assert!(matches!(action, OpenAction::SaveState));
    // The clock of a machine that runs this stands after 2023.
    assert!(bot.state.last_rotation_time.unwrap() > 1_700_000_000);
}

/// Runs from this stage with this event at the second 200000.
fn step(bot: &FundingBot, stage: RunStage, event: RunEvent) -> (RunStage, RunAction) {
    bot.run_at(stage, event, Some(200_000))
}

#[test]
fn a_round_without_a_position_opens_one() {
    let bot = bot(None);
    let (stage, action) = step(&bot, RunStage::Start, RunEvent::Begin);
    assert!(matches!(action, RunAction::PollShutdown));
    let (stage, action) = step(&bot, stage, RunEvent::Polled(false));
    assert!(matches!(action, RunAction::Reconcile));
    let (stage, action) = step(&bot, stage, RunEvent::Reconciled(Ok(())));
    assert!(matches!(action, RunAction::Recover));
    let (stage, action) = step(&bot, stage, RunEvent::Recovery(Ok(RecoveryOutcome::NoAction)));
    assert!(matches!(action, RunAction::ShowStatus));
    let (stage, action) = step(&bot, stage, RunEvent::StatusShown(Ok(())));
    assert!(matches!(action, RunAction::Scan));
    let (stage, action) = step(&bot, stage, RunEvent::Scanned);
    assert!(matches!(action, RunAction::Open));
    let (stage, action) = step(&bot, stage, RunEvent::Opened(err()));
    assert!(matches!(action, RunAction::SleepUnlessShutdown(900)));
    let (_, action) = step(&bot, stage, RunEvent::PauseOver);
    assert!(matches!(action, RunAction::PollShutdown));
}

#[test]
fn a_position_is_rotated_when_it_is_due() {
    let due = bot(Some(pair("BTC", 200_000 - 24 * 3600)));
    let (stage, action) = step(&due, RunStage::AwaitScan, RunEvent::Scanned);
    assert!(matches!(action, RunAction::Close));
    let (_, action) = step(&due, stage, RunEvent::Closed(err()));
    assert!(matches!(action, RunAction::Sleep(900)));
    let (stage, action) = step(&due, stage, RunEvent::Closed(Ok(())));
    assert!(matches!(action, RunAction::Sleep(5)));
    let (_, action) = step(&due, stage, RunEvent::PauseOver);
    assert!(matches!(action, RunAction::Open));
    let young = bot(Some(pair("BTC", 200_000 - 24 * 3600 + 1)));
    let (_, action) = step(&young, RunStage::AwaitScan, RunEvent::Scanned);
    assert!(matches!(action, RunAction::SleepUnlessShutdown(900)));
}

#[test]
fn a_single_leg_is_closed_at_once() {
    let mut half = pair("BTC", 5);
    half.extended_position = None;
    let bot_with_half = bot(Some(half));
    let (stage, action) = step(&bot_with_half, RunStage::AwaitReconcile, RunEvent::Reconciled(Ok(())));
    assert!(matches!(action, RunAction::Close));
    let (_, action) = step(&bot_with_half, stage, RunEvent::Closed(err()));
    assert!(matches!(action, RunAction::Sleep(5)));
    let (_, action) = step(&bot(None), stage, RunEvent::Closed(Ok(())));
    assert!(matches!(action, RunAction::Recover));
    let whole = bot(Some(pair("BTC", 5)));
    let (_, action) = step(&whole, RunStage::AwaitReconcile, RunEvent::Reconciled(Ok(())));
    assert!(matches!(action, RunAction::ShowStatus));
}

#[test]
fn unanswered_queries_end_the_round() {
    let bot = bot(None);
    let (stage, action) = step(&bot, RunStage::AwaitReconcile, RunEvent::Reconciled(err()));
    assert!(matches!(action, RunAction::Sleep(60)));
    assert!(matches!(step(&bot, stage, RunEvent::PauseOver).1, RunAction::PollShutdown));
    let (_, action) = step(&bot, RunStage::AwaitRecovery, RunEvent::Recovery(err()));
    assert!(matches!(action, RunAction::Sleep(60)));
    let blocked = RunEvent::Recovery(Ok(RecoveryOutcome::Blocked("x".to_string())));
    assert!(matches!(step(&bot, RunStage::AwaitRecovery, blocked).1, RunAction::Sleep(900)));
    let recovered = RunEvent::Recovery(Ok(RecoveryOutcome::Recovered));
    assert!(matches!(step(&bot, RunStage::AwaitRecovery, recovered).1, RunAction::ShowStatus));
    let (_, action) = step(&bot, RunStage::AwaitStatus, RunEvent::StatusShown(err()));
    assert!(matches!(action, RunAction::Fail(e) if e == "down"));
}

#[test]
fn a_shutdown_stops_the_bot() {
    let bot = bot(Some(pair("BTC", 5)));
    let (stage, action) = step(&bot, RunStage::AwaitPoll, RunEvent::Polled(true));
    assert!(matches!(action, RunAction::Stop));
    assert!(matches!(step(&bot, stage, RunEvent::PauseOver), (RunStage::Stopped, RunAction::Await)));
    assert!(matches!(step(&bot, RunStage::AwaitInterval, RunEvent::Shutdown).1, RunAction::Stop));
}

#[test]
fn a_bad_clock_stops_the_rounds() {
    let bot = bot(Some(pair("BTC", 200_001)));
    let (_, action) = step(&bot, RunStage::AwaitScan, RunEvent::Scanned);
    assert!(matches!(action, RunAction::ClockFault(ClockFault::BeforeOpening)));
    let (_, action) = bot.run_at(RunStage::AwaitScan, RunEvent::Scanned, None);
    assert!(matches!(action, RunAction::ClockFault(ClockFault::BeforeEpoch)));
    // The clock of a machine that runs this stands more than a day after 1970.
    assert!(matches!(bot.run(RunStage::AwaitScan, RunEvent::Scanned).1, RunAction::Close));
}

fn shown(row: &StatusRow) -> String {
    let value = match &row.value {
        StatusValue::Text(t) => t.clone(),
        StatusValue::Dollars(a) => format!("${:.2}", f64::from_bits(a.bits)),
        StatusValue::Hours(a) => format!("{:.1} hours", f64::from_bits(a.bits)),
        StatusValue::Quantity(a) => format!("{:.6}", f64::from_bits(a.bits)),
        StatusValue::Leg(there) => format!("{}", there),
    };
    format!("{}|{}|{}", row.label, value, row.style.style_spec())
}

#[test]
fn the_status_shows_the_position() {
    let mut held = pair("BTC", 1_700_000_000);
    held.pacifica_position = None;
    let bot = bot(Some(held));
    let rows = bot.display_status_at(
        Some(1_700_000_000 + 24 * 3600 - 1800),
        Some(vec![extended("ETH-USD", 1.0, 1.0), extended("BTC-USD", 1.0, 1.0)]),
        Some(vec![pacifica("BTC", 0.25, 0)]),
    ).unwrap();
    let lines: Vec<String> = rows.iter().map(shown).collect();
    assert_eq!(
        lines,
        [
            "Symbol|BTC|b",
            "Notional|$100.00|",
            "Opened|2023-11-14 22:13:20 UTC|",
            "Rotation|2023-11-15 22:13:20 UTC|",
            "Time Remaining|0.5 hours|Fr",
            "Extended Position|true|",
            "Pacifica Position|false|",
            "Extended PnL|$-1.25|Fr",
            "Pacifica Entry|$100.00|",
            "Pacifica Size|0.250000|",
            "Total Rotations|0|",
        ]
    );
    assert_eq!(status_title(), "FUNDING RATE BOT STATUS");
}

#[test]
fn the_status_leaves_out_what_no_venue_reports() {
    let held = bot(Some(pair("BTC", 1_700_000_000)));
    let late = Some(1_700_000_000 + 27 * 3600);
    let early = Some(1_700_000_000 + 23 * 3600);
    let rows = held.display_status_at(late, None, Some(vec![])).unwrap();
    assert_eq!(rows.len(), 8);
    assert_eq!(shown(&rows[4]), "Time Remaining|0.0 hours|Fr");
    let rows = held.display_status_at(early, Some(vec![]), None).unwrap();
    assert_eq!(shown(&rows[4]), "Time Remaining|1.0 hours|Fg");
    let mut gain = extended("BTC-USD", 1.0, 1.0);
    gain.unrealized_pnl = None;
    let rows = held.display_status_at(early, Some(vec![gain]), None).unwrap();
    assert_eq!(shown(&rows[7]), "Extended PnL|$0.00|Fg");
    assert!(matches!(held.display_status_at(None, None, None), Err(ClockFault::BeforeEpoch)));
    assert!(matches!(held.display_status_at(Some(5), None, None), Err(ClockFault::BeforeOpening)));
    // The clock of a machine that runs this stands after 2023.
    let rows = held.display_status(None, None).unwrap();
    assert_eq!(shown(&rows[4]), "Time Remaining|0.0 hours|Fr");
    let rows = bot(None).display_status(None, None).unwrap();
    let lines: Vec<String> = rows.iter().map(shown).collect();
    assert_eq!(lines, ["Status|NO ACTIVE POSITION|Fy", "Total Rotations|0|"]);
    assert_eq!(CellStyle::Green.style_spec(), "Fg");
    assert_eq!(leg_word(true), "ACTIVE");
    assert_eq!(leg_word(false), "NONE");
}
