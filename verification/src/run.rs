//! The rounds of the bot: what it does next, whatever came of the last step.
use crate::bot::{one_legged, FundingBot, MONITORING_INTERVAL_MINUTES};
use crate::clock::unix_now;
use crate::live::RecoveryOutcome;
use crate::state::{rotation_due, BotState, ClockFault};
use vstd::prelude::*;

verus! {

broadcast use vstd::string::group_string_axioms;

/// The seconds to wait after a venue could not be asked.
pub const RETRY_SECS: u64 = 60;

/// The seconds to wait before a single leg is closed again, and between the
/// closing and the opening of a rotation.
pub const SHORT_PAUSE_SECS: u64 = 5;

/// The seconds between two rounds.
pub const MONITORING_INTERVAL_SECS: u64 = MONITORING_INTERVAL_MINUTES * 60;

/// What the bot waits for.
#[derive(Clone, Copy, PartialEq, Eq, Debug, Structural)]
pub enum RunStage {
    Start,
    AwaitPoll,
    AwaitReconcile,
    AwaitEmergencyClose,
    AwaitRecovery,
    AwaitStatus,
    AwaitScan,
    AwaitRotationClose,
    AwaitRotationPause,
    AwaitOpen,
    /// A pause after which a new round starts.
    AwaitRetry,
    /// The pause between two rounds, which a shutdown ends.
    AwaitInterval,
    Stopped,
}

pub enum RunEvent {
    Begin,
    /// Whether a shutdown was asked for.
    Polled(bool),
    Reconciled(Result<(), String>),
    Closed(Result<(), String>),
    Recovery(Result<RecoveryOutcome, String>),
    StatusShown(Result<(), String>),
    /// The opportunities were shown, or could not be found.
    Scanned,
    Opened(Result<(), String>),
    PauseOver,
    /// A shutdown was asked for during the pause between two rounds.
    Shutdown,
}

pub enum RunAction {
    /// Nothing to do: the event was not the one waited for.
    Await,
    PollShutdown,
    Reconcile,
    Close,
    Recover,
    ShowStatus,
    Scan,
    Open,
    /// Wait for these seconds.
    Sleep(u64),
    /// Wait for these seconds or until a shutdown is asked for.
    SleepUnlessShutdown(u64),
    Stop,
    Fail(String),
    ClockFault(ClockFault),
}

/// Where a round goes on once no leg is missing: without a position, live ones
/// are looked for first.
pub open spec fn balanced_step(state: BotState) -> (RunStage, RunAction) {
    if state.current_position is None {
        (RunStage::AwaitRecovery, RunAction::Recover)
    } else {
        (RunStage::AwaitStatus, RunAction::ShowStatus)
    }
}

/// What a round does with the position, where the clock says `now`.
pub open spec fn position_step(state: BotState, hold_time_hours: u64, now: Option<u64>) -> (
    RunStage,
    RunAction,
) {
    match state.current_position {
        None => (RunStage::AwaitOpen, RunAction::Open),
        Some(pos) => match now {
            None => (RunStage::Stopped, RunAction::ClockFault(ClockFault::BeforeEpoch)),
            Some(t) => if t < pos.opened_at {
                (RunStage::Stopped, RunAction::ClockFault(ClockFault::BeforeOpening))
            } else if rotation_due(pos.opened_at, hold_time_hours, t) {
                (RunStage::AwaitRotationClose, RunAction::Close)
            } else {
                (
                    RunStage::AwaitInterval,
                    RunAction::SleepUnlessShutdown(MONITORING_INTERVAL_SECS),
                )
            },
        },
    }
}

/// How the bot goes on from a stage when an event comes in.
pub open spec fn run_step(
    state: BotState,
    hold_time_hours: u64,
    stage: RunStage,
    event: RunEvent,
    now: Option<u64>,
) -> (RunStage, RunAction) {
    match (stage, event) {
        (RunStage::Start, RunEvent::Begin) => (RunStage::AwaitPoll, RunAction::PollShutdown),
        (RunStage::AwaitPoll, RunEvent::Polled(shutdown)) => if shutdown {
            (RunStage::Stopped, RunAction::Stop)
        } else {
            (RunStage::AwaitReconcile, RunAction::Reconcile)
        },
        (RunStage::AwaitReconcile, RunEvent::Reconciled(answer)) => match answer {
            Err(_) => (RunStage::AwaitRetry, RunAction::Sleep(RETRY_SECS)),
            Ok(_) => if state.current_position matches Some(pos) && one_legged(pos) {
                (RunStage::AwaitEmergencyClose, RunAction::Close)
            } else {
                balanced_step(state)
            },
        },
        (RunStage::AwaitEmergencyClose, RunEvent::Closed(answer)) => match answer {
            Err(_) => (RunStage::AwaitRetry, RunAction::Sleep(SHORT_PAUSE_SECS)),
            Ok(_) => balanced_step(state),
        },
        (RunStage::AwaitRecovery, RunEvent::Recovery(answer)) => match answer {
            Err(_) => (RunStage::AwaitRetry, RunAction::Sleep(RETRY_SECS)),
            Ok(RecoveryOutcome::Blocked(_)) => (
                RunStage::AwaitRetry,
                RunAction::Sleep(MONITORING_INTERVAL_SECS),
            ),
            Ok(RecoveryOutcome::Recovered) => (RunStage::AwaitStatus, RunAction::ShowStatus),
            Ok(RecoveryOutcome::NoAction) => (RunStage::AwaitStatus, RunAction::ShowStatus),
        },
        (RunStage::AwaitStatus, RunEvent::StatusShown(answer)) => match answer {
            Err(e) => (RunStage::Stopped, RunAction::Fail(e)),
            Ok(_) => (RunStage::AwaitScan, RunAction::Scan),
        },
        (RunStage::AwaitScan, RunEvent::Scanned) => position_step(state, hold_time_hours, now),
        (RunStage::AwaitRotationClose, RunEvent::Closed(answer)) => match answer {
            Err(_) => (RunStage::AwaitRetry, RunAction::Sleep(MONITORING_INTERVAL_SECS)),
            Ok(_) => (RunStage::AwaitRotationPause, RunAction::Sleep(SHORT_PAUSE_SECS)),
        },
        (RunStage::AwaitRotationPause, RunEvent::PauseOver) => (
            RunStage::AwaitOpen,
            RunAction::Open,
        ),
        (RunStage::AwaitOpen, RunEvent::Opened(_)) => (
            RunStage::AwaitInterval,
            RunAction::SleepUnlessShutdown(MONITORING_INTERVAL_SECS),
        ),
        (RunStage::AwaitRetry, RunEvent::PauseOver) => (
            RunStage::AwaitPoll,
            RunAction::PollShutdown,
        ),
        (RunStage::AwaitInterval, RunEvent::PauseOver) => (
            RunStage::AwaitPoll,
            RunAction::PollShutdown,
        ),
        (RunStage::AwaitInterval, RunEvent::Shutdown) => (RunStage::Stopped, RunAction::Stop),
        _ => (stage, RunAction::Await),
    }
}

impl FundingBot {
    fn after_balance(&self) -> (r: (RunStage, RunAction))
        ensures
            r == balanced_step(self.state),
    {
        if self.state.current_position.is_none() {
            (RunStage::AwaitRecovery, RunAction::Recover)
        } else {
            (RunStage::AwaitStatus, RunAction::ShowStatus)
        }
    }

    fn after_scan(&self, now: Option<u64>) -> (r: (RunStage, RunAction))
        ensures
            r == position_step(self.state, self.hold_time_hours, now),
    {
        match &self.state.current_position {
            None => (RunStage::AwaitOpen, RunAction::Open),
            Some(pos) => match now {
                None => (RunStage::Stopped, RunAction::ClockFault(ClockFault::BeforeEpoch)),
                Some(t) => if t < pos.opened_at {
                    (RunStage::Stopped, RunAction::ClockFault(ClockFault::BeforeOpening))
                } else if self.state.should_rotate_at(self.hold_time_hours, t) {
                    (RunStage::AwaitRotationClose, RunAction::Close)
                } else {
                    (
                        RunStage::AwaitInterval,
                        RunAction::SleepUnlessShutdown(MONITORING_INTERVAL_SECS),
                    )
                },
            },
        }
    }

    /// One step of the rounds of the bot, given what the clock says.
    pub fn run_at(&self, stage: RunStage, event: RunEvent, now: Option<u64>) -> (r: (
        RunStage,
        RunAction,
    ))
        ensures
            r == run_step(self.state, self.hold_time_hours, stage, event, now),
    {
        match (stage, event) {
            (RunStage::Start, RunEvent::Begin) => (RunStage::AwaitPoll, RunAction::PollShutdown),
            (RunStage::AwaitPoll, RunEvent::Polled(shutdown)) => if shutdown {
                (RunStage::Stopped, RunAction::Stop)
            } else {
                (RunStage::AwaitReconcile, RunAction::Reconcile)
            },
            (RunStage::AwaitReconcile, RunEvent::Reconciled(answer)) => match answer {
                Err(_) => (RunStage::AwaitRetry, RunAction::Sleep(RETRY_SECS)),
                Ok(_) => if self.is_imbalanced() {
                    (RunStage::AwaitEmergencyClose, RunAction::Close)
                } else {
                    self.after_balance()
                },
            },
            (RunStage::AwaitEmergencyClose, RunEvent::Closed(answer)) => match answer {
                Err(_) => (RunStage::AwaitRetry, RunAction::Sleep(SHORT_PAUSE_SECS)),
                Ok(_) => self.after_balance(),
            },
            (RunStage::AwaitRecovery, RunEvent::Recovery(answer)) => match answer {
                Err(_) => (RunStage::AwaitRetry, RunAction::Sleep(RETRY_SECS)),
                Ok(RecoveryOutcome::Blocked(_)) => (
                    RunStage::AwaitRetry,
                    RunAction::Sleep(MONITORING_INTERVAL_SECS),
                ),
                Ok(RecoveryOutcome::Recovered) => (RunStage::AwaitStatus, RunAction::ShowStatus),
                Ok(RecoveryOutcome::NoAction) => (RunStage::AwaitStatus, RunAction::ShowStatus),
            },
            (RunStage::AwaitStatus, RunEvent::StatusShown(answer)) => match answer {
                Err(e) => (RunStage::Stopped, RunAction::Fail(e)),
                Ok(_) => (RunStage::AwaitScan, RunAction::Scan),
            },
            (RunStage::AwaitScan, RunEvent::Scanned) => self.after_scan(now),
            (RunStage::AwaitRotationClose, RunEvent::Closed(answer)) => match answer {
                Err(_) => (RunStage::AwaitRetry, RunAction::Sleep(MONITORING_INTERVAL_SECS)),
                Ok(_) => (RunStage::AwaitRotationPause, RunAction::Sleep(SHORT_PAUSE_SECS)),
            },
            (RunStage::AwaitRotationPause, RunEvent::PauseOver) => (
                RunStage::AwaitOpen,
                RunAction::Open,
            ),
            (RunStage::AwaitOpen, RunEvent::Opened(_)) => (
                RunStage::AwaitInterval,
                RunAction::SleepUnlessShutdown(MONITORING_INTERVAL_SECS),
            ),
            (RunStage::AwaitRetry, RunEvent::PauseOver) => (
                RunStage::AwaitPoll,
                RunAction::PollShutdown,
            ),
            (RunStage::AwaitInterval, RunEvent::PauseOver) => (
                RunStage::AwaitPoll,
                RunAction::PollShutdown,
            ),
            (RunStage::AwaitInterval, RunEvent::Shutdown) => (RunStage::Stopped, RunAction::Stop),
            _ => (stage, RunAction::Await),
        }
    }

    /// One step of the rounds of the bot. A round brings the state in line with the
    /// venues, closes a single leg, shows where things stand, and rotates, opens or
    /// keeps the position. A shutdown leaves the position open.
    pub fn run(&self, stage: RunStage, event: RunEvent) -> (r: (RunStage, RunAction))
        ensures
            exists|now: Option<u64>|
                r == #[trigger] run_step(self.state, self.hold_time_hours, stage, event, now),
    {
        let now: Option<u64> = unix_now();
        self.run_at(stage, event, now)
    }
}

/// One move of the bot.
pub struct RunMove {
    pub state: BotState,
    pub stage: RunStage,
    pub event: RunEvent,
    pub now: Option<u64>,
    pub next: RunStage,
    pub action: RunAction,
}

/// The stages at which something runs that may change the state.
pub open spec fn state_may_change(stage: RunStage) -> bool {
    stage is AwaitReconcile || stage is AwaitEmergencyClose || stage is AwaitRecovery
        || stage is AwaitRotationClose || stage is AwaitOpen
}

/// The moves of a bot, from its start on. What runs between two moves may change the
/// state where the bot waits for it. A closing that ended well leaves a state without
/// a position, as `law_a_finished_closing_leaves_no_position` says.
pub open spec fn is_run(hold_time_hours: u64, moves: Seq<RunMove>) -> bool {
    &&& moves.len() > 0 ==> moves[0].stage is Start
    &&& forall|i: int|
        0 <= i < moves.len() ==> {
            let m = #[trigger] moves[i];
            &&& (m.next, m.action) == run_step(m.state, hold_time_hours, m.stage, m.event, m.now)
            &&& m.event matches RunEvent::Closed(Ok(_)) ==> m.state.current_position is None
        }
    &&& forall|i: int, j: int|
        0 <= i && j == i + 1 && j < moves.len() ==> {
            let a = #[trigger] moves[i];
            let b = #[trigger] moves[j];
            a.next == b.stage && (state_may_change(b.stage) || a.state == b.state)
        }
}

/// The moves at `i` and at `k` are in the same round, `i` first.
pub open spec fn same_round(moves: Seq<RunMove>, i: int, k: int) -> bool {
    0 <= i < k && forall|j: int| i <= j < k ==> !((#[trigger] moves[j]).action is PollShutdown)
}

/// Earlier in the round of the move at `k`, the state was brought in line.
pub open spec fn was_reconciled(moves: Seq<RunMove>, k: int) -> bool {
    exists|i: int|
        #[trigger] same_round(moves, i, k) && moves[i].stage is AwaitReconcile && (
        moves[i].event matches RunEvent::Reconciled(answer) && answer is Ok)
}

/// Earlier in the round of the move at `k`, live positions were looked for and
/// none stood in the way.
pub open spec fn was_cleared(moves: Seq<RunMove>, k: int) -> bool {
    exists|i: int|
        #[trigger] same_round(moves, i, k) && moves[i].stage is AwaitRecovery && (
        moves[i].event matches RunEvent::Recovery(Ok(outcome)) && !(outcome is Blocked))
}

/// Earlier in the round of the move at `k`, a rotation closed the position.
pub open spec fn was_closed_to_rotate(moves: Seq<RunMove>, k: int) -> bool {
    exists|i: int|
        #[trigger] same_round(moves, i, k) && moves[i].stage is AwaitRotationClose && (
        moves[i].event matches RunEvent::Closed(answer) && answer is Ok)
}

/// The stages of a round that come after the state was brought in line.
spec fn in_line(stage: RunStage) -> bool {
    stage is AwaitEmergencyClose || stage is AwaitRecovery || stage is AwaitStatus
        || stage is AwaitScan || stage is AwaitRotationClose || stage is AwaitRotationPause
        || stage is AwaitOpen
}

proof fn lemma_same_round_grows(moves: Seq<RunMove>, i: int, k: int)
    requires
        same_round(moves, i, k),
        k < moves.len(),
        !(moves[k].action is PollShutdown),
    ensures
        same_round(moves, i, k + 1),
{
}

proof fn lemma_round(hold_time_hours: u64, moves: Seq<RunMove>, k: int)
    requires
        is_run(hold_time_hours, moves),
        0 <= k < moves.len(),
    ensures
        in_line(moves[k].stage) ==> was_reconciled(moves, k),
        (moves[k].stage is AwaitStatus || moves[k].stage is AwaitScan)
            && moves[k].state.current_position is None ==> was_cleared(moves, k),
        moves[k].stage is AwaitRotationPause ==> was_closed_to_rotate(moves, k)
            && moves[k].state.current_position is None,
    decreases k,
{
    if k > 0 {
        lemma_round(hold_time_hours, moves, k - 1);
        let m = moves[k - 1];
        assert(m.next == moves[k].stage);
        if in_line(m.stage) && in_line(m.next) {
            assert(!(m.action is PollShutdown));
            let i = choose|i: int|
                #[trigger] same_round(moves, i, k - 1) && moves[i].stage is AwaitReconcile && (
                moves[i].event matches RunEvent::Reconciled(answer) && answer is Ok);
            lemma_same_round_grows(moves, i, k - 1);
            if was_cleared(moves, k - 1) {
                let c = choose|c: int|
                    #[trigger] same_round(moves, c, k - 1) && moves[c].stage is AwaitRecovery && (
                    moves[c].event matches RunEvent::Recovery(Ok(outcome)) && !(
                    outcome is Blocked));
                lemma_same_round_grows(moves, c, k - 1);
            }
            if was_closed_to_rotate(moves, k - 1) {
                let c = choose|c: int|
                    #[trigger] same_round(moves, c, k - 1) && moves[c].stage is AwaitRotationClose
                        && (moves[c].event matches RunEvent::Closed(answer) && answer is Ok);
                lemma_same_round_grows(moves, c, k - 1);
            }
        }
        assert(!(m.action is PollShutdown) ==> same_round(moves, k - 1, k));
    }
}

/// A position is opened only while the bot has none, in a round that brought the
/// state in line with the venues, and in one of two cases: live positions were looked
/// for in this round and did not stand in the way; or a rotation closed the position
/// in this round.
pub proof fn law_opening_is_safe(hold_time_hours: u64, moves: Seq<RunMove>, k: int)
    requires
        is_run(hold_time_hours, moves),
        0 <= k < moves.len(),
        moves[k].action is Open,
    ensures
        was_reconciled(moves, k),
        moves[k].state.current_position is None,
        was_cleared(moves, k) || was_closed_to_rotate(moves, k),
{
    lemma_round(hold_time_hours, moves, k);
}

/// A position is closed only in a round that brought the state in line with the
/// venues, and only where one leg is missing or the time to hold it is over.
pub proof fn law_closing_has_a_reason(hold_time_hours: u64, moves: Seq<RunMove>, k: int)
    requires
        is_run(hold_time_hours, moves),
        0 <= k < moves.len(),
        moves[k].action is Close,
    ensures
        was_reconciled(moves, k) || (moves[k].stage is AwaitReconcile && (
        moves[k].event matches RunEvent::Reconciled(answer) && answer is Ok)),
        moves[k].state.current_position matches Some(pos) && (one_legged(pos) || (
        moves[k].now matches Some(t) && pos.opened_at <= t && rotation_due(
            pos.opened_at,
            hold_time_hours,
            t,
        ))),
{
    lemma_round(hold_time_hours, moves, k);
}

/// A position of which one leg is missing is closed at once: nothing comes between
/// finding it and the attempt to close it.
pub proof fn law_a_single_leg_is_closed_at_once(
    state: BotState,
    hold_time_hours: u64,
    now: Option<u64>,
)
    requires
        state.current_position matches Some(pos) && one_legged(pos),
    ensures
        run_step(
            state,
            hold_time_hours,
            RunStage::AwaitReconcile,
            RunEvent::Reconciled(Ok(())),
            now,
        ) == (RunStage::AwaitEmergencyClose, RunAction::Close),
{
}

/// The seconds to wait where what came in ends the round: a venue could not be asked,
/// live positions stand in the way, or a position could not be closed.
pub open spec fn pause_after(stage: RunStage, event: RunEvent) -> Option<u64> {
    match (stage, event) {
        (RunStage::AwaitReconcile, RunEvent::Reconciled(Err(_))) => Some(RETRY_SECS),
        (RunStage::AwaitRecovery, RunEvent::Recovery(Err(_))) => Some(RETRY_SECS),
        (RunStage::AwaitRecovery, RunEvent::Recovery(Ok(RecoveryOutcome::Blocked(_)))) => Some(
            MONITORING_INTERVAL_SECS,
        ),
        (RunStage::AwaitEmergencyClose, RunEvent::Closed(Err(_))) => Some(SHORT_PAUSE_SECS),
        (RunStage::AwaitRotationClose, RunEvent::Closed(Err(_))) => Some(MONITORING_INTERVAL_SECS),
        _ => None,
    }
}

proof fn lemma_retry_stays(hold_time_hours: u64, moves: Seq<RunMove>, i: int, k: int)
    requires
        is_run(hold_time_hours, moves),
        same_round(moves, i, k),
        k < moves.len(),
        moves[i].next is AwaitRetry,
    ensures
        moves[k].stage is AwaitRetry,
    decreases k - i,
{
    if k > i + 1 {
        assert(same_round(moves, i, k - 1));
        lemma_retry_stays(hold_time_hours, moves, i, k - 1);
        assert(!(moves[k - 1].action is PollShutdown));
    }
    assert(moves[k - 1].next == moves[k].stage);
}

/// A query that no venue answered, live positions that stand in the way, and a
/// closing that failed end the round: the bot waits, and until the next round starts
/// it does nothing else. So nothing is opened or closed in the rest of the round.
pub proof fn law_a_failure_ends_the_round(hold_time_hours: u64, moves: Seq<RunMove>, i: int, k: int)
    requires
        is_run(hold_time_hours, moves),
        0 <= i < moves.len(),
        pause_after(moves[i].stage, moves[i].event) is Some,
        same_round(moves, i, k),
        k < moves.len(),
    ensures
        moves[i].action == RunAction::Sleep(pause_after(moves[i].stage, moves[i].event)->0),
        moves[k].action is Await || moves[k].action is PollShutdown,
{
    lemma_retry_stays(hold_time_hours, moves, i, k);
}

proof fn lemma_stopped_stays(hold_time_hours: u64, moves: Seq<RunMove>, i: int, k: int)
    requires
        is_run(hold_time_hours, moves),
        0 <= i < k < moves.len(),
        moves[i].next is Stopped,
    ensures
        moves[k].stage is Stopped,
    decreases k - i,
{
    if k > i + 1 {
        lemma_stopped_stays(hold_time_hours, moves, i, k - 1);
    }
    assert(moves[k - 1].next == moves[k].stage);
}

/// A shutdown stops the bot: nothing is opened or closed after it.
pub proof fn law_a_stopped_bot_does_nothing(
    hold_time_hours: u64,
    moves: Seq<RunMove>,
    i: int,
    k: int,
)
    requires
        is_run(hold_time_hours, moves),
        0 <= i < k < moves.len(),
        moves[i].action is Stop,
    ensures
        moves[k].action is Await,
{
    lemma_stopped_stays(hold_time_hours, moves, i, k);
}

/// The bot stops exactly where a shutdown was asked for, whether before a round or in
/// the pause between two rounds. It fails exactly where the status could not be shown,
/// and with that reason. It is never stopped otherwise, but for a clock that cannot
/// tell the age of the position.
pub proof fn law_the_bot_stops_only_on_a_shutdown(
    state: BotState,
    hold_time_hours: u64,
    stage: RunStage,
    event: RunEvent,
    now: Option<u64>,
)
    ensures
        ({
            let (next, action) = run_step(state, hold_time_hours, stage, event, now);
            &&& action is Stop <==> (stage is AwaitPoll && event == RunEvent::Polled(true)) || (
            stage is AwaitInterval && event is Shutdown)
            &&& action is Fail <==> stage is AwaitStatus && (
            event matches RunEvent::StatusShown(answer) && answer is Err)
            &&& action matches RunAction::Fail(e) ==> event == RunEvent::StatusShown(Err(e))
            &&& !(stage is Stopped) ==> (next is Stopped <==> action is Stop || action is Fail
                || action is ClockFault)
            &&& stage is Stopped ==> next is Stopped && action is Await
        }),
{
}

/// Every opening, whether it went well or not, is followed by the pause of fifteen
/// minutes between two rounds. So is a round in which the position is younger than the
/// hours to hold it, and nothing else is.
pub proof fn law_every_opening_is_followed_by_the_pause(
    state: BotState,
    hold_time_hours: u64,
    stage: RunStage,
    event: RunEvent,
    now: Option<u64>,
)
    ensures
        ({
            let (next, action) = run_step(state, hold_time_hours, stage, event, now);
            &&& stage is AwaitOpen && event is Opened ==> next is AwaitInterval && action
                == RunAction::SleepUnlessShutdown(900)
            &&& action is SleepUnlessShutdown ==> action == RunAction::SleepUnlessShutdown(900)
            &&& action is SleepUnlessShutdown <==> (stage is AwaitOpen && event is Opened) || (
            stage is AwaitScan && event is Scanned && (state.current_position matches Some(pos) && (
            now matches Some(t) && pos.opened_at <= t && t - pos.opened_at < hold_time_hours
                * 3600)))
        }),
{
}

/// A round starts with the question whether a shutdown was asked for. It is asked at
/// the start of the bot and after each pause that ends a round, and at no other time.
/// The state is brought in line exactly where the answer was no.
pub proof fn law_a_round_starts_with_the_question_for_a_shutdown(
    state: BotState,
    hold_time_hours: u64,
    stage: RunStage,
    event: RunEvent,
    now: Option<u64>,
)
    ensures
        ({
            let (next, action) = run_step(state, hold_time_hours, stage, event, now);
            &&& action is PollShutdown <==> (stage is Start && event is Begin) || ((
            stage is AwaitRetry || stage is AwaitInterval) && event is PauseOver)
            &&& action is Reconcile <==> stage is AwaitPoll && event == RunEvent::Polled(false)
        }),
{
}

/// Live positions are looked for exactly where the bot has no position once the state
/// is in line with the venues or a single leg was closed.
pub proof fn law_live_positions_are_looked_for_without_a_position(
    state: BotState,
    hold_time_hours: u64,
    stage: RunStage,
    event: RunEvent,
    now: Option<u64>,
)
    ensures
        ({
            let (next, action) = run_step(state, hold_time_hours, stage, event, now);
            action is Recover <==> state.current_position is None && ((stage is AwaitReconcile && (
            event matches RunEvent::Reconciled(answer) && answer is Ok)) || (
            stage is AwaitEmergencyClose && (event matches RunEvent::Closed(answer)
                && answer is Ok)))
        }),
{
}

/// The status is shown exactly where the round goes on with a position of two legs, with
/// one that a closing left, or after a recovery that nothing blocked. The opportunities
/// are shown exactly after the status was.
pub proof fn law_the_status_is_shown_in_every_round_that_goes_on(
    state: BotState,
    hold_time_hours: u64,
    stage: RunStage,
    event: RunEvent,
    now: Option<u64>,
)
    ensures
        ({
            let (next, action) = run_step(state, hold_time_hours, stage, event, now);
            &&& action is ShowStatus <==> {
                ||| stage is AwaitReconcile && (event matches RunEvent::Reconciled(answer)
                    && answer is Ok) && (state.current_position matches Some(pos)
                    && pos.extended_position is Some == pos.pacifica_position is Some)
                ||| stage is AwaitEmergencyClose && (event matches RunEvent::Closed(answer)
                    && answer is Ok) && state.current_position is Some
                ||| stage is AwaitRecovery && (event matches RunEvent::Recovery(Ok(outcome))
                    && !(outcome is Blocked))
            }
            &&& action is Scan <==> stage is AwaitStatus && (
            event matches RunEvent::StatusShown(answer) && answer is Ok)
        }),
{
}

/// A position is opened exactly where a round without one has shown the opportunities,
/// or after the pause behind the closing of a rotation.
pub proof fn law_what_leads_to_an_opening(
    state: BotState,
    hold_time_hours: u64,
    stage: RunStage,
    event: RunEvent,
    now: Option<u64>,
)
    ensures
        run_step(state, hold_time_hours, stage, event, now).1 is Open <==> (stage is AwaitScan
            && event is Scanned && state.current_position is None) || (stage is AwaitRotationPause
            && event is PauseOver),
{
}

/// A position is closed exactly where one leg of two is there when the state has been
/// brought in line, or where a round has shown the opportunities and the position has
/// been open for the seconds of the hours to hold it.
pub proof fn law_what_leads_to_a_closing(
    state: BotState,
    hold_time_hours: u64,
    stage: RunStage,
    event: RunEvent,
    now: Option<u64>,
)
    ensures
        run_step(state, hold_time_hours, stage, event, now).1 is Close <==> (
        state.current_position matches Some(pos) && {
            ||| stage is AwaitReconcile && (event matches RunEvent::Reconciled(answer)
                && answer is Ok) && pos.extended_position is Some != pos.pacifica_position is Some
            ||| stage is AwaitScan && event is Scanned && (now matches Some(t) && pos.opened_at <= t
                && t - pos.opened_at >= hold_time_hours * 3600)
        }),
{
}

/// The bot waits without heeding a shutdown for a minute where a venue could not be
/// asked, for five seconds where a single leg could not be closed and behind the closing
/// of a rotation, and for fifteen minutes where live positions stand in the way or a
/// rotation could not close the position; and in no other case.
pub proof fn law_how_long_the_bot_waits(
    state: BotState,
    hold_time_hours: u64,
    stage: RunStage,
    event: RunEvent,
    now: Option<u64>,
)
    ensures
        ({
            let (next, action) = run_step(state, hold_time_hours, stage, event, now);
            &&& action == RunAction::Sleep(60) <==> (stage is AwaitReconcile && (
            event matches RunEvent::Reconciled(answer) && answer is Err)) || (stage is AwaitRecovery
                && (event matches RunEvent::Recovery(answer) && answer is Err))
            &&& action == RunAction::Sleep(5) <==> (stage is AwaitEmergencyClose && (
            event matches RunEvent::Closed(answer) && answer is Err)) || (stage
                is AwaitRotationClose && (event matches RunEvent::Closed(answer) && answer is Ok))
            &&& action == RunAction::Sleep(900) <==> (stage is AwaitRecovery && (
            event matches RunEvent::Recovery(Ok(outcome)) && outcome is Blocked)) || (stage
                is AwaitRotationClose && (event matches RunEvent::Closed(answer) && answer is Err))
            &&& action matches RunAction::Sleep(secs) ==> secs == 60 || secs == 5 || secs == 900
        }),
{
}

/// The clock is found at fault exactly where the age of a position is needed and the
/// clock stands before the epoch or before the opening.
pub proof fn law_when_the_clock_is_at_fault(
    state: BotState,
    hold_time_hours: u64,
    stage: RunStage,
    event: RunEvent,
    now: Option<u64>,
)
    ensures
        ({
            let (next, action) = run_step(state, hold_time_hours, stage, event, now);
            let needed = stage is AwaitScan && event is Scanned && state.current_position is Some;
            &&& action == RunAction::ClockFault(ClockFault::BeforeEpoch) <==> needed && now is None
            &&& action == RunAction::ClockFault(ClockFault::BeforeOpening) <==> needed && (
            now matches Some(t) && t < state.current_position->0.opened_at)
            &&& action matches RunAction::ClockFault(fault) ==> fault != ClockFault::BeyondDates
        }),
{
}

/// The event is the one that the stage waits for.
pub open spec fn is_awaited(stage: RunStage, event: RunEvent) -> bool {
    match event {
        RunEvent::Begin => stage is Start,
        RunEvent::Polled(_) => stage is AwaitPoll,
        RunEvent::Reconciled(_) => stage is AwaitReconcile,
        RunEvent::Closed(_) => stage is AwaitEmergencyClose || stage is AwaitRotationClose,
        RunEvent::Recovery(_) => stage is AwaitRecovery,
        RunEvent::StatusShown(_) => stage is AwaitStatus,
        RunEvent::Scanned => stage is AwaitScan,
        RunEvent::Opened(_) => stage is AwaitOpen,
        RunEvent::PauseOver => stage is AwaitRotationPause || stage is AwaitRetry || stage
            is AwaitInterval,
        RunEvent::Shutdown => stage is AwaitInterval,
    }
}

/// An event that is waited for always brings the bot on, and one that is not changes
/// nothing. The bot then waits for what it has set about: for the answer to its question,
/// for the end of what it started, or for the end of its pause.
pub proof fn law_the_bot_waits_for_what_it_does(
    state: BotState,
    hold_time_hours: u64,
    stage: RunStage,
    event: RunEvent,
    now: Option<u64>,
)
    ensures
        ({
            let (next, action) = run_step(state, hold_time_hours, stage, event, now);
            &&& action is Await <==> !is_awaited(stage, event)
            &&& action is Await ==> next == stage
            &&& action is PollShutdown ==> next is AwaitPoll
            &&& action is Reconcile ==> next is AwaitReconcile
            &&& action is Recover ==> next is AwaitRecovery
            &&& action is ShowStatus ==> next is AwaitStatus
            &&& action is Scan ==> next is AwaitScan
            &&& action is Open ==> next is AwaitOpen
            &&& action is SleepUnlessShutdown ==> next is AwaitInterval
            &&& action is Close ==> (if stage is AwaitReconcile {
                next is AwaitEmergencyClose
            } else {
                next is AwaitRotationClose
            })
            &&& action is Sleep ==> (if event matches RunEvent::Closed(answer) && answer is Ok {
                next is AwaitRotationPause
            } else {
                next is AwaitRetry
            })
        }),
{
}

} // verus!
