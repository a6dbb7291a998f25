//! Closing the position, or making sure that there is none.
use crate::bot::FundingBot;
use crate::state::BotState;
use crate::text::{begins_with, concat2, concat3, decimal, decimal_text};
use crate::types::{DeltaNeutralPosition, PacificaPosition, Position};
use vstd::prelude::*;

verus! {

broadcast use vstd::string::group_string_axioms;

/// Where the closing stands.
pub enum CloseStage {
    Start,
    AwaitReconcile,
    AwaitClose,
    AwaitSave,
    AwaitExtendedScan,
    AwaitPacificaScan(Vec<Position>),
    Finished,
}

pub enum CloseEvent {
    Begin,
    /// The reconciliation has ended, well or not.
    Reconciled,
    Closed(Result<(), String>),
    Saved(Result<(), String>),
    /// All live positions on the Extended venue.
    ExtendedScan(Result<Vec<Position>, String>),
    /// All live positions on the Pacifica venue.
    PacificaScan(Result<Vec<PacificaPosition>, String>),
}

/// How a closing ended well.
#[derive(Clone, Copy, PartialEq, Eq, Debug, Structural)]
pub enum CloseOutcome {
    /// The position was no longer live.
    NothingLive,
    Closed,
    /// The bot knew of no position, and neither venue has one.
    VerifiedFlat,
}

/// How a closing failed.
pub enum CloseFailure {
    Close(String),
    Save(String),
    ExtendedScan(String),
    PacificaScan(String),
    /// The bot knew of no position, and the venues have this many.
    Untracked { extended: usize, pacifica: usize },
}

pub enum CloseAction {
    /// Nothing to do: the event was not the one waited for.
    Await,
    Reconcile,
    ClosePosition(DeltaNeutralPosition),
    SaveState,
    ScanExtended,
    ScanPacifica,
    Finish(CloseOutcome),
    Fail(CloseFailure),
}

impl CloseFailure {
    pub open spec fn message(self) -> Seq<char> {
        match self {
            CloseFailure::Close(e) => "Failed to close position: "@ + e@,
            CloseFailure::Save(e) => e@,
            CloseFailure::ExtendedScan(e) => "Extended position scan failed: "@ + e@
                + ". Refusing to report success over an unknown account state."@,
            CloseFailure::PacificaScan(e) => "Pacifica position scan failed: "@ + e@
                + ". Refusing to report success over an unknown account state."@,
            CloseFailure::Untracked { extended, pacifica } => "Refusing to report success: "@
                + decimal(extended as nat) + " Extended and "@ + decimal(pacifica as nat)
                + " Pacifica position(s) are open but absent from state. Close them manually and verify both venues before restarting."@,
        }
    }

    /// The failure in words.
    pub fn text(&self) -> (r: String)
        ensures
            r@ == self.message(),
    {
        match self {
            CloseFailure::Close(e) => concat2("Failed to close position: ", e.as_str()),
            CloseFailure::Save(e) => e.clone(),
            CloseFailure::ExtendedScan(e) => concat3(
                "Extended position scan failed: ",
                e.as_str(),
                ". Refusing to report success over an unknown account state.",
            ),
            CloseFailure::PacificaScan(e) => concat3(
                "Pacifica position scan failed: ",
                e.as_str(),
                ". Refusing to report success over an unknown account state.",
            ),
            CloseFailure::Untracked { extended, pacifica } => {
                let extended_count: String = decimal_text(*extended as u64);
                let pacifica_count: String = decimal_text(*pacifica as u64);
                let mut text: String = concat3(
                    "Refusing to report success: ",
                    extended_count.as_str(),
                    " Extended and ",
                );
                text.append(pacifica_count.as_str());
                text.append(
                    " Pacifica position(s) are open but absent from state. Close them manually and verify both venues before restarting.",
                );
                text
            },
        }
    }
}

/// Of a position on the Extended venue: it has a size.
pub open spec fn extended_is_open() -> spec_fn(Position) -> bool {
    |p: Position| p.size.spec_is_nonzero()
}

/// Of a position on the Pacifica venue: it has a size.
pub open spec fn pacifica_is_open() -> spec_fn(PacificaPosition) -> bool {
    |p: PacificaPosition| p.amount.spec_is_nonzero()
}

/// The positions on the Extended venue that have a size.
pub open spec fn open_on_extended(positions: Seq<Position>) -> Seq<Position> {
    positions.filter(extended_is_open())
}

/// The positions on the Pacifica venue that have a size.
pub open spec fn open_on_pacifica(positions: Seq<PacificaPosition>) -> Seq<PacificaPosition> {
    positions.filter(pacifica_is_open())
}

/// How the closing goes on from a stage when an event comes in.
pub open spec fn close_step(state: BotState, stage: CloseStage, event: CloseEvent) -> (
    BotState,
    CloseStage,
    CloseAction,
) {
    match (stage, event) {
        (CloseStage::Start, CloseEvent::Begin) => if state.current_position is Some {
            (state, CloseStage::AwaitReconcile, CloseAction::Reconcile)
        } else {
            (state, CloseStage::AwaitExtendedScan, CloseAction::ScanExtended)
        },
        (CloseStage::AwaitReconcile, CloseEvent::Reconciled) => match state.current_position {
            Some(pos) => (state, CloseStage::AwaitClose, CloseAction::ClosePosition(pos)),
            None => (state, CloseStage::Finished, CloseAction::Finish(CloseOutcome::NothingLive)),
        },
        (CloseStage::AwaitClose, CloseEvent::Closed(Ok(_))) => (
            BotState { current_position: None, ..state },
            CloseStage::AwaitSave,
            CloseAction::SaveState,
        ),
        (CloseStage::AwaitClose, CloseEvent::Closed(Err(e))) => (
            state,
            CloseStage::Finished,
            CloseAction::Fail(CloseFailure::Close(e)),
        ),
        (CloseStage::AwaitSave, CloseEvent::Saved(Ok(_))) => (
            state,
            CloseStage::Finished,
            CloseAction::Finish(CloseOutcome::Closed),
        ),
        (CloseStage::AwaitSave, CloseEvent::Saved(Err(e))) => (
            state,
            CloseStage::Finished,
            CloseAction::Fail(CloseFailure::Save(e)),
        ),
        (CloseStage::AwaitExtendedScan, CloseEvent::ExtendedScan(Ok(live))) => (
            state,
            CloseStage::AwaitPacificaScan(live),
            CloseAction::ScanPacifica,
        ),
        (CloseStage::AwaitExtendedScan, CloseEvent::ExtendedScan(Err(e))) => (
            state,
            CloseStage::Finished,
            CloseAction::Fail(CloseFailure::ExtendedScan(e)),
        ),
        (CloseStage::AwaitPacificaScan(extended), CloseEvent::PacificaScan(Ok(pacifica))) => {
            let e = open_on_extended(extended@).len();
            let p = open_on_pacifica(pacifica@).len();
            if e == 0 && p == 0 {
                (state, CloseStage::Finished, CloseAction::Finish(CloseOutcome::VerifiedFlat))
            } else {
                (
                    state,
                    CloseStage::Finished,
                    CloseAction::Fail(
                        CloseFailure::Untracked { extended: e as usize, pacifica: p as usize },
                    ),
                )
            }
        },
        (CloseStage::AwaitPacificaScan(_), CloseEvent::PacificaScan(Err(e))) => (
            state,
            CloseStage::Finished,
            CloseAction::Fail(CloseFailure::PacificaScan(e)),
        ),
        _ => (state, stage, CloseAction::Await),
    }
}

/// The positions on the Extended venue that have a size.
pub fn count_open_on_extended(positions: &Vec<Position>) -> (r: usize)
    ensures
        r == open_on_extended(positions@).len(),
{
    let mut count: usize = 0;
    let mut i: usize = 0;
    assert(positions@.take(0).filter(extended_is_open()).len() == 0) by {
        reveal(Seq::filter);
    }
    while i < positions.len()
        invariant
            i <= positions.len(),
            count <= i,
            count == positions@.take(i as int).filter(extended_is_open()).len(),
        decreases positions.len() - i,
    {
        proof {
            let next = positions@.take(i + 1);
            assert(next.drop_last() =~= positions@.take(i as int));
            assert(next.last() == positions@[i as int]);
            reveal(Seq::filter);
        }
        if positions[i].size.is_nonzero() {
            count = count + 1;
        }
        i = i + 1;
    }
    assert(positions@.take(i as int) =~= positions@);
    count
}

/// The positions on the Pacifica venue that have a size.
pub fn count_open_on_pacifica(positions: &Vec<PacificaPosition>) -> (r: usize)
    ensures
        r == open_on_pacifica(positions@).len(),
{
    let mut count: usize = 0;
    let mut i: usize = 0;
    assert(positions@.take(0).filter(pacifica_is_open()).len() == 0) by {
        reveal(Seq::filter);
    }
    while i < positions.len()
        invariant
            i <= positions.len(),
            count <= i,
            count == positions@.take(i as int).filter(pacifica_is_open()).len(),
        decreases positions.len() - i,
    {
        proof {
            let next = positions@.take(i + 1);
            assert(next.drop_last() =~= positions@.take(i as int));
            assert(next.last() == positions@[i as int]);
            reveal(Seq::filter);
        }
        if positions[i].amount.is_nonzero() {
            count = count + 1;
        }
        i = i + 1;
    }
    assert(positions@.take(i as int) =~= positions@);
    count
}

impl FundingBot {
    /// One step of closing the position. A state without a position is no proof
    /// that there is none: both venues are asked before the closing ends well.
    pub fn close_current_position(&mut self, stage: CloseStage, event: CloseEvent) -> (r: (
        CloseStage,
        CloseAction,
    ))
        ensures
            (final(self).state, r.0, r.1) == close_step(old(self).state, stage, event),
            final(self).hold_time_hours == old(self).hold_time_hours,
            final(self).state_path == old(self).state_path,
    {
        match (stage, event) {
            (CloseStage::Start, CloseEvent::Begin) => if self.state.current_position.is_some() {
                (CloseStage::AwaitReconcile, CloseAction::Reconcile)
            } else {
                (CloseStage::AwaitExtendedScan, CloseAction::ScanExtended)
            },
            (CloseStage::AwaitReconcile, CloseEvent::Reconciled) => match &self.state.current_position {
                Some(pos) => (CloseStage::AwaitClose, CloseAction::ClosePosition(pos.clone())),
                None => (CloseStage::Finished, CloseAction::Finish(CloseOutcome::NothingLive)),
            },
            (CloseStage::AwaitClose, CloseEvent::Closed(closed)) => match closed {
                Ok(_) => {
                    self.state.current_position = None;
                    (CloseStage::AwaitSave, CloseAction::SaveState)
                },
                Err(e) => (CloseStage::Finished, CloseAction::Fail(CloseFailure::Close(e))),
            },
            (CloseStage::AwaitSave, CloseEvent::Saved(saved)) => match saved {
                Ok(_) => (CloseStage::Finished, CloseAction::Finish(CloseOutcome::Closed)),
                Err(e) => (CloseStage::Finished, CloseAction::Fail(CloseFailure::Save(e))),
            },
            (CloseStage::AwaitExtendedScan, CloseEvent::ExtendedScan(scan)) => match scan {
                Ok(live) => (CloseStage::AwaitPacificaScan(live), CloseAction::ScanPacifica),
                Err(e) => (CloseStage::Finished, CloseAction::Fail(CloseFailure::ExtendedScan(e))),
            },
            (CloseStage::AwaitPacificaScan(extended), CloseEvent::PacificaScan(scan)) => match scan {
                Ok(pacifica) => {
                    let e: usize = count_open_on_extended(&extended);
                    let p: usize = count_open_on_pacifica(&pacifica);
                    if e == 0 && p == 0 {
                        (CloseStage::Finished, CloseAction::Finish(CloseOutcome::VerifiedFlat))
                    } else {
                        (
                            CloseStage::Finished,
                            CloseAction::Fail(CloseFailure::Untracked { extended: e, pacifica: p }),
                        )
                    }
                },
                Err(e) => (CloseStage::Finished, CloseAction::Fail(CloseFailure::PacificaScan(e))),
            },
            (other, _) => (other, CloseAction::Await),
        }
    }
}

/// One move in the closing of a position.
pub struct CloseMove {
    pub before: BotState,
    pub stage: CloseStage,
    pub event: CloseEvent,
    pub after: BotState,
    pub next: CloseStage,
    pub action: CloseAction,
}

/// The moves of one closing, from its start on. Between two moves the state stays
/// as it is, but for what the reconciliation makes of it.
pub open spec fn is_closing(moves: Seq<CloseMove>) -> bool {
    &&& moves.len() > 0 ==> moves[0].stage is Start
    &&& forall|i: int|
        0 <= i < moves.len() ==> {
            let m = #[trigger] moves[i];
            (m.after, m.next, m.action) == close_step(m.before, m.stage, m.event)
        }
    &&& forall|i: int, j: int|
        0 <= i && j == i + 1 && j < moves.len() ==> {
            let a = #[trigger] moves[i];
            let b = #[trigger] moves[j];
            a.next == b.stage && (b.stage is AwaitReconcile || a.after == b.before)
        }
}

/// Before the move at `k` the Extended venue was found to have no open position.
pub open spec fn extended_was_flat(moves: Seq<CloseMove>, k: int) -> bool {
    exists|i: int|
        0 <= i < k && ((#[trigger] moves[i]).event matches CloseEvent::ExtendedScan(Ok(live))
            && open_on_extended(live@).len() == 0)
}

proof fn lemma_without_position(moves: Seq<CloseMove>, k: int)
    requires
        is_closing(moves),
        0 <= k < moves.len(),
    ensures
        (moves[k].stage is AwaitSave || moves[k].stage is AwaitExtendedScan
            || moves[k].stage is AwaitPacificaScan) ==> moves[k].before.current_position is None,
        moves[k].stage matches CloseStage::AwaitPacificaScan(live) ==> exists|i: int|
            0 <= i < k && ((#[trigger] moves[i]).event == CloseEvent::ExtendedScan(Ok(live))),
    decreases k,
{
    if k > 0 {
        lemma_without_position(moves, k - 1);
        let m = moves[k];
        let n = moves[k - 1];
        assert(n.next == m.stage);
        if n.stage is AwaitExtendedScan && m.stage is AwaitPacificaScan {
            assert(n.event is ExtendedScan);
        }
    }
}

/// A closing ends well only with a state that holds no position.
pub proof fn law_a_finished_closing_leaves_no_position(moves: Seq<CloseMove>, k: int)
    requires
        is_closing(moves),
        0 <= k < moves.len(),
        moves[k].action is Finish,
    ensures
        moves[k].after.current_position is None,
{
    lemma_without_position(moves, k);
}

/// Where the bot knows of no position, success is reported only after both venues
/// have answered and neither has an open position.
pub proof fn law_flat_is_reported_only_when_verified(moves: Seq<CloseMove>, k: int)
    requires
        is_closing(moves),
        0 <= k < moves.len(),
        moves[0].before.current_position is None,
        moves[k].action is Finish,
    ensures
        moves[k].event matches CloseEvent::PacificaScan(Ok(live)) && open_on_pacifica(
            live@,
        ).len() == 0,
        extended_was_flat(moves, k),
{
    lemma_stays_on_the_scans(moves, k);
    lemma_without_position(moves, k);
    let live = moves[k].stage->AwaitPacificaScan_0;
    let i = choose|i: int|
        0 <= i < k && ((#[trigger] moves[i]).event == CloseEvent::ExtendedScan(Ok(live)));
    assert(moves[i].event == CloseEvent::ExtendedScan(Ok(live)));
}

proof fn lemma_stays_on_the_scans(moves: Seq<CloseMove>, k: int)
    requires
        is_closing(moves),
        0 <= k < moves.len(),
        moves[0].before.current_position is None,
    ensures
        moves[k].before.current_position is None,
        !(moves[k].stage is AwaitReconcile || moves[k].stage is AwaitClose
            || moves[k].stage is AwaitSave),
    decreases k,
{
    if k > 0 {
        lemma_stays_on_the_scans(moves, k - 1);
        assert(moves[k - 1].next == moves[k].stage);
    }
}

/// A position that the venues have and the bot does not know of is never reported
/// as closed: the closing fails and names how many there are.
pub proof fn law_untracked_positions_are_refused(
    state: BotState,
    extended: Vec<Position>,
    pacifica: Vec<PacificaPosition>,
)
    requires
        open_on_extended(extended@).len() > 0 || open_on_pacifica(pacifica@).len() > 0,
    ensures
        close_step(
            state,
            CloseStage::AwaitPacificaScan(extended),
            CloseEvent::PacificaScan(Ok(pacifica)),
        ).2 == CloseAction::Fail(
            CloseFailure::Untracked {
                extended: open_on_extended(extended@).len() as usize,
                pacifica: open_on_pacifica(pacifica@).len() as usize,
            },
        ),
{
}

/// What is handed over to be closed is the position that the state holds after the
/// reconciliation, in every field: each leg that the state holds is in it. It is handed
/// over exactly where the state still holds one.
pub proof fn law_what_is_closed_is_what_the_state_holds(
    state: BotState,
    stage: CloseStage,
    event: CloseEvent,
)
    ensures
        ({
            let (after, next, action) = close_step(state, stage, event);
            &&& action is ClosePosition <==> stage is AwaitReconcile && event is Reconciled
                && state.current_position is Some
            &&& action matches CloseAction::ClosePosition(pos) ==> {
                &&& state.current_position == Some(pos)
                &&& pos.symbol == state.current_position->0.symbol
                &&& pos.extended_position == state.current_position->0.extended_position
                &&& pos.pacifica_position == state.current_position->0.pacifica_position
                &&& pos.opened_at == state.current_position->0.opened_at
                &&& after == state
                &&& next is AwaitClose
            }
        }),
{
}

/// The position is forgotten exactly where it was closed: then the state is saved, and it
/// differs in nothing else. No other event of a closing changes the state.
pub proof fn law_only_a_closed_position_is_forgotten(
    state: BotState,
    stage: CloseStage,
    event: CloseEvent,
)
    ensures
        ({
            let (after, next, action) = close_step(state, stage, event);
            &&& action is SaveState <==> stage is AwaitClose && (event matches CloseEvent::Closed(
                answer,
            ) && answer is Ok)
            &&& action is SaveState ==> after.current_position is None && next is AwaitSave
            &&& !(action is SaveState) ==> after == state
            &&& after.last_rotation_time == state.last_rotation_time
            &&& after.total_rotations == state.total_rotations
        }),
{
}

/// A closing starts with the reconciliation where the state holds a position, and with the
/// question to the Extended venue where it holds none. The Pacifica venue is asked after
/// the Extended venue has answered, and the answer is kept.
pub proof fn law_how_a_closing_starts(state: BotState, stage: CloseStage, event: CloseEvent)
    ensures
        ({
            let (after, next, action) = close_step(state, stage, event);
            let starts = stage is Start && event is Begin;
            &&& action is Reconcile <==> starts && state.current_position is Some
            &&& action is Reconcile ==> next is AwaitReconcile
            &&& action is ScanExtended <==> starts && state.current_position is None
            &&& action is ScanExtended ==> next is AwaitExtendedScan
            &&& action is ScanPacifica <==> stage is AwaitExtendedScan && (
            event matches CloseEvent::ExtendedScan(answer) && answer is Ok)
            &&& action is ScanPacifica ==> (next matches CloseStage::AwaitPacificaScan(live) && event
                == CloseEvent::ExtendedScan(Ok(live)))
        }),
{
}

/// A closing ends well in three cases: the reconciliation left no position; the closed
/// position is forgotten on disk too; or the bot knew of none and no live position of
/// either venue has a size.
pub proof fn law_how_a_closing_ends_well(state: BotState, stage: CloseStage, event: CloseEvent)
    ensures
        ({
            let (after, next, action) = close_step(state, stage, event);
            &&& action == CloseAction::Finish(CloseOutcome::NothingLive) <==> stage is AwaitReconcile
                && event is Reconciled && state.current_position is None
            &&& action == CloseAction::Finish(CloseOutcome::Closed) <==> stage is AwaitSave && (
            event matches CloseEvent::Saved(answer) && answer is Ok)
            &&& action == CloseAction::Finish(CloseOutcome::VerifiedFlat) <==> (
            stage matches CloseStage::AwaitPacificaScan(extended)
                && event matches CloseEvent::PacificaScan(Ok(pacifica)) && (forall|i: int|
                0 <= i < extended@.len() ==> !(#[trigger] extended@[i]).size.spec_is_nonzero()) && (
            forall|i: int|
                0 <= i < pacifica@.len() ==> !(
                #[trigger] pacifica@[i]).amount.spec_is_nonzero()))
            &&& action is Finish || action is Fail ==> next is Finished
        }),
{
    if let CloseStage::AwaitPacificaScan(extended) = stage {
        lemma_none_open_on_extended(extended@);
    }
    if let CloseEvent::PacificaScan(Ok(pacifica)) = event {
        lemma_none_open_on_pacifica(pacifica@);
    }
}

/// A closing fails exactly where something it needs failed, with the reason of it, or where
/// the bot knew of no position and a venue has one.
pub proof fn law_how_a_closing_fails(state: BotState, stage: CloseStage, event: CloseEvent)
    ensures
        ({
            let (after, next, action) = close_step(state, stage, event);
            &&& action is Fail <==> {
                ||| stage is AwaitClose && (event matches CloseEvent::Closed(answer)
                    && answer is Err)
                ||| stage is AwaitSave && (event matches CloseEvent::Saved(answer) && answer is Err)
                ||| stage is AwaitExtendedScan && (event matches CloseEvent::ExtendedScan(answer)
                    && answer is Err)
                ||| stage is AwaitPacificaScan && (event matches CloseEvent::PacificaScan(answer)
                    && answer is Err)
                ||| stage matches CloseStage::AwaitPacificaScan(extended)
                    && event matches CloseEvent::PacificaScan(Ok(pacifica)) && ((exists|i: int|
                    0 <= i < extended@.len() && (#[trigger] extended@[i]).size.spec_is_nonzero())
                    || (exists|i: int|
                    0 <= i < pacifica@.len() && (
                    #[trigger] pacifica@[i]).amount.spec_is_nonzero()))
            }
            &&& action matches CloseAction::Fail(failure) ==> match failure {
                CloseFailure::Close(e) => event == CloseEvent::Closed(Err(e)),
                CloseFailure::Save(e) => event == CloseEvent::Saved(Err(e)),
                CloseFailure::ExtendedScan(e) => event == CloseEvent::ExtendedScan(Err(e)),
                CloseFailure::PacificaScan(e) => event == CloseEvent::PacificaScan(Err(e)),
                CloseFailure::Untracked { .. } => event matches CloseEvent::PacificaScan(answer)
                    && answer is Ok,
            }
        }),
{
    if let CloseStage::AwaitPacificaScan(extended) = stage {
        lemma_none_open_on_extended(extended@);
    }
    if let CloseEvent::PacificaScan(Ok(pacifica)) = event {
        lemma_none_open_on_pacifica(pacifica@);
    }
}

/// The event is the one that the stage waits for.
pub open spec fn is_awaited(stage: CloseStage, event: CloseEvent) -> bool {
    match event {
        CloseEvent::Begin => stage is Start,
        CloseEvent::Reconciled => stage is AwaitReconcile,
        CloseEvent::Closed(_) => stage is AwaitClose,
        CloseEvent::Saved(_) => stage is AwaitSave,
        CloseEvent::ExtendedScan(_) => stage is AwaitExtendedScan,
        CloseEvent::PacificaScan(_) => stage is AwaitPacificaScan,
    }
}

/// An event that is waited for always brings the closing on, and one that is not changes
/// nothing.
pub proof fn law_only_awaited_events_move_a_closing(
    state: BotState,
    stage: CloseStage,
    event: CloseEvent,
)
    ensures
        ({
            let (after, next, action) = close_step(state, stage, event);
            &&& action is Await <==> !is_awaited(stage, event)
            &&& action is Await ==> after == state && next == stage
        }),
{
}

proof fn lemma_none_open_on_extended(positions: Seq<Position>)
    ensures
        open_on_extended(positions).len() == 0 <==> forall|i: int|
            0 <= i < positions.len() ==> !(#[trigger] positions[i]).size.spec_is_nonzero(),
    decreases positions.len(),
{
    reveal(Seq::filter);
    if positions.len() > 0 {
        let before = positions.drop_last();
        lemma_none_open_on_extended(before);
        assert(positions.last() == positions[positions.len() - 1]);
        if forall|i: int|
            0 <= i < positions.len() ==> !(#[trigger] positions[i]).size.spec_is_nonzero() {
            assert forall|i: int| 0 <= i < before.len() implies !(
            #[trigger] before[i]).size.spec_is_nonzero() by {
                assert(before[i] == positions[i]);
            }
        }
        if open_on_extended(positions).len() == 0 {
            assert forall|i: int| 0 <= i < positions.len() implies !(
            #[trigger] positions[i]).size.spec_is_nonzero() by {
                if i < before.len() {
                    assert(before[i] == positions[i]);
                }
            }
        }
    }
}

proof fn lemma_none_open_on_pacifica(positions: Seq<PacificaPosition>)
    ensures
        open_on_pacifica(positions).len() == 0 <==> forall|i: int|
            0 <= i < positions.len() ==> !(#[trigger] positions[i]).amount.spec_is_nonzero(),
    decreases positions.len(),
{
    reveal(Seq::filter);
    if positions.len() > 0 {
        let before = positions.drop_last();
        lemma_none_open_on_pacifica(before);
        assert(positions.last() == positions[positions.len() - 1]);
        if forall|i: int|
            0 <= i < positions.len() ==> !(#[trigger] positions[i]).amount.spec_is_nonzero() {
            assert forall|i: int| 0 <= i < before.len() implies !(
            #[trigger] before[i]).amount.spec_is_nonzero() by {
                assert(before[i] == positions[i]);
            }
        }
        if open_on_pacifica(positions).len() == 0 {
            assert forall|i: int| 0 <= i < positions.len() implies !(
            #[trigger] positions[i]).amount.spec_is_nonzero() by {
                if i < before.len() {
                    assert(before[i] == positions[i]);
                }
            }
        }
    }
}

/// The count that a refusal names goes up by one with each further position that has a
/// size, and by none with one that has not, on both venues.
pub proof fn law_each_open_position_counts_once(
    extended: Seq<Position>,
    e: Position,
    pacifica: Seq<PacificaPosition>,
    p: PacificaPosition,
)
    ensures
        open_on_extended(Seq::<Position>::empty()).len() == 0,
        open_on_pacifica(Seq::<PacificaPosition>::empty()).len() == 0,
        open_on_extended(extended.push(e)).len() == open_on_extended(extended).len() + (if !e.size.is_nan()
            && e.size.rank() != 0 {
            1int
        } else {
            0
        }),
        open_on_pacifica(pacifica.push(p)).len() == open_on_pacifica(pacifica).len() + (
        if !p.amount.is_nan() && p.amount.rank() != 0 {
            1int
        } else {
            0
        }),
{
    reveal(Seq::filter);
    assert(extended.push(e).drop_last() =~= extended);
    assert(pacifica.push(p).drop_last() =~= pacifica);
}

/// The refusal names how many positions are open on each venue.
pub proof fn law_a_refusal_counts_the_open_positions(
    state: BotState,
    extended: Vec<Position>,
    pacifica: Vec<PacificaPosition>,
)
    requires
        open_on_extended(extended@).len() <= usize::MAX,
        open_on_pacifica(pacifica@).len() <= usize::MAX,
    ensures
        close_step(
            state,
            CloseStage::AwaitPacificaScan(extended),
            CloseEvent::PacificaScan(Ok(pacifica)),
        ).2 matches CloseAction::Fail(failure) ==> (failure matches CloseFailure::Untracked {
            extended: e,
            pacifica: p,
        } && e == open_on_extended(extended@).len() && p == open_on_pacifica(pacifica@).len()),
{
}

/// A failed closing is told with what failed and the reason of it; a refusal says how many
/// positions each venue has.
pub proof fn law_how_a_failed_closing_is_told(reason: String, extended: usize, pacifica: usize)
    ensures
        CloseFailure::Save(reason).message() == reason@,
        CloseFailure::Close(reason).message() == "Failed to close position: "@ + reason@,
        begins_with(
            CloseFailure::ExtendedScan(reason).message(),
            "Extended position scan failed: "@ + reason@,
        ),
        begins_with(
            CloseFailure::PacificaScan(reason).message(),
            "Pacifica position scan failed: "@ + reason@,
        ),
        begins_with(
            CloseFailure::Untracked { extended, pacifica }.message(),
            "Refusing to report success: "@ + decimal(extended as nat) + " Extended and "@
                + decimal(pacifica as nat) + " Pacifica position(s) are open"@,
        ),
{
    let on_extended = "Extended position scan failed: "@ + reason@;
    let on_pacifica = "Pacifica position scan failed: "@ + reason@;
    assert(CloseFailure::ExtendedScan(reason).message().subrange(0, on_extended.len() as int)
        =~= on_extended);
    assert(CloseFailure::PacificaScan(reason).message().subrange(0, on_pacifica.len() as int)
        =~= on_pacifica);
    let counts = "Refusing to report success: "@ + decimal(extended as nat) + " Extended and "@
        + decimal(pacifica as nat);
    let told = counts + " Pacifica position(s) are open"@;
    let whole = CloseFailure::Untracked { extended, pacifica }.message();
    let tail =
        " Pacifica position(s) are open but absent from state. Close them manually and verify both venues before restarting."@;
    assert(whole =~= counts + tail);
    reveal_strlit(
        " Pacifica position(s) are open but absent from state. Close them manually and verify both venues before restarting.",
    );
    reveal_strlit(" Pacifica position(s) are open");
    assert(tail.subrange(0, 30) =~= " Pacifica position(s) are open"@);
    assert(whole.subrange(0, told.len() as int) =~= counts + tail.subrange(0, 30));
}

} // verus!
