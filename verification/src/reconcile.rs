//! Bringing the state in line with what the venues report.
use crate::bot::{extended_market, market_name, one_legged, FundingBot};
use crate::state::BotState;
use crate::text::same_text;
use crate::types::{first_where, DeltaNeutralPosition, PacificaPosition, Position};
use vstd::prelude::*;

verus! {

broadcast use vstd::string::group_string_axioms;

/// Where the reconciliation stands. The position is the one that the state holds.
pub enum ReconcileStage {
    Start,
    AwaitExtended(DeltaNeutralPosition),
    AwaitPacifica(DeltaNeutralPosition, Option<Position>),
    AwaitSave,
    Finished,
}

pub enum ReconcileEvent {
    Begin,
    /// The live positions in the market that was asked for.
    Extended(Result<Vec<Position>, String>),
    /// The live position in the symbol that was asked for.
    Pacifica(Result<Option<PacificaPosition>, String>),
    Saved(Result<(), String>),
}

pub enum ReconcileAction {
    /// Nothing to do: the event was not the one waited for.
    Await,
    /// Ask for the live positions in the market of this symbol.
    QueryExtended(String),
    /// Ask for the live position in this symbol.
    QueryPacifica(String),
    SaveState,
    Finish,
    Fail(String),
}

/// Of a position on the Extended venue: it is in this market.
pub open spec fn market_is(market: Seq<char>) -> spec_fn(Position) -> bool {
    |p: Position| p.market@ == market
}

/// What is left of a position when these legs are live.
pub open spec fn with_live_legs(
    saved: DeltaNeutralPosition,
    extended: Option<Position>,
    pacifica: Option<PacificaPosition>,
) -> Option<DeltaNeutralPosition> {
    if extended is None && pacifica is None {
        None
    } else {
        Some(
            DeltaNeutralPosition {
                extended_position: extended,
                pacifica_position: pacifica,
                ..saved
            },
        )
    }
}

/// How the reconciliation goes on from a stage when an event comes in.
pub open spec fn reconcile_step(state: BotState, stage: ReconcileStage, event: ReconcileEvent) -> (
    BotState,
    ReconcileStage,
    ReconcileAction,
) {
    match (stage, event) {
        (ReconcileStage::Start, ReconcileEvent::Begin) => match state.current_position {
            Some(saved) => (
                state,
                ReconcileStage::AwaitExtended(saved),
                ReconcileAction::QueryExtended(saved.symbol),
            ),
            None => (state, ReconcileStage::Finished, ReconcileAction::Finish),
        },
        (ReconcileStage::AwaitExtended(saved), ReconcileEvent::Extended(Ok(live))) => (
            state,
            ReconcileStage::AwaitPacifica(
                saved,
                first_where(live@, market_is(market_name(saved.symbol@))),
            ),
            ReconcileAction::QueryPacifica(saved.symbol),
        ),
        (ReconcileStage::AwaitExtended(_), ReconcileEvent::Extended(Err(e))) => (
            state,
            ReconcileStage::Finished,
            ReconcileAction::Fail(e),
        ),
        (
            ReconcileStage::AwaitPacifica(saved, extended),
            ReconcileEvent::Pacifica(Ok(pacifica)),
        ) => (
            BotState { current_position: with_live_legs(saved, extended, pacifica), ..state },
            ReconcileStage::AwaitSave,
            ReconcileAction::SaveState,
        ),
        (ReconcileStage::AwaitPacifica(_, _), ReconcileEvent::Pacifica(Err(e))) => (
            state,
            ReconcileStage::Finished,
            ReconcileAction::Fail(e),
        ),
        (ReconcileStage::AwaitSave, ReconcileEvent::Saved(Ok(_))) => (
            state,
            ReconcileStage::Finished,
            ReconcileAction::Finish,
        ),
        (ReconcileStage::AwaitSave, ReconcileEvent::Saved(Err(e))) => (
            state,
            ReconcileStage::Finished,
            ReconcileAction::Fail(e),
        ),
        _ => (state, stage, ReconcileAction::Await),
    }
}

/// The position in a market, among positions on the Extended venue.
fn find_in_market(positions: &Vec<Position>, market: &str) -> (r: Option<Position>)
    ensures
        r == first_where(positions@, market_is(market@)),
{
    let ghost wanted = market_is(market@);
    let mut i: usize = 0;
    while i < positions.len()
        invariant
            i <= positions.len(),
            wanted == market_is(market@),
            forall|j: int| 0 <= j < i ==> !wanted(#[trigger] positions@[j]),
        decreases positions.len() - i,
    {
        if same_text(positions[i].market.as_str(), market) {
            proof {
                crate::types::lemma_first_is(positions@, wanted, i as int);
            }
            return Some(positions[i].clone());
        }
        i = i + 1;
    }
    proof {
        crate::types::lemma_first_is_none(positions@, wanted);
    }
    None
}

impl FundingBot {
    /// One step of bringing the state in line with the venues: a position with no
    /// live leg is forgotten, one with a single live leg keeps that leg alone.
    pub fn reconcile_state(&mut self, stage: ReconcileStage, event: ReconcileEvent) -> (r: (
        ReconcileStage,
        ReconcileAction,
    ))
        ensures
            (final(self).state, r.0, r.1) == reconcile_step(old(self).state, stage, event),
            final(self).hold_time_hours == old(self).hold_time_hours,
            final(self).state_path == old(self).state_path,
    {
        match (stage, event) {
            (ReconcileStage::Start, ReconcileEvent::Begin) => match &self.state.current_position {
                Some(saved) => (
                    ReconcileStage::AwaitExtended(saved.clone()),
                    ReconcileAction::QueryExtended(saved.symbol.clone()),
                ),
                None => (ReconcileStage::Finished, ReconcileAction::Finish),
            },
            (ReconcileStage::AwaitExtended(saved), ReconcileEvent::Extended(answer)) => match answer {
                Ok(live) => {
                    let market: String = extended_market(saved.symbol.as_str());
                    let extended: Option<Position> = find_in_market(&live, market.as_str());
                    let symbol: String = saved.symbol.clone();
                    (
                        ReconcileStage::AwaitPacifica(saved, extended),
                        ReconcileAction::QueryPacifica(symbol),
                    )
                },
                Err(e) => (ReconcileStage::Finished, ReconcileAction::Fail(e)),
            },
            (
                ReconcileStage::AwaitPacifica(saved, extended),
                ReconcileEvent::Pacifica(answer),
            ) => match answer {
                Ok(pacifica) => {
                    if extended.is_none() && pacifica.is_none() {
                        self.state.current_position = None;
                    } else {
                        self.state.current_position = Some(
                            DeltaNeutralPosition {
                                symbol: saved.symbol,
                                extended_position: extended,
                                pacifica_position: pacifica,
                                opened_at: saved.opened_at,
                                target_notional_usd: saved.target_notional_usd,
                            },
                        );
                    }
                    (ReconcileStage::AwaitSave, ReconcileAction::SaveState)
                },
                Err(e) => (ReconcileStage::Finished, ReconcileAction::Fail(e)),
            },
            (ReconcileStage::AwaitSave, ReconcileEvent::Saved(saved)) => match saved {
                Ok(_) => (ReconcileStage::Finished, ReconcileAction::Finish),
                Err(e) => (ReconcileStage::Finished, ReconcileAction::Fail(e)),
            },
            (other, _) => (other, ReconcileAction::Await),
        }
    }
}

/// The state, the stage and the last action after these events.
pub open spec fn reconcile_run(state: BotState, events: Seq<ReconcileEvent>) -> (
    BotState,
    ReconcileStage,
    ReconcileAction,
)
    decreases events.len(),
{
    if events.len() == 0 {
        (state, ReconcileStage::Start, ReconcileAction::Await)
    } else {
        let before = reconcile_run(state, events.drop_last());
        reconcile_step(before.0, before.1, events.last())
    }
}

/// A venue could not be asked.
pub open spec fn is_query_failure(event: ReconcileEvent) -> bool {
    match event {
        ReconcileEvent::Extended(Err(_)) => true,
        ReconcileEvent::Pacifica(Err(_)) => true,
        _ => false,
    }
}

/// Reconciliation is still asking.
spec fn asking(stage: ReconcileStage) -> bool {
    stage is Start || stage is AwaitExtended || stage is AwaitPacifica
}

/// While the venues are being asked the state is as it was, and the stage holds
/// the position that it holds.
proof fn lemma_asking(state: BotState, events: Seq<ReconcileEvent>)
    ensures
        ({
            let (after, stage, action) = reconcile_run(state, events);
            &&& asking(stage) ==> after == state
            &&& stage matches ReconcileStage::AwaitExtended(saved) ==> state.current_position
                == Some(saved)
            &&& stage matches ReconcileStage::AwaitPacifica(saved, _) ==> state.current_position
                == Some(saved)
            &&& stage is AwaitSave ==> state.current_position is Some && (
            after.current_position matches Some(pos) ==> {
                &&& pos.extended_position is Some || pos.pacifica_position is Some
                &&& pos.symbol == state.current_position->0.symbol
                &&& pos.opened_at == state.current_position->0.opened_at
                &&& pos.target_notional_usd == state.current_position->0.target_notional_usd
            })
            &&& after.last_rotation_time == state.last_rotation_time
            &&& after.total_rotations == state.total_rotations
        }),
    decreases events.len(),
{
    if events.len() > 0 {
        lemma_asking(state, events.drop_last());
    }
}

/// A venue that cannot be asked leaves the state as it was: it is never taken for
/// a venue without positions.
pub proof fn law_failed_queries_change_nothing(state: BotState, events: Seq<ReconcileEvent>)
    requires
        events.len() > 0,
        reconcile_run(state, events).2 is Fail,
        is_query_failure(events.last()),
    ensures
        reconcile_run(state, events).0 == state,
{
    lemma_asking(state, events.drop_last());
}

/// Once the venues have answered, the position has a live leg or is forgotten,
/// and it is still the same pair, opened when it was. The count of rotations and
/// the time of the last one do not change.
pub proof fn law_reconciled_position_is_live(state: BotState, events: Seq<ReconcileEvent>)
    requires
        events.len() > 0,
        reconcile_run(state, events).2 is SaveState,
    ensures
        ({
            let after = reconcile_run(state, events).0;
            &&& after.current_position matches Some(pos) ==> {
                &&& pos.extended_position is Some || pos.pacifica_position is Some
                &&& state.current_position matches Some(saved) && pos.symbol == saved.symbol
                    && pos.opened_at == saved.opened_at && pos.target_notional_usd
                    == saved.target_notional_usd
            }
            &&& after.last_rotation_time == state.last_rotation_time
            &&& after.total_rotations == state.total_rotations
        }),
{
    lemma_asking(state, events);
    lemma_asking(state, events.drop_last());
}

/// A position that survives reconciliation is imbalanced exactly where one of its
/// legs is not live.
pub proof fn law_missing_leg_shows_as_imbalance(
    saved: DeltaNeutralPosition,
    extended: Option<Position>,
    pacifica: Option<PacificaPosition>,
)
    ensures
        with_live_legs(saved, extended, pacifica) matches Some(pos) ==> one_legged(pos) == (extended
            is None || pacifica is None),
        with_live_legs(saved, extended, pacifica) is None == (extended is None && pacifica is None),
{
}

/// The events of a reconciliation to which the venues and the disk answer this.
pub open spec fn answered(
    extended: Result<Vec<Position>, String>,
    pacifica: Result<Option<PacificaPosition>, String>,
    saved: Result<(), String>,
) -> Seq<ReconcileEvent> {
    seq![
        ReconcileEvent::Begin,
        ReconcileEvent::Extended(extended),
        ReconcileEvent::Pacifica(pacifica),
        ReconcileEvent::Saved(saved),
    ]
}

proof fn lemma_answered(
    state: BotState,
    extended: Result<Vec<Position>, String>,
    pacifica: Result<Option<PacificaPosition>, String>,
    saved: Result<(), String>,
)
    ensures
        reconcile_run(state, answered(extended, pacifica, saved)).0 == match (
            state.current_position,
            extended,
            pacifica,
        ) {
            (Some(pos), Ok(live), Ok(leg)) => BotState {
                current_position: with_live_legs(
                    pos,
                    first_where(live@, market_is(market_name(pos.symbol@))),
                    leg,
                ),
                ..state
            },
            _ => state,
        },
{
    let all = answered(extended, pacifica, saved);
    let three = all.drop_last();
    let two = three.drop_last();
    let one = two.drop_last();
    assert(one.drop_last() =~= Seq::<ReconcileEvent>::empty());
    assert(one.last() == ReconcileEvent::Begin);
    assert(two.last() == ReconcileEvent::Extended(extended));
    assert(three.last() == ReconcileEvent::Pacifica(pacifica));
    assert(all.last() == ReconcileEvent::Saved(saved));
    reveal_with_fuel(reconcile_run, 5);
}

/// To reconcile again what has just been reconciled, where the venues give the same
/// answers, changes nothing, whatever these answers are and whatever became of
/// saving the state.
pub proof fn law_reconciling_twice_is_reconciling_once(
    state: BotState,
    extended: Result<Vec<Position>, String>,
    pacifica: Result<Option<PacificaPosition>, String>,
    saved: Result<(), String>,
    saved_again: Result<(), String>,
)
    ensures
        ({
            let once = reconcile_run(state, answered(extended, pacifica, saved)).0;
            reconcile_run(once, answered(extended, pacifica, saved_again)).0 == once
        }),
{
    let once = reconcile_run(state, answered(extended, pacifica, saved)).0;
    lemma_answered(state, extended, pacifica, saved);
    lemma_answered(once, extended, pacifica, saved_again);
}

/// The venues are asked about the position that the state holds, by its symbol, the Extended
/// venue first. What the Extended venue has in the market of the symbol is kept: the first such
/// position, or none.
pub proof fn law_the_venues_are_asked_about_the_position(
    state: BotState,
    stage: ReconcileStage,
    event: ReconcileEvent,
)
    ensures
        ({
            let (after, next, action) = reconcile_step(state, stage, event);
            &&& action is QueryExtended <==> stage is Start && event is Begin && state.current_position
                is Some
            &&& action matches ReconcileAction::QueryExtended(symbol) ==> (next
                matches ReconcileStage::AwaitExtended(saved) && state.current_position == Some(saved)
                && symbol == saved.symbol)
            &&& action is QueryPacifica <==> stage is AwaitExtended && (event
                matches ReconcileEvent::Extended(answer) && answer is Ok)
            &&& action matches ReconcileAction::QueryPacifica(symbol) ==> (next
                matches ReconcileStage::AwaitPacifica(saved, leg) && event
                matches ReconcileEvent::Extended(Ok(live)) && {
                &&& stage == ReconcileStage::AwaitExtended(saved)
                &&& symbol == saved.symbol
                &&& leg matches Some(found) ==> exists|i: int|
                    0 <= i < live@.len() && #[trigger] live@[i] == found && found.market@
                        == saved.symbol@ + "-USD"@ && (forall|j: int|
                        0 <= j < i ==> (#[trigger] live@[j]).market@ != saved.symbol@ + "-USD"@)
                &&& leg is None ==> forall|j: int|
                    0 <= j < live@.len() ==> (#[trigger] live@[j]).market@ != saved.symbol@ + "-USD"@
            })
        }),
{
    if let (ReconcileStage::AwaitExtended(saved), ReconcileEvent::Extended(Ok(live))) = (
        stage,
        event,
    ) {
        let wanted = market_is(market_name(saved.symbol@));
        crate::types::lemma_first_where(live@, wanted);
        match first_where(live@, wanted) {
            Some(found) => {
                let i = choose|i: int|
                    0 <= i < live@.len() && live@[i] == found && wanted(live@[i]) && (forall|j: int|
                        0 <= j < i ==> !wanted(#[trigger] live@[j]));
                assert(live@[i] == found);
                assert forall|j: int| 0 <= j < i implies (#[trigger] live@[j]).market@
                    != saved.symbol@ + "-USD"@ by {
                    assert(!wanted(live@[j]));
                }
            },
            None => {
                assert forall|j: int| 0 <= j < live@.len() implies (#[trigger] live@[j]).market@
                    != saved.symbol@ + "-USD"@ by {
                    assert(!wanted(live@[j]));
                }
            },
        }
    }
}

/// Once both venues have answered, the position holds exactly the legs that they reported, and
/// is else as it was saved; where they reported none it is forgotten. Nothing else of the state
/// changes, and no other event changes the state.
pub proof fn law_the_position_holds_the_legs_that_are_live(
    state: BotState,
    stage: ReconcileStage,
    event: ReconcileEvent,
)
    ensures
        ({
            let (after, next, action) = reconcile_step(state, stage, event);
            &&& action is SaveState <==> stage is AwaitPacifica && (event
                matches ReconcileEvent::Pacifica(answer) && answer is Ok)
            &&& action is SaveState ==> next is AwaitSave && (stage
                matches ReconcileStage::AwaitPacifica(saved, extended) && event
                matches ReconcileEvent::Pacifica(Ok(pacifica)) && {
                &&& after.current_position is None <==> extended is None && pacifica is None
                &&& after.current_position matches Some(pos) ==> {
                    &&& pos.extended_position == extended
                    &&& pos.pacifica_position == pacifica
                    &&& pos.symbol == saved.symbol
                    &&& pos.opened_at == saved.opened_at
                    &&& pos.target_notional_usd == saved.target_notional_usd
                }
            })
            &&& !(action is SaveState) ==> after == state
            &&& after.last_rotation_time == state.last_rotation_time
            &&& after.total_rotations == state.total_rotations
        }),
{
}

/// A reconciliation ends well exactly where there was nothing to bring in line or the state was
/// saved, and fails exactly where a venue could not be asked or the state could not be saved,
/// with that reason.
pub proof fn law_how_a_reconciliation_ends(
    state: BotState,
    stage: ReconcileStage,
    event: ReconcileEvent,
)
    ensures
        ({
            let (after, next, action) = reconcile_step(state, stage, event);
            &&& action is Finish <==> (stage is Start && event is Begin && state.current_position is None)
                || (stage is AwaitSave && (event matches ReconcileEvent::Saved(answer) && answer is Ok))
            &&& action is Fail <==> {
                ||| stage is AwaitExtended && (event matches ReconcileEvent::Extended(answer) && answer
                    is Err)
                ||| stage is AwaitPacifica && (event matches ReconcileEvent::Pacifica(answer) && answer
                    is Err)
                ||| stage is AwaitSave && (event matches ReconcileEvent::Saved(answer) && answer is Err)
            }
            &&& action matches ReconcileAction::Fail(e) ==> match event {
                ReconcileEvent::Extended(answer) => answer == Err::<Vec<Position>, String>(e),
                ReconcileEvent::Pacifica(answer) => answer == Err::<Option<PacificaPosition>, String>(e),
                ReconcileEvent::Saved(answer) => answer == Err::<(), String>(e),
                ReconcileEvent::Begin => false,
            }
            &&& action is Finish || action is Fail ==> next is Finished
            &&& action is Await <==> !((stage is Start && event is Begin) || (stage is AwaitExtended
                && event is Extended) || (stage is AwaitPacifica && event is Pacifica) || (stage
                is AwaitSave && event is Saved))
            &&& action is Await ==> next == stage
        }),
{
}

} // verus!
