//! Live positions: fetching them again until both venues answer, and taking up a
//! position that the bot does not know of.
use crate::amount::Amount;
use crate::bot::{base_symbol, market_symbol, FundingBot};
use crate::clock::unix_now;
use crate::state::{BotState, ClockFault};
use crate::symbols::{in_order, SymbolSet};
use crate::text::{concat2, concat3, decimal, decimal_text, join_texts, joined, same_text, views};
use crate::types::{first_where, DeltaNeutralPosition, PacificaPosition, Position};
use vstd::prelude::*;

verus! {

broadcast use vstd::string::group_string_axioms;

/// The number of the first attempt to fetch the live positions.
pub const FIRST_ATTEMPT: u32 = 1;

/// How often the live positions are asked for before the bot gives up.
pub const LIVE_POSITIONS_MAX_ATTEMPTS: u32 = 6;

/// What to do after an attempt to fetch the live positions.
pub enum FetchStep {
    Done(Vec<Position>, Vec<PacificaPosition>),
    /// Make the attempt of this number after a delay.
    Retry(u32, String),
    GiveUp(String),
}

/// What is reported of an attempt that failed.
pub open spec fn fetch_failure_text(extended: Option<Seq<char>>, pacifica: Option<Seq<char>>) -> Seq<char> {
    match (extended, pacifica) {
        (Some(e), Some(p)) => "Extended: "@ + e + " | "@ + "Pacifica: "@ + p,
        (Some(e), None) => "Extended: "@ + e,
        (None, Some(p)) => "Pacifica: "@ + p,
        (None, None) => Seq::empty(),
    }
}

/// The reason for which an answer failed, where it did.
pub open spec fn failure_of<T>(answer: Result<T, String>) -> Option<Seq<char>> {
    match answer {
        Ok(_) => None,
        Err(e) => Some(e@),
    }
}

/// What comes of the `attempt`-th attempt to fetch the live positions.
pub open spec fn fetch_follows(
    attempt: u32,
    extended: Result<Vec<Position>, String>,
    pacifica: Result<Vec<PacificaPosition>, String>,
    step: FetchStep,
) -> bool {
    let failure = fetch_failure_text(failure_of(extended), failure_of(pacifica));
    match (extended, pacifica) {
        (Ok(e), Ok(p)) => step == FetchStep::Done(e, p),
        _ => if attempt >= LIVE_POSITIONS_MAX_ATTEMPTS {
            step matches FetchStep::GiveUp(text) && text@ == failure
        } else {
            step matches FetchStep::Retry(next, text) && next == attempt + 1 && text@ == failure
        },
    }
}

impl FundingBot {
    /// What to do after the `attempt`-th attempt to fetch the live positions: both
    /// venues must have answered, and after the last attempt there is no other.
    pub fn fetch_live_positions_with_backoff(
        attempt: u32,
        extended: Result<Vec<Position>, String>,
        pacifica: Result<Vec<PacificaPosition>, String>,
    ) -> (r: FetchStep)
        ensures
            fetch_follows(attempt, extended, pacifica, r),
    {
        let text: String = match (extended, pacifica) {
            (Ok(e), Ok(p)) => {
                return FetchStep::Done(e, p);
            },
            (Err(e), Err(p)) => {
                let mut both: String = concat3("Extended: ", e.as_str(), " | ");
                both.append("Pacifica: ");
                both.append(p.as_str());
                both
            },
            (Err(e), Ok(_)) => concat2("Extended: ", e.as_str()),
            (Ok(_), Err(p)) => concat2("Pacifica: ", p.as_str()),
        };
        if attempt >= LIVE_POSITIONS_MAX_ATTEMPTS {
            FetchStep::GiveUp(text)
        } else {
            FetchStep::Retry(attempt + 1, text)
        }
    }
}

/// One attempt to fetch the live positions: its number, what the venues answered,
/// and what came of it.
pub struct FetchAttempt {
    pub number: u32,
    pub extended: Result<Vec<Position>, String>,
    pub pacifica: Result<Vec<PacificaPosition>, String>,
    pub step: FetchStep,
}

/// The attempts of one fetch, from the first on. Each after the first is made
/// because the one before it asked for it.
pub open spec fn is_fetch(attempts: Seq<FetchAttempt>) -> bool {
    &&& attempts.len() > 0 ==> attempts[0].number == FIRST_ATTEMPT
    &&& forall|i: int|
        0 <= i < attempts.len() ==> {
            let a = #[trigger] attempts[i];
            fetch_follows(a.number, a.extended, a.pacifica, a.step)
        }
    &&& forall|i: int, j: int|
        0 <= i && j == i + 1 && j < attempts.len() ==> {
            let a = #[trigger] attempts[i];
            let b = #[trigger] attempts[j];
            a.step matches FetchStep::Retry(next, _) && b.number == next
        }
}

/// Both venues answered.
pub open spec fn both_answered(attempt: FetchAttempt) -> bool {
    attempt.extended is Ok && attempt.pacifica is Ok
}

proof fn lemma_attempts_are_numbered(attempts: Seq<FetchAttempt>, k: int)
    requires
        is_fetch(attempts),
        0 <= k < attempts.len(),
    ensures
        attempts[k].number == k + 1,
        k < LIVE_POSITIONS_MAX_ATTEMPTS,
        k + 1 < attempts.len() ==> !both_answered(attempts[k]),
    decreases k,
{
    if k > 0 {
        lemma_attempts_are_numbered(attempts, k - 1);
        let before = attempts[k - 1];
        assert(before.step is Retry && attempts[k].number == before.step->Retry_0);
    }
    if k + 1 < attempts.len() {
        let here = attempts[k];
        let after = attempts[k + 1];
        assert(here.step is Retry && after.number == here.step->Retry_0);
    }
}

/// A fetch makes six attempts at most. It ends with positions exactly where both
/// venues answered, with their answers to that attempt, which is the first that both
/// answered; and it gives up exactly where none of six attempts was answered by both.
pub proof fn law_a_fetch_ends_with_the_first_full_answer(attempts: Seq<FetchAttempt>)
    requires
        is_fetch(attempts),
        attempts.len() > 0,
    ensures
        attempts.len() <= LIVE_POSITIONS_MAX_ATTEMPTS,
        forall|i: int| 0 <= i < attempts.len() - 1 ==> !both_answered(#[trigger] attempts[i]),
        attempts.last().step is Done <==> both_answered(attempts.last()),
        attempts.last().step matches FetchStep::Done(e, p) ==> attempts.last().extended == Ok::<
            Vec<Position>,
            String,
        >(e) && attempts.last().pacifica == Ok::<Vec<PacificaPosition>, String>(p),
        attempts.last().step is GiveUp <==> attempts.len() == LIVE_POSITIONS_MAX_ATTEMPTS
            && !both_answered(attempts.last()),
{
    let last = attempts.len() - 1;
    lemma_attempts_are_numbered(attempts, last);
    assert forall|i: int| 0 <= i < attempts.len() - 1 implies !both_answered(
        #[trigger] attempts[i],
    ) by {
        lemma_attempts_are_numbered(attempts, i);
    }
    assert(fetch_follows(
        attempts[last].number,
        attempts[last].extended,
        attempts[last].pacifica,
        attempts[last].step,
    ));
}

// ---------------------------------------------------------------------------
// What the live positions are
// ---------------------------------------------------------------------------
/// What the live positions amount to.
pub enum LiveFinding {
    /// There are none.
    Flat,
    /// They are a pair, or one leg of one, with this symbol.
    Single(String),
    /// They cannot be taken for one pair; what they are is in the text.
    Unclear(String),
}

/// The symbols of positions on the Extended venue.
pub open spec fn extended_symbols(positions: Seq<Position>) -> Set<Seq<char>> {
    positions.map_values(|p: Position| base_symbol(p.market@)).to_set()
}

/// The symbols of positions on the Pacifica venue.
pub open spec fn pacifica_symbols(positions: Seq<PacificaPosition>) -> Set<Seq<char>> {
    positions.map_values(|p: PacificaPosition| p.symbol@).to_set()
}

/// Live positions in words.
pub open spec fn details_text(extended: Seq<Position>, pacifica: Seq<PacificaPosition>) -> Seq<char> {
    let e = extended_symbols(extended);
    let p = pacifica_symbols(pacifica);
    "extended: "@ + decimal(extended.len()) + " position(s) ["@ + joined(in_order(e), ", "@)
        + "]; pacifica: "@ + decimal(pacifica.len()) + " position(s) ["@ + joined(in_order(p), ", "@)
        + "]; overlap: ["@ + joined(in_order(e.intersect(p)), ", "@) + "]"@
}

/// The positions can be taken for the one pair with this symbol: it is the only
/// symbol that is on both venues, or none is and it is the only one at all.
pub open spec fn single_symbol(
    extended: Seq<Position>,
    pacifica: Seq<PacificaPosition>,
    symbol: Seq<char>,
) -> bool {
    let e = extended_symbols(extended);
    let p = pacifica_symbols(pacifica);
    let overlap = e.intersect(p);
    let all = e.union(p);
    ||| overlap.len() == 1 && overlap.contains(symbol)
    ||| overlap.len() == 0 && all.len() == 1 && all.contains(symbol)
}

/// Puts the symbols of positions on the Extended venue into a set.
fn collect_extended(positions: &Vec<Position>) -> (r: SymbolSet)
    ensures
        r@ == extended_symbols(positions@),
{
    let mut set = SymbolSet::new();
    let ghost name = |p: Position| base_symbol(p.market@);
    let mut i: usize = 0;
    assert(positions@.take(0).map_values(name).to_set() =~= Set::empty());
    while i < positions.len()
        invariant
            i <= positions.len(),
            name == (|p: Position| base_symbol(p.market@)),
            set@ == positions@.take(i as int).map_values(name).to_set(),
        decreases positions.len() - i,
    {
        let symbol: String = market_symbol(positions[i].market.as_str());
        set.insert(symbol.as_str());
        proof {
            lemma_set_of_next(positions@, name, i as int);
        }
        i = i + 1;
    }
    assert(positions@.take(i as int) =~= positions@);
    set
}

/// Puts the symbols of positions on the Pacifica venue into a set.
fn collect_pacifica(positions: &Vec<PacificaPosition>) -> (r: SymbolSet)
    ensures
        r@ == pacifica_symbols(positions@),
{
    let mut set = SymbolSet::new();
    let ghost name = |p: PacificaPosition| p.symbol@;
    let mut i: usize = 0;
    assert(positions@.take(0).map_values(name).to_set() =~= Set::empty());
    while i < positions.len()
        invariant
            i <= positions.len(),
            name == (|p: PacificaPosition| p.symbol@),
            set@ == positions@.take(i as int).map_values(name).to_set(),
        decreases positions.len() - i,
    {
        set.insert(positions[i].symbol.as_str());
        proof {
            lemma_set_of_next(positions@, name, i as int);
        }
        i = i + 1;
    }
    assert(positions@.take(i as int) =~= positions@);
    set
}

/// One more item puts its name into the set of names.
proof fn lemma_set_of_next<T>(items: Seq<T>, name: spec_fn(T) -> Seq<char>, i: int)
    requires
        0 <= i < items.len(),
    ensures
        items.take(i + 1).map_values(name).to_set() == items.take(i).map_values(name).to_set().insert(
            name(items[i]),
        ),
{
    let before = items.take(i).map_values(name);
    let after = items.take(i + 1).map_values(name);
    assert(after =~= before.push(name(items[i])));
    assert forall|x: Seq<char>| after.to_set().contains(x) <==> before.to_set().insert(
        name(items[i]),
    ).contains(x) by {
        if before.contains(x) {
            let k = choose|k: int| 0 <= k < before.len() && before[k] == x;
            assert(after[k] == x);
        }
        if after.contains(x) {
            let k = choose|k: int| 0 <= k < after.len() && after[k] == x;
            if k < before.len() {
                assert(before[k] == x);
            }
        }
        assert(after[before.len() as int] == name(items[i]));
    }
    assert(after.to_set() =~= before.to_set().insert(name(items[i])));
}

/// The members that two sets share.
fn common_symbols(a: &SymbolSet, b: &SymbolSet) -> (r: SymbolSet)
    ensures
        r@ == a@.intersect(b@),
{
    let list: &Vec<String> = a.members();
    let mut set = SymbolSet::new();
    let mut i: usize = 0;
    assert(set@ =~= views(list@).take(0).to_set().intersect(b@));
    while i < list.len()
        invariant
            i <= list.len(),
            set@ == views(list@).take(i as int).to_set().intersect(b@),
        decreases list.len() - i,
    {
        let ghost x = list@[i as int]@;
        proof {
            lemma_set_of_next(views(list@), |s: Seq<char>| s, i as int);
            assert(views(list@).take(i as int).map_values(|s: Seq<char>| s) =~= views(list@).take(
                i as int,
            ));
            assert(views(list@).take(i + 1).map_values(|s: Seq<char>| s) =~= views(list@).take(i + 1));
        }
        if b.contains(list[i].as_str()) {
            set.insert(list[i].as_str());
        }
        assert(set@ =~= views(list@).take(i + 1).to_set().intersect(b@));
        i = i + 1;
    }
    assert(views(list@).take(i as int) =~= views(list@));
    assert(views(list@).to_set() =~= a@) by {
        assert forall|s: Seq<char>| views(list@).to_set().contains(s) <==> a@.contains(s) by {
            assert(views(list@).contains(s) <==> a@.contains(s));
        }
    }
    set
}

/// The members of either set.
fn all_symbols(a: &SymbolSet, b: &SymbolSet) -> (r: SymbolSet)
    ensures
        r@ == a@.union(b@),
{
    let mut set = SymbolSet::new();
    let first: &Vec<String> = a.members();
    let second: &Vec<String> = b.members();
    let mut i: usize = 0;
    assert(set@ =~= views(first@).take(0).to_set());
    while i < first.len()
        invariant
            i <= first.len(),
            set@ == views(first@).take(i as int).to_set(),
        decreases first.len() - i,
    {
        proof {
            lemma_set_of_next(views(first@), |s: Seq<char>| s, i as int);
            assert(views(first@).take(i as int).map_values(|s: Seq<char>| s) =~= views(first@).take(
                i as int,
            ));
            assert(views(first@).take(i + 1).map_values(|s: Seq<char>| s) =~= views(first@).take(
                i + 1,
            ));
        }
        set.insert(first[i].as_str());
        i = i + 1;
    }
    assert(views(first@).take(i as int) =~= views(first@));
    let ghost from_first = set@;
    let mut j: usize = 0;
    assert(set@ =~= from_first.union(views(second@).take(0).to_set()));
    while j < second.len()
        invariant
            j <= second.len(),
            set@ == from_first.union(views(second@).take(j as int).to_set()),
        decreases second.len() - j,
    {
        proof {
            lemma_set_of_next(views(second@), |s: Seq<char>| s, j as int);
            assert(views(second@).take(j as int).map_values(|s: Seq<char>| s) =~= views(second@).take(
                j as int,
            ));
            assert(views(second@).take(j + 1).map_values(|s: Seq<char>| s) =~= views(second@).take(
                j + 1,
            ));
        }
        set.insert(second[j].as_str());
        assert(set@ =~= from_first.union(views(second@).take(j + 1).to_set()));
        j = j + 1;
    }
    assert(views(second@).take(j as int) =~= views(second@));
    proof {
        assert forall|s: Seq<char>| set@.contains(s) <==> a@.union(b@).contains(s) by {
            assert(views(first@).contains(s) <==> a@.contains(s));
            assert(views(second@).contains(s) <==> b@.contains(s));
        }
        assert(set@ =~= a@.union(b@));
    }
    set
}

/// What the live positions amount to.
pub fn examine_live(extended: &Vec<Position>, pacifica: &Vec<PacificaPosition>) -> (r: LiveFinding)
    ensures
        extended@.len() == 0 && pacifica@.len() == 0 <==> r is Flat,
        r matches LiveFinding::Single(symbol) ==> single_symbol(extended@, pacifica@, symbol@),
        r matches LiveFinding::Unclear(text) ==> text@ == details_text(extended@, pacifica@) && (
        forall|s: Seq<char>| !single_symbol(extended@, pacifica@, s)),
{
    if extended.len() == 0 && pacifica.len() == 0 {
        return LiveFinding::Flat;
    }
    let e: SymbolSet = collect_extended(extended);
    let p: SymbolSet = collect_pacifica(pacifica);
    let overlap: SymbolSet = common_symbols(&e, &p);
    let all: SymbolSet = all_symbols(&e, &p);
    let both: &Vec<String> = overlap.members();
    let either: &Vec<String> = all.members();
    if both.len() == 1 {
        assert(views(both@).contains(both@[0]@)) by {
            assert(views(both@)[0] == both@[0]@);
        }
        return LiveFinding::Single(both[0].clone());
    }
    if both.len() == 0 && either.len() == 1 {
        assert(views(either@).contains(either@[0]@)) by {
            assert(views(either@)[0] == either@[0]@);
        }
        return LiveFinding::Single(either[0].clone());
    }
    let extended_count: String = decimal_text(extended.len() as u64);
    let pacifica_count: String = decimal_text(pacifica.len() as u64);
    let extended_list: String = join_texts(e.members(), ", ");
    let pacifica_list: String = join_texts(p.members(), ", ");
    let overlap_list: String = join_texts(both, ", ");
    let mut text: String = concat3("extended: ", extended_count.as_str(), " position(s) [");
    text.append(extended_list.as_str());
    text.append("]; pacifica: ");
    text.append(pacifica_count.as_str());
    text.append(" position(s) [");
    text.append(pacifica_list.as_str());
    text.append("]; overlap: [");
    text.append(overlap_list.as_str());
    text.append("]");
    LiveFinding::Unclear(text)
}

// ---------------------------------------------------------------------------
// Taking up a position
// ---------------------------------------------------------------------------
/// Of a position on the Extended venue: its symbol is this one.
pub open spec fn extended_is(symbol: Seq<char>) -> spec_fn(Position) -> bool {
    |p: Position| base_symbol(p.market@) == symbol
}

/// Of a position on the Pacifica venue: its symbol is this one.
pub open spec fn pacifica_is(symbol: Seq<char>) -> spec_fn(PacificaPosition) -> bool {
    |p: PacificaPosition| p.symbol@ == symbol
}

/// The leg on the Extended venue among its live positions.
pub open spec fn extended_leg(positions: Seq<Position>, symbol: Seq<char>) -> Option<Position> {
    first_where(positions, extended_is(symbol))
}

/// The leg on the Pacifica venue among its live positions.
pub open spec fn pacifica_leg(positions: Seq<PacificaPosition>, symbol: Seq<char>) -> Option<
    PacificaPosition,
> {
    first_where(positions, pacifica_is(symbol))
}

/// When the Pacifica venue says that the leg was opened, where it says so.
pub open spec fn reported_opening(leg: Option<PacificaPosition>) -> Option<u64> {
    match leg {
        Some(p) => if p.created_at > 0 {
            Some((p.created_at / 1000) as u64)
        } else {
            None
        },
        None => None,
    }
}

/// The value of the larger leg, or 0 where neither is worth anything.
pub open spec fn live_notional(
    extended: Option<Position>,
    pacifica: Option<PacificaPosition>,
) -> Amount {
    let nothing = Amount { bits: 0 };
    let first = match extended {
        Some(e) => if e.value.spec_is_positive() {
            nothing.spec_max(e.value)
        } else {
            nothing
        },
        None => nothing,
    };
    match pacifica {
        Some(p) => if p.notional.spec_is_positive() {
            first.spec_max(p.notional)
        } else {
            first
        },
        None => first,
    }
}

fn find_extended(positions: &Vec<Position>, symbol: &str) -> (r: Option<Position>)
    ensures
        r == extended_leg(positions@, symbol@),
{
    let ghost wanted = extended_is(symbol@);
    let mut i: usize = 0;
    while i < positions.len()
        invariant
            i <= positions.len(),
            wanted == extended_is(symbol@),
            forall|j: int| 0 <= j < i ==> !wanted(#[trigger] positions@[j]),
        decreases positions.len() - i,
    {
        let name: String = market_symbol(positions[i].market.as_str());
        if same_text(name.as_str(), symbol) {
            proof {
                crate::types::lemma_first_is(positions@, wanted, i as int);
            }
            return Some(positions[i].clone());
        }
        i = i + 1;
    }
    proof {
        crate::types::lemma_first_is_none(positions@, wanted);
    }
    None
}

/// The leg with a symbol among the positions on the Pacifica venue.
pub fn find_pacifica(positions: &Vec<PacificaPosition>, symbol: &str) -> (r: Option<PacificaPosition>)
    ensures
        r == pacifica_leg(positions@, symbol@),
{
    let ghost wanted = pacifica_is(symbol@);
    let mut i: usize = 0;
    while i < positions.len()
        invariant
            i <= positions.len(),
            wanted == pacifica_is(symbol@),
            forall|j: int| 0 <= j < i ==> !wanted(#[trigger] positions@[j]),
        decreases positions.len() - i,
    {
        if same_text(positions[i].symbol.as_str(), symbol) {
            proof {
                crate::types::lemma_first_is(positions@, wanted, i as int);
            }
            return Some(positions[i].clone());
        }
        i = i + 1;
    }
    proof {
        crate::types::lemma_first_is_none(positions@, wanted);
    }
    None
}

fn notional_of(extended: &Option<Position>, pacifica: &Option<PacificaPosition>) -> (r: Amount)
    ensures
        r == live_notional(*extended, *pacifica),
{
    let mut notional: Amount = Amount::zero();
    match extended {
        Some(e) => {
            if e.value.is_positive() {
                notional = notional.max(e.value);
            }
        },
        None => {},
    }
    match pacifica {
        Some(p) => {
            if p.notional.is_positive() {
                notional = notional.max(p.notional);
            }
        },
        None => {},
    }
    notional
}

fn opening_reported(leg: &Option<PacificaPosition>) -> (r: Option<u64>)
    ensures
        r == reported_opening(*leg),
{
    match leg {
        Some(p) => if p.created_at > 0 {
            Some((p.created_at / 1000) as u64)
        } else {
            None
        },
        None => None,
    }
}

/// The position that the bot takes up: the live legs with the symbol, opened when
/// the Pacifica venue says or else at the second `now`.
pub open spec fn is_recovered_position(
    symbol: Seq<char>,
    extended: Seq<Position>,
    pacifica: Seq<PacificaPosition>,
    now: u64,
    r: DeltaNeutralPosition,
) -> bool {
    &&& r.symbol@ == symbol
    &&& r.extended_position == extended_leg(extended, symbol)
    &&& r.pacifica_position == pacifica_leg(pacifica, symbol)
    &&& r.opened_at == match reported_opening(r.pacifica_position) {
        Some(t) => t,
        None => now,
    }
    &&& r.target_notional_usd == live_notional(r.extended_position, r.pacifica_position)
}

/// The position that the bot takes up.
pub fn recovered_position(
    symbol: String,
    extended: &Vec<Position>,
    pacifica: &Vec<PacificaPosition>,
    now: u64,
) -> (r: DeltaNeutralPosition)
    ensures
        is_recovered_position(symbol@, extended@, pacifica@, now, r),
{
    let extended_position: Option<Position> = find_extended(extended, symbol.as_str());
    let pacifica_position: Option<PacificaPosition> = find_pacifica(pacifica, symbol.as_str());
    let opened_at: u64 = match opening_reported(&pacifica_position) {
        Some(t) => t,
        None => now,
    };
    let target_notional_usd: Amount = notional_of(&extended_position, &pacifica_position);
    DeltaNeutralPosition {
        symbol,
        extended_position,
        pacifica_position,
        opened_at,
        target_notional_usd,
    }
}

/// What came of looking for live positions that the bot does not know of.
#[derive(Debug)]
pub enum RecoveryOutcome {
    NoAction,
    Recovered,
    /// There are some, and they cannot be taken for one pair.
    Blocked(String),
}

#[derive(Clone, Copy, PartialEq, Eq, Debug, Structural)]
pub enum RecoverStage {
    Start,
    AwaitLive,
    AwaitSave,
    Finished,
}

pub enum RecoverEvent {
    Begin,
    Live(Result<(Vec<Position>, Vec<PacificaPosition>), String>),
    Saved(Result<(), String>),
}

pub enum RecoverAction {
    /// Nothing to do: the event was not the one waited for.
    Await,
    FetchLive,
    SaveState,
    Finish(RecoveryOutcome),
    Fail(String),
    /// The time of the opening is needed and the clock cannot tell it.
    ClockFault(ClockFault),
}

/// The state after a position was taken up. A first rotation is dated by it.
pub open spec fn state_with_recovered(before: BotState, pos: DeltaNeutralPosition) -> BotState {
    BotState {
        current_position: Some(pos),
        last_rotation_time: match before.last_rotation_time {
            Some(t) => Some(t),
            None => Some(pos.opened_at),
        },
        total_rotations: before.total_rotations,
    }
}

/// How the recovery goes on from a stage when an event comes in. Where the time
/// is needed, `now` is what the clock says.
pub open spec fn recover_follows(
    before: BotState,
    stage: RecoverStage,
    event: RecoverEvent,
    now: Option<u64>,
    after: BotState,
    next: RecoverStage,
    action: RecoverAction,
) -> bool {
    match (stage, event) {
        (RecoverStage::Start, RecoverEvent::Begin) => after == before && (
        if before.current_position is Some {
            next == RecoverStage::Finished && action == RecoverAction::Finish(
                RecoveryOutcome::NoAction,
            )
        } else {
            next == RecoverStage::AwaitLive && action is FetchLive
        }),
        (RecoverStage::AwaitLive, RecoverEvent::Live(Err(e))) => after == before && next
            == RecoverStage::Finished && action == RecoverAction::Fail(e),
        (RecoverStage::AwaitLive, RecoverEvent::Live(Ok((extended, pacifica)))) => {
            ||| {
                &&& extended@.len() == 0 && pacifica@.len() == 0
                &&& after == before
                &&& next == RecoverStage::Finished
                &&& action == RecoverAction::Finish(RecoveryOutcome::NoAction)
            }
            ||| {
                &&& extended@.len() > 0 || pacifica@.len() > 0
                &&& forall|s: Seq<char>| !single_symbol(extended@, pacifica@, s)
                &&& after == before
                &&& next == RecoverStage::Finished
                &&& action matches RecoverAction::Finish(RecoveryOutcome::Blocked(text)) && text@
                    == details_text(extended@, pacifica@)
            }
            ||| exists|s: Seq<char>|
                {
                    &&& #[trigger] single_symbol(extended@, pacifica@, s)
                    &&& if reported_opening(pacifica_leg(pacifica@, s)) is None && now is None {
                        &&& after == before
                        &&& next == RecoverStage::Finished
                        &&& action == RecoverAction::ClockFault(ClockFault::BeforeEpoch)
                    } else {
                        &&& next == RecoverStage::AwaitSave
                        &&& action is SaveState
                        &&& after.current_position matches Some(pos) && is_recovered_position(
                            s,
                            extended@,
                            pacifica@,
                            match now {
                                Some(t) => t,
                                None => 0,
                            },
                            pos,
                        ) && after == state_with_recovered(before, pos)
                    }
                }
        },
        (RecoverStage::AwaitSave, RecoverEvent::Saved(Ok(_))) => after == before && next
            == RecoverStage::Finished && action == RecoverAction::Finish(
            RecoveryOutcome::Recovered,
        ),
        (RecoverStage::AwaitSave, RecoverEvent::Saved(Err(e))) => after == before && next
            == RecoverStage::Finished && action == RecoverAction::Fail(e),
        _ => after == before && next == stage && action is Await,
    }
}

impl FundingBot {
    /// One step of looking for live positions that the bot does not know of, given
    /// what the clock says.
    pub fn recover_state_at(
        &mut self,
        stage: RecoverStage,
        event: RecoverEvent,
        now: Option<u64>,
    ) -> (r: (RecoverStage, RecoverAction))
        ensures
            recover_follows(old(self).state, stage, event, now, final(self).state, r.0, r.1),
            final(self).hold_time_hours == old(self).hold_time_hours,
            final(self).state_path == old(self).state_path,
    {
        match (stage, event) {
            (RecoverStage::Start, RecoverEvent::Begin) => if self.state.current_position.is_some() {
                (RecoverStage::Finished, RecoverAction::Finish(RecoveryOutcome::NoAction))
            } else {
                (RecoverStage::AwaitLive, RecoverAction::FetchLive)
            },
            (RecoverStage::AwaitLive, RecoverEvent::Live(live)) => match live {
                Err(e) => (RecoverStage::Finished, RecoverAction::Fail(e)),
                Ok((extended, pacifica)) => match examine_live(&extended, &pacifica) {
                    LiveFinding::Flat => (
                        RecoverStage::Finished,
                        RecoverAction::Finish(RecoveryOutcome::NoAction),
                    ),
                    LiveFinding::Unclear(text) => (
                        RecoverStage::Finished,
                        RecoverAction::Finish(RecoveryOutcome::Blocked(text)),
                    ),
                    LiveFinding::Single(symbol) => {
                        let ghost s = symbol@;
                        assert(single_symbol(extended@, pacifica@, s));
                        let leg: Option<PacificaPosition> = find_pacifica(
                            &pacifica,
                            symbol.as_str(),
                        );
                        let time: u64 = match now {
                            Some(t) => t,
                            None => {
                                if opening_reported(&leg).is_none() {
                                    return (
                                        RecoverStage::Finished,
                                        RecoverAction::ClockFault(ClockFault::BeforeEpoch),
                                    );
                                }
                                0
                            },
                        };
                        let position: DeltaNeutralPosition = recovered_position(
                            symbol,
                            &extended,
                            &pacifica,
                            time,
                        );
                        if self.state.last_rotation_time.is_none() {
                            self.state.last_rotation_time = Some(position.opened_at);
                        }
                        self.state.current_position = Some(position);
                        (RecoverStage::AwaitSave, RecoverAction::SaveState)
                    },
                },
            },
            (RecoverStage::AwaitSave, RecoverEvent::Saved(saved)) => match saved {
                Ok(_) => (
                    RecoverStage::Finished,
                    RecoverAction::Finish(RecoveryOutcome::Recovered),
                ),
                Err(e) => (RecoverStage::Finished, RecoverAction::Fail(e)),
            },
            _ => (stage, RecoverAction::Await),
        }
    }

    /// One step of looking for live positions that the bot does not know of. A
    /// position that can be taken for one pair is taken up; other live positions
    /// block the bot from opening one of its own.
    pub fn recover_state_if_untracked(&mut self, stage: RecoverStage, event: RecoverEvent) -> (r: (
        RecoverStage,
        RecoverAction,
    ))
        ensures
            exists|now: Option<u64>|
                #[trigger] recover_follows(
                    old(self).state,
                    stage,
                    event,
                    now,
                    final(self).state,
                    r.0,
                    r.1,
                ),
            final(self).hold_time_hours == old(self).hold_time_hours,
            final(self).state_path == old(self).state_path,
    {
        let now: Option<u64> = unix_now();
        self.recover_state_at(stage, event, now)
    }
}

proof fn lemma_only_member(set: Set<Seq<char>>, a: Seq<char>, b: Seq<char>)
    requires
        set.finite(),
        set.len() == 1,
        set.contains(a),
        set.contains(b),
    ensures
        a == b,
{
    if a != b {
        let rest = set.remove(a);
        assert(rest.len() == 0);
        rest.lemma_len0_is_empty();
        assert(rest.contains(b));
    }
}

proof fn lemma_symbols_finite(extended: Seq<Position>, pacifica: Seq<PacificaPosition>)
    ensures
        extended_symbols(extended).finite(),
        pacifica_symbols(pacifica).finite(),
{
    vstd::seq_lib::seq_to_set_is_finite(extended.map_values(|p: Position| base_symbol(p.market@)));
    vstd::seq_lib::seq_to_set_is_finite(pacifica.map_values(|p: PacificaPosition| p.symbol@));
}

/// Live positions can be taken for the pair of one symbol at most.
pub proof fn law_single_symbol_is_unique(
    extended: Seq<Position>,
    pacifica: Seq<PacificaPosition>,
    a: Seq<char>,
    b: Seq<char>,
)
    requires
        single_symbol(extended, pacifica, a),
        single_symbol(extended, pacifica, b),
    ensures
        a == b,
{
    lemma_symbols_finite(extended, pacifica);
    let e = extended_symbols(extended);
    let p = pacifica_symbols(pacifica);
    if e.intersect(p).len() == 1 {
        lemma_only_member(e.intersect(p), a, b);
    } else {
        lemma_only_member(e.union(p), a, b);
    }
}

/// A position that the bot takes up has a live leg: both where the symbol is on
/// both venues, and one where it is on one of them.
pub proof fn law_recovered_position_has_a_leg(
    symbol: Seq<char>,
    extended: Seq<Position>,
    pacifica: Seq<PacificaPosition>,
    now: u64,
    pos: DeltaNeutralPosition,
)
    requires
        single_symbol(extended, pacifica, symbol),
        is_recovered_position(symbol, extended, pacifica, now, pos),
    ensures
        pos.extended_position is Some == extended_symbols(extended).contains(symbol),
        pos.pacifica_position is Some == pacifica_symbols(pacifica).contains(symbol),
        pos.extended_position is Some || pos.pacifica_position is Some,
        pos.extended_position matches Some(e) ==> extended.contains(e) && base_symbol(e.market@)
            == symbol,
        pos.pacifica_position matches Some(p) ==> pacifica.contains(p) && p.symbol@ == symbol,
{
    let on_extended = extended_is(symbol);
    let on_pacifica = pacifica_is(symbol);
    let e_names = extended.map_values(|p: Position| base_symbol(p.market@));
    let p_names = pacifica.map_values(|p: PacificaPosition| p.symbol@);
    crate::types::lemma_first_where(extended, on_extended);
    crate::types::lemma_first_where(pacifica, on_pacifica);
    lemma_symbols_finite(extended, pacifica);
    if extended_symbols(extended).contains(symbol) {
        let i = choose|i: int| 0 <= i < e_names.len() && e_names[i] == symbol;
        assert(on_extended(extended[i]));
    }
    if pacifica_symbols(pacifica).contains(symbol) {
        let i = choose|i: int| 0 <= i < p_names.len() && p_names[i] == symbol;
        assert(on_pacifica(pacifica[i]));
    }
    if pos.extended_position is Some {
        let i = choose|i: int|
            0 <= i < extended.len() && extended[i] == pos.extended_position->0 && on_extended(
                extended[i],
            ) && (forall|j: int| 0 <= j < i ==> !on_extended(#[trigger] extended[j]));
        assert(e_names[i] == symbol);
        assert(e_names.contains(symbol));
    }
    if pos.pacifica_position is Some {
        let i = choose|i: int|
            0 <= i < pacifica.len() && pacifica[i] == pos.pacifica_position->0 && on_pacifica(
                pacifica[i],
            ) && (forall|j: int| 0 <= j < i ==> !on_pacifica(#[trigger] pacifica[j]));
        assert(p_names[i] == symbol);
        assert(p_names.contains(symbol));
    }
}

/// A position that the bot knows of is never replaced by the recovery.
pub proof fn law_recovery_keeps_a_tracked_position(
    before: BotState,
    event: RecoverEvent,
    now: Option<u64>,
    after: BotState,
    next: RecoverStage,
    action: RecoverAction,
)
    requires
        before.current_position is Some,
        recover_follows(before, RecoverStage::Start, event, now, after, next, action),
    ensures
        after == before,
        !(action is FetchLive) && !(action is SaveState),
        next != RecoverStage::AwaitLive,
{
}

/// A recovery that asked the venues and did nothing found both of them empty.
pub proof fn law_no_action_means_flat(
    before: BotState,
    live: Result<(Vec<Position>, Vec<PacificaPosition>), String>,
    now: Option<u64>,
    after: BotState,
    next: RecoverStage,
)
    requires
        recover_follows(
            before,
            RecoverStage::AwaitLive,
            RecoverEvent::Live(live),
            now,
            after,
            next,
            RecoverAction::Finish(RecoveryOutcome::NoAction),
        ),
    ensures
        live matches Ok((extended, pacifica)) && extended@.len() == 0 && pacifica@.len() == 0,
        after == before,
{
}

/// A position on the Extended venue has this symbol.
pub open spec fn on_extended(positions: Seq<Position>, symbol: Seq<char>) -> bool {
    exists|i: int| 0 <= i < positions.len() && base_symbol((#[trigger] positions[i]).market@) == symbol
}

/// A position on the Pacifica venue has this symbol.
pub open spec fn on_pacifica(positions: Seq<PacificaPosition>, symbol: Seq<char>) -> bool {
    exists|i: int| 0 <= i < positions.len() && (#[trigger] positions[i]).symbol@ == symbol
}

proof fn lemma_symbols(extended: Seq<Position>, pacifica: Seq<PacificaPosition>, s: Seq<char>)
    ensures
        extended_symbols(extended).contains(s) <==> on_extended(extended, s),
        pacifica_symbols(pacifica).contains(s) <==> on_pacifica(pacifica, s),
{
    let e_names = extended.map_values(|p: Position| base_symbol(p.market@));
    let p_names = pacifica.map_values(|p: PacificaPosition| p.symbol@);
    if e_names.contains(s) {
        let i = choose|i: int| 0 <= i < e_names.len() && e_names[i] == s;
        assert(base_symbol(extended[i].market@) == s);
    }
    if on_extended(extended, s) {
        let i = choose|i: int|
            0 <= i < extended.len() && base_symbol((#[trigger] extended[i]).market@) == s;
        assert(e_names[i] == s);
    }
    if p_names.contains(s) {
        let i = choose|i: int| 0 <= i < p_names.len() && p_names[i] == s;
        assert(pacifica[i].symbol@ == s);
    }
    if on_pacifica(pacifica, s) {
        let i = choose|i: int| 0 <= i < pacifica.len() && (#[trigger] pacifica[i]).symbol@ == s;
        assert(p_names[i] == s);
    }
}

proof fn lemma_singleton(set: Set<Seq<char>>, s: Seq<char>)
    requires
        set.finite(),
    ensures
        set.len() == 1 && set.contains(s) <==> set.contains(s) && (forall|t: Seq<char>|
            #[trigger] set.contains(t) ==> t == s),
        set.len() == 0 <==> forall|t: Seq<char>| !#[trigger] set.contains(t),
{
    if set.len() == 0 {
        set.lemma_len0_is_empty();
    }
    if forall|t: Seq<char>| !#[trigger] set.contains(t) {
        assert(set =~= Set::empty());
    }
    if set.len() == 1 && set.contains(s) {
        assert forall|t: Seq<char>| #[trigger] set.contains(t) implies t == s by {
            lemma_only_member(set, s, t);
        }
    }
    if set.contains(s) && (forall|t: Seq<char>| #[trigger] set.contains(t) ==> t == s) {
        assert(set =~= Set::empty().insert(s));
    }
}

/// Live positions are taken for the pair of a symbol exactly in two cases: it is the one symbol
/// that is live on both venues; or no symbol is, and it is the one symbol that is live at all.
pub proof fn law_what_is_taken_for_one_pair(
    extended: Seq<Position>,
    pacifica: Seq<PacificaPosition>,
    symbol: Seq<char>,
)
    ensures
        single_symbol(extended, pacifica, symbol) <==> {
            ||| {
                &&& on_extended(extended, symbol)
                &&& on_pacifica(pacifica, symbol)
                &&& forall|t: Seq<char>|
                    #[trigger] on_extended(extended, t) && on_pacifica(pacifica, t) ==> t == symbol
            }
            ||| {
                &&& on_extended(extended, symbol) || on_pacifica(pacifica, symbol)
                &&& forall|t: Seq<char>| #[trigger] on_extended(extended, t) ==> t == symbol
                &&& forall|t: Seq<char>| #[trigger] on_pacifica(pacifica, t) ==> t == symbol
                &&& !(on_extended(extended, symbol) && on_pacifica(pacifica, symbol))
            }
        },
{
    let e = extended_symbols(extended);
    let p = pacifica_symbols(pacifica);
    lemma_symbols_finite(extended, pacifica);
    lemma_singleton(e.intersect(p), symbol);
    lemma_singleton(e.union(p), symbol);
    assert forall|t: Seq<char>| #[trigger] e.contains(t) <==> on_extended(extended, t) by {
        lemma_symbols(extended, pacifica, t);
    }
    assert forall|t: Seq<char>| #[trigger] p.contains(t) <==> on_pacifica(pacifica, t) by {
        lemma_symbols(extended, pacifica, t);
    }
    assert forall|t: Seq<char>| #[trigger] on_extended(extended, t) <==> e.contains(t) by {}
    assert forall|t: Seq<char>| #[trigger] on_pacifica(pacifica, t) <==> p.contains(t) by {}
    assert forall|t: Seq<char>|
        #[trigger] e.intersect(p).contains(t) <==> e.contains(t) && p.contains(t) by {}
    assert forall|t: Seq<char>|
        #[trigger] e.union(p).contains(t) <==> e.contains(t) || p.contains(t) by {}
    if forall|t: Seq<char>|
        #[trigger] on_extended(extended, t) && on_pacifica(pacifica, t) ==> t == symbol {
        assert forall|t: Seq<char>| #[trigger] e.intersect(p).contains(t) implies t == symbol by {
            assert(on_extended(extended, t));
        }
    }
    if e.intersect(p).len() == 1 && e.intersect(p).contains(symbol) {
        assert forall|t: Seq<char>|
            #[trigger] on_extended(extended, t) && on_pacifica(pacifica, t) implies t == symbol by {
            assert(e.intersect(p).contains(t));
        }
    }
    if e.union(p).len() == 1 && e.union(p).contains(symbol) {
        assert forall|t: Seq<char>| #[trigger] on_extended(extended, t) implies t == symbol by {
            assert(e.union(p).contains(t));
        }
        assert forall|t: Seq<char>| #[trigger] on_pacifica(pacifica, t) implies t == symbol by {
            assert(e.union(p).contains(t));
        }
        if e.intersect(p).len() == 0 {
            assert(!e.intersect(p).contains(symbol));
        }
    }
    if (forall|t: Seq<char>| #[trigger] on_extended(extended, t) ==> t == symbol) && (forall|
        t: Seq<char>,
    | #[trigger] on_pacifica(pacifica, t) ==> t == symbol) && !(on_extended(extended, symbol)
        && on_pacifica(pacifica, symbol)) {
        assert forall|t: Seq<char>| !#[trigger] e.intersect(p).contains(t) by {
            if e.intersect(p).contains(t) {
                assert(on_extended(extended, t) && on_pacifica(pacifica, t));
            }
        }
        assert forall|t: Seq<char>| #[trigger] e.union(p).contains(t) implies t == symbol by {
            if e.contains(t) {
                assert(on_extended(extended, t));
            } else {
                assert(on_pacifica(pacifica, t));
            }
        }
    }
}

/// The venues are asked exactly where the bot has no position. Where it has one, the recovery
/// ends with nothing done; so it does where neither venue has a position.
pub proof fn law_when_a_recovery_does_nothing(
    before: BotState,
    stage: RecoverStage,
    event: RecoverEvent,
    now: Option<u64>,
    after: BotState,
    next: RecoverStage,
    action: RecoverAction,
)
    requires
        recover_follows(before, stage, event, now, after, next, action),
    ensures
        action is FetchLive <==> stage is Start && event is Begin && before.current_position is None,
        action is FetchLive ==> next is AwaitLive,
        action == RecoverAction::Finish(RecoveryOutcome::NoAction) <==> (stage is Start && event
            is Begin && before.current_position is Some) || (stage is AwaitLive && (
        event matches RecoverEvent::Live(Ok(live)) && live.0@.len() == 0 && live.1@.len() == 0)),
{
}

/// Live positions that cannot be taken for one pair block the bot, and only those do.
pub proof fn law_when_a_recovery_blocks(
    before: BotState,
    stage: RecoverStage,
    event: RecoverEvent,
    now: Option<u64>,
    after: BotState,
    next: RecoverStage,
    action: RecoverAction,
)
    requires
        recover_follows(before, stage, event, now, after, next, action),
    ensures
        (action matches RecoverAction::Finish(outcome) && outcome is Blocked) <==> stage is AwaitLive
            && (event matches RecoverEvent::Live(Ok(live)) && (live.0@.len() > 0 || live.1@.len() > 0)
            && forall|s: Seq<char>| !#[trigger] single_symbol(live.0@, live.1@, s)),
        after != before ==> action is SaveState,
{
    if let RecoverEvent::Live(Ok(live)) = event {
        lemma_single_is_live(live.0@, live.1@);
    }
}

proof fn lemma_single_is_live(extended: Seq<Position>, pacifica: Seq<PacificaPosition>)
    ensures
        forall|s: Seq<char>| #[trigger] single_symbol(extended, pacifica, s) ==> extended.len() > 0
            || pacifica.len() > 0,
{
    assert forall|s: Seq<char>| #[trigger] single_symbol(extended, pacifica, s) implies extended.len()
        > 0 || pacifica.len() > 0 by {
        lemma_symbols(extended, pacifica, s);
        law_what_is_taken_for_one_pair(extended, pacifica, s);
    }
}

/// A position that is taken up has the symbol of the pair, the live legs with that symbol, the
/// time of opening that the Pacifica venue reports or else the time of the clock, and the value
/// of its larger leg. The rotations are not counted, and the last one is dated by the opening
/// only where none was dated.
pub proof fn law_what_is_taken_up(
    before: BotState,
    stage: RecoverStage,
    event: RecoverEvent,
    now: Option<u64>,
    after: BotState,
    next: RecoverStage,
    action: RecoverAction,
)
    requires
        recover_follows(before, stage, event, now, after, next, action),
    ensures
        action is SaveState ==> stage is AwaitLive && next is AwaitSave,
        action is SaveState ==> (event matches RecoverEvent::Live(Ok(live)) && after.current_position matches Some(pos) && {
            &&& single_symbol(live.0@, live.1@, pos.symbol@)
            &&& pos.extended_position == extended_leg(live.0@, pos.symbol@)
            &&& pos.pacifica_position == pacifica_leg(live.1@, pos.symbol@)
            &&& pos.pacifica_position matches Some(leg) ==> (leg.created_at > 0 ==> pos.opened_at
                == leg.created_at as int / 1000)
            &&& !(pos.pacifica_position matches Some(leg) && leg.created_at > 0) ==> now == Some(
                pos.opened_at,
            )
            &&& pos.target_notional_usd == live_notional(pos.extended_position, pos.pacifica_position)
            &&& after.total_rotations == before.total_rotations
            &&& before.last_rotation_time is Some ==> after.last_rotation_time
                == before.last_rotation_time
            &&& before.last_rotation_time is None ==> after.last_rotation_time == Some(pos.opened_at)
        }),
{
}

/// A recovery ends with a position taken up exactly where its state was saved; it fails exactly
/// where the venues could not be asked or the state could not be saved, with that reason; and it
/// needs the clock exactly where a pair has no time of opening.
pub proof fn law_how_a_recovery_ends(
    before: BotState,
    stage: RecoverStage,
    event: RecoverEvent,
    now: Option<u64>,
    after: BotState,
    next: RecoverStage,
    action: RecoverAction,
)
    requires
        recover_follows(before, stage, event, now, after, next, action),
    ensures
        action == RecoverAction::Finish(RecoveryOutcome::Recovered) <==> stage is AwaitSave && (event
            matches RecoverEvent::Saved(answer) && answer is Ok),
        action is Fail <==> (stage is AwaitLive && (event matches RecoverEvent::Live(answer) && answer
            is Err)) || (stage is AwaitSave && (event matches RecoverEvent::Saved(answer) && answer
            is Err)),
        action matches RecoverAction::Fail(e) ==> event == RecoverEvent::Live(Err(e)) || event
            == RecoverEvent::Saved(Err(e)),
        action is ClockFault ==> stage is AwaitLive && now is None && action
            == RecoverAction::ClockFault(ClockFault::BeforeEpoch),
        action is ClockFault ==> (event matches RecoverEvent::Live(Ok(live)) && exists|s: Seq<char>|
            #[trigger] single_symbol(live.0@, live.1@, s) && !(pacifica_leg(live.1@, s) matches Some(
                leg,
            ) && leg.created_at > 0)),
        action is Finish || action is Fail || action is ClockFault ==> next is Finished,
        action is Await <==> !((stage is Start && event is Begin) || (stage is AwaitLive && event
            is Live) || (stage is AwaitSave && event is Saved)),
        action is Await ==> next == stage && after == before,
{
}

/// The legs of a pair are the first live positions with its symbol.
pub proof fn law_the_legs_are_the_first_with_the_symbol(
    extended: Seq<Position>,
    pacifica: Seq<PacificaPosition>,
    symbol: Seq<char>,
)
    ensures
        match extended_leg(extended, symbol) {
            Some(leg) => exists|i: int|
                0 <= i < extended.len() && #[trigger] extended[i] == leg && base_symbol(leg.market@)
                    == symbol && (forall|j: int|
                    0 <= j < i ==> base_symbol((#[trigger] extended[j]).market@) != symbol),
            None => !on_extended(extended, symbol),
        },
        match pacifica_leg(pacifica, symbol) {
            Some(leg) => exists|i: int|
                0 <= i < pacifica.len() && #[trigger] pacifica[i] == leg && leg.symbol@ == symbol && (
                forall|j: int| 0 <= j < i ==> (#[trigger] pacifica[j]).symbol@ != symbol),
            None => !on_pacifica(pacifica, symbol),
        },
{
    let e = extended_is(symbol);
    let p = pacifica_is(symbol);
    crate::types::lemma_first_where(extended, e);
    crate::types::lemma_first_where(pacifica, p);
    match extended_leg(extended, symbol) {
        Some(leg) => {
            let i = choose|i: int|
                0 <= i < extended.len() && extended[i] == leg && e(extended[i]) && (forall|j: int|
                    0 <= j < i ==> !e(#[trigger] extended[j]));
            assert(extended[i] == leg);
            assert forall|j: int| 0 <= j < i implies base_symbol((#[trigger] extended[j]).market@)
                != symbol by {
                assert(!e(extended[j]));
            }
        },
        None => {
            assert forall|j: int| 0 <= j < extended.len() implies base_symbol(
                (#[trigger] extended[j]).market@,
            ) != symbol by {
                assert(!e(extended[j]));
            }
        },
    }
    match pacifica_leg(pacifica, symbol) {
        Some(leg) => {
            let i = choose|i: int|
                0 <= i < pacifica.len() && pacifica[i] == leg && p(pacifica[i]) && (forall|j: int|
                    0 <= j < i ==> !p(#[trigger] pacifica[j]));
            assert(pacifica[i] == leg);
            assert forall|j: int| 0 <= j < i implies (#[trigger] pacifica[j]).symbol@ != symbol by {
                assert(!p(pacifica[j]));
            }
        },
        None => {
            assert forall|j: int| 0 <= j < pacifica.len() implies (
            #[trigger] pacifica[j]).symbol@ != symbol by {
                assert(!p(pacifica[j]));
            }
        },
    }
}

/// The value of a pair is not below zero and not below the value of a leg; it is that of a leg,
/// or zero where no leg is worth anything.
pub proof fn law_the_value_of_a_pair_is_that_of_its_larger_leg(
    extended: Option<Position>,
    pacifica: Option<PacificaPosition>,
)
    ensures
        ({
            let value = live_notional(extended, pacifica);
            &&& !value.is_nan() && value.rank() >= 0
            &&& extended matches Some(e) ==> (!e.value.is_nan() ==> e.value.rank() <= value.rank())
            &&& pacifica matches Some(p) ==> (!p.notional.is_nan() ==> p.notional.rank()
                <= value.rank())
            &&& value.bits == 0 || (extended matches Some(e) && value == e.value) || (
            pacifica matches Some(p) && value == p.notional)
        }),
{
}

/// An attempt to fetch the live positions is done exactly where both venues answered, with their
/// answers. Another one follows exactly where one of them did not and this was not the sixth; else
/// the fetch is given up. What is told of it holds the reason of each venue that did not answer,
/// that of the Extended venue first.
pub proof fn law_how_an_attempt_ends(
    attempt: u32,
    extended: Result<Vec<Position>, String>,
    pacifica: Result<Vec<PacificaPosition>, String>,
    step: FetchStep,
)
    requires
        fetch_follows(attempt, extended, pacifica, step),
    ensures
        step is Done <==> extended is Ok && pacifica is Ok,
        step matches FetchStep::Done(e, p) ==> extended == Ok::<Vec<Position>, String>(e) && pacifica
            == Ok::<Vec<PacificaPosition>, String>(p),
        step is Retry <==> (extended is Err || pacifica is Err) && attempt < 6,
        step is GiveUp <==> (extended is Err || pacifica is Err) && attempt >= 6,
        step matches FetchStep::Retry(number, _) ==> number == attempt + 1,
        match step {
            FetchStep::Done(_, _) => true,
            FetchStep::Retry(_, text) | FetchStep::GiveUp(text) => match (extended, pacifica) {
                (Err(e), Err(p)) => text@ == "Extended: "@ + e@ + " | "@ + ("Pacifica: "@ + p@),
                (Err(e), Ok(_)) => text@ == "Extended: "@ + e@,
                (Ok(_), Err(p)) => text@ == "Pacifica: "@ + p@,
                (Ok(_), Ok(_)) => false,
            },
        },
{
    if let (Err(e), Err(p)) = (extended, pacifica) {
        assert("Extended: "@ + e@ + " | "@ + "Pacifica: "@ + p@ =~= "Extended: "@ + e@ + " | "@ + (
        "Pacifica: "@ + p@));
    }
}

/// The attempts of a fetch are counted from one, and there are six at most.
pub proof fn law_attempts_are_counted_from_one(attempts: Seq<FetchAttempt>, k: int)
    requires
        is_fetch(attempts),
        0 <= k < attempts.len(),
    ensures
        attempts[k].number == k + 1,
        attempts.len() <= 6,
{
    lemma_attempts_are_numbered(attempts, k);
    law_a_fetch_ends_with_the_first_full_answer(attempts);
}

/// Live positions that cannot be taken for one pair are told by their numbers and, in dictionary
/// order and each once, by the symbols of each venue and those that are on both.
pub proof fn law_live_positions_in_words(
    extended: Seq<Position>,
    pacifica: Seq<PacificaPosition>,
)
    ensures
        exists|e: Seq<Seq<char>>, p: Seq<Seq<char>>, both: Seq<Seq<char>>|
            #![trigger joined(e, ", "@), joined(p, ", "@), joined(both, ", "@)]
            {
                &&& crate::symbols::strictly_increasing(e)
                &&& crate::symbols::strictly_increasing(p)
                &&& crate::symbols::strictly_increasing(both)
                &&& forall|s: Seq<char>| #[trigger] e.contains(s) <==> on_extended(extended, s)
                &&& forall|s: Seq<char>| #[trigger] p.contains(s) <==> on_pacifica(pacifica, s)
                &&& forall|s: Seq<char>| #[trigger]
                    both.contains(s) <==> on_extended(extended, s) && on_pacifica(pacifica, s)
                &&& details_text(extended, pacifica) == "extended: "@ + decimal(extended.len())
                    + " position(s) ["@ + joined(e, ", "@) + "]; pacifica: "@ + decimal(
                    pacifica.len(),
                ) + " position(s) ["@ + joined(p, ", "@) + "]; overlap: ["@ + joined(both, ", "@)
                    + "]"@
            },
{
    lemma_symbols_finite(extended, pacifica);
    let on_e = extended_symbols(extended);
    let on_p = pacifica_symbols(pacifica);
    crate::symbols::law_finite_sets_are_listed(on_e);
    crate::symbols::law_finite_sets_are_listed(on_p);
    crate::symbols::law_finite_sets_are_listed(on_e.intersect(on_p));
    let e = in_order(on_e);
    let p = in_order(on_p);
    let both = in_order(on_e.intersect(on_p));
    assert forall|s: Seq<char>| #[trigger] e.contains(s) <==> on_extended(extended, s) by {
        lemma_symbols(extended, pacifica, s);
    }
    assert forall|s: Seq<char>| #[trigger] p.contains(s) <==> on_pacifica(pacifica, s) by {
        lemma_symbols(extended, pacifica, s);
    }
    assert forall|s: Seq<char>| #[trigger]
        both.contains(s) <==> on_extended(extended, s) && on_pacifica(pacifica, s) by {
        lemma_symbols(extended, pacifica, s);
    }
    assert(details_text(extended, pacifica) == "extended: "@ + decimal(extended.len())
        + " position(s) ["@ + joined(e, ", "@) + "]; pacifica: "@ + decimal(pacifica.len())
        + " position(s) ["@ + joined(p, ", "@) + "]; overlap: ["@ + joined(both, ", "@) + "]"@);
}

} // verus!
