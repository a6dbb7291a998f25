//! The bot: one pair of opposite positions, held for a while and then rotated.
use crate::state::BotState;
use crate::text::{concat2, strip_suffix_text, without_suffix};
use crate::types::DeltaNeutralPosition;
use vstd::prelude::*;

verus! {

broadcast use vstd::string::group_string_axioms;

/// The minutes between two rounds of the bot.
pub const MONITORING_INTERVAL_MINUTES: u64 = 15;

pub struct FundingBot {
    /// The hours for which a position is held.
    pub hold_time_hours: u64,
    pub state: BotState,
    pub state_path: String,
}

/// The market of a symbol on the Extended venue.
pub open spec fn market_name(symbol: Seq<char>) -> Seq<char> {
    symbol + "-USD"@
}

/// The symbol of a market of the Extended venue.
pub open spec fn base_symbol(market: Seq<char>) -> Seq<char> {
    without_suffix(market, "-USD"@)
}

/// One leg of the pair is there and the other is not.
pub open spec fn one_legged(pos: DeltaNeutralPosition) -> bool {
    pos.extended_position is Some != pos.pacifica_position is Some
}

/// The market of a symbol on the Extended venue.
pub fn extended_market(symbol: &str) -> (r: String)
    ensures
        r@ == market_name(symbol@),
{
    concat2(symbol, "-USD")
}

/// The symbol of a market of the Extended venue: its name without the currency.
pub fn market_symbol(market: &str) -> (r: String)
    ensures
        r@ == base_symbol(market@),
{
    strip_suffix_text(market, "-USD")
}

impl FundingBot {
    pub fn new(hold_time_hours: u64, state: BotState, state_path: String) -> (r: FundingBot)
        ensures
            r.hold_time_hours == hold_time_hours,
            r.state == state,
            r.state_path == state_path,
    {
        FundingBot { hold_time_hours, state, state_path }
    }

    /// Whether only one leg of the position is there.
    pub fn is_imbalanced(&self) -> (r: bool)
        ensures
            r == (self.state.current_position matches Some(pos) && one_legged(pos)),
    {
        match &self.state.current_position {
            Some(pos) => pos.extended_position.is_some() != pos.pacifica_position.is_some(),
            None => false,
        }
    }
}

/// The symbol of the market of a symbol is that symbol again, and no two symbols
/// share a market.
pub proof fn law_market_names_are_undone(symbol: Seq<char>, other: Seq<char>)
    ensures
        base_symbol(market_name(symbol)) == symbol,
        market_name(symbol) == market_name(other) ==> symbol == other,
{
    let suffix = "-USD"@;
    assert forall|s: Seq<char>| base_symbol(#[trigger] market_name(s)) == s by {
        let name = market_name(s);
        assert(name.subrange(name.len() - suffix.len(), name.len() as int) =~= suffix);
        assert(name.subrange(0, name.len() - suffix.len()) =~= s);
    }
}

/// A position is imbalanced exactly where one of its two legs is there and the other is not.
pub proof fn law_one_leg_is_an_imbalance(pos: DeltaNeutralPosition)
    ensures
        one_legged(pos) <==> (pos.extended_position is Some && pos.pacifica_position is None) || (
        pos.extended_position is None && pos.pacifica_position is Some),
{
}

/// A market that is not named after a symbol and the currency stands for itself.
pub proof fn law_other_markets_keep_their_names(market: Seq<char>)
    requires
        forall|symbol: Seq<char>| #[trigger] market_name(symbol) != market,
    ensures
        base_symbol(market) == market,
{
    let suffix = "-USD"@;
    if base_symbol(market) != market {
        let head = market.subrange(0, market.len() - suffix.len());
        assert(market_name(head) =~= market);
    }
}

/// The market of a symbol is its name followed by the currency.
pub proof fn law_a_market_is_named_after_its_symbol(symbol: Seq<char>)
    ensures
        market_name(symbol).len() == symbol.len() + 4,
        market_name(symbol).take(symbol.len() as int) == symbol,
        market_name(symbol).skip(symbol.len() as int) == "-USD"@,
{
    reveal_strlit("-USD");
    assert(market_name(symbol).take(symbol.len() as int) =~= symbol);
    assert(market_name(symbol).skip(symbol.len() as int) =~= "-USD"@);
}

} // verus!
