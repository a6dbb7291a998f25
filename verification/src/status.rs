//! What the status table shows.
use crate::amount::Amount;
use crate::bot::FundingBot;
use crate::clock::{date_or_unknown, date_pattern, date_text, unix_now, utc_text};
use crate::live::{find_pacifica, pacifica_leg};
use crate::state::{hours_answer, BotState, ClockFault};
use crate::text::{begins_with, decimal, decimal_text, has_prefix};
use crate::types::{first_where, DeltaNeutralPosition, PacificaPosition, Position};
use vstd::prelude::*;

verus! {

broadcast use vstd::string::group_string_axioms;

/// How the value of a row is set.
#[derive(Clone, Copy, PartialEq, Eq, Debug, Structural)]
pub enum CellStyle {
    Plain,
    Bold,
    Red,
    Green,
    Yellow,
}

#[derive(Debug)]
pub enum StatusValue {
    Text(String),
    /// Printed with a dollar sign and two places.
    Dollars(Amount),
    /// Printed with one place.
    Hours(Amount),
    /// Printed with six places.
    Quantity(Amount),
    /// Whether a leg is there: its word, in green where it is and in red where it is
    /// not, and bold.
    Leg(bool),
}

#[derive(Debug)]
pub struct StatusRow {
    pub label: String,
    pub value: StatusValue,
    pub style: CellStyle,
}

pub ghost enum StatusValueView {
    Text(Seq<char>),
    Dollars(Amount),
    Hours(Amount),
    Quantity(Amount),
    Leg(bool),
}

pub ghost struct StatusRowView {
    pub label: Seq<char>,
    pub value: StatusValueView,
    pub style: CellStyle,
}

impl View for StatusValue {
    type V = StatusValueView;

    open spec fn view(&self) -> StatusValueView {
        match self {
            StatusValue::Text(t) => StatusValueView::Text(t@),
            StatusValue::Dollars(a) => StatusValueView::Dollars(*a),
            StatusValue::Hours(a) => StatusValueView::Hours(*a),
            StatusValue::Quantity(a) => StatusValueView::Quantity(*a),
            StatusValue::Leg(b) => StatusValueView::Leg(*b),
        }
    }
}

impl View for StatusRow {
    type V = StatusRowView;

    open spec fn view(&self) -> StatusRowView {
        StatusRowView { label: self.label@, value: self.value@, style: self.style }
    }
}

impl CellStyle {
    pub open spec fn code(self) -> Seq<char> {
        match self {
            CellStyle::Plain => ""@,
            CellStyle::Bold => "b"@,
            CellStyle::Red => "Fr"@,
            CellStyle::Green => "Fg"@,
            CellStyle::Yellow => "Fy"@,
        }
    }

    /// The style in the letters of the table printer.
    pub fn style_spec(&self) -> (r: String)
        ensures
            r@ == self.code(),
    {
        match self {
            CellStyle::Plain => "".to_owned(),
            CellStyle::Bold => "b".to_owned(),
            CellStyle::Red => "Fr".to_owned(),
            CellStyle::Green => "Fg".to_owned(),
            CellStyle::Yellow => "Fy".to_owned(),
        }
    }
}

/// The rows of a table.
pub open spec fn row_views(rows: Seq<StatusRow>) -> Seq<StatusRowView> {
    rows.map_values(|row: StatusRow| row@)
}

pub open spec fn row(label: Seq<char>, value: StatusValueView, style: CellStyle) -> StatusRowView {
    StatusRowView { label, value, style }
}

/// The second at which a position is to be rotated.
pub open spec fn rotation_second(pos: DeltaNeutralPosition, hold_time_hours: u64) -> int {
    pos.opened_at + hold_time_hours * 3600
}

/// The rows on a position, with the hours that are left.
pub open spec fn position_rows(pos: DeltaNeutralPosition, hold_time_hours: u64, hours: Amount) -> Seq<
    StatusRowView,
> {
    let opened = date_or_unknown(utc_text(pos.opened_at as i64, date_pattern()));
    let rotation = date_or_unknown(
        utc_text((rotation_second(pos, hold_time_hours) as u64) as i64, date_pattern()),
    );
    seq![
        row("Symbol"@, StatusValueView::Text(pos.symbol@), CellStyle::Bold),
        row("Notional"@, StatusValueView::Dollars(pos.target_notional_usd), CellStyle::Plain),
        row("Opened"@, StatusValueView::Text(opened), CellStyle::Plain),
        row("Rotation"@, StatusValueView::Text(rotation), CellStyle::Plain),
        row(
            "Time Remaining"@,
            StatusValueView::Hours(hours),
            if hours.spec_below_one() {
                CellStyle::Red
            } else {
                CellStyle::Green
            },
        ),
        row(
            "Extended Position"@,
            StatusValueView::Leg(pos.extended_position is Some),
            CellStyle::Plain,
        ),
        row(
            "Pacifica Position"@,
            StatusValueView::Leg(pos.pacifica_position is Some),
            CellStyle::Plain,
        ),
    ]
}

/// Of a position on the Extended venue: its market begins with this symbol.
pub open spec fn market_begins_with(symbol: Seq<char>) -> spec_fn(Position) -> bool {
    |p: Position| begins_with(p.market@, symbol)
}

/// The gain of a position, 0 where none is reported.
pub open spec fn reported_gain(position: Position) -> Amount {
    match position.unrealized_pnl {
        Some(gain) => gain,
        None => Amount { bits: 0 },
    }
}

/// The row on the gain of the leg on the Extended venue, where the venue answered
/// and has it.
pub open spec fn gain_rows(symbol: Seq<char>, live: Option<Vec<Position>>) -> Seq<StatusRowView> {
    match live {
        Some(positions) => match first_where(positions@, market_begins_with(symbol)) {
            Some(p) => seq![
                row(
                    "Extended PnL"@,
                    StatusValueView::Dollars(reported_gain(p)),
                    if reported_gain(p).spec_at_least_zero() {
                        CellStyle::Green
                    } else {
                        CellStyle::Red
                    },
                ),
            ],
            None => seq![],
        },
        None => seq![],
    }
}

/// The rows on the leg on the Pacifica venue, where the venue answered and has it.
pub open spec fn entry_rows(symbol: Seq<char>, live: Option<Vec<PacificaPosition>>) -> Seq<
    StatusRowView,
> {
    match live {
        Some(positions) => match pacifica_leg(positions@, symbol) {
            Some(p) => seq![
                row("Pacifica Entry"@, StatusValueView::Dollars(p.entry), CellStyle::Plain),
                row("Pacifica Size"@, StatusValueView::Quantity(p.amount), CellStyle::Plain),
            ],
            None => seq![],
        },
        None => seq![],
    }
}

/// The rows of the status table, with the hours that are left.
pub open spec fn status_rows(
    state: BotState,
    hold_time_hours: u64,
    hours: Amount,
    extended: Option<Vec<Position>>,
    pacifica: Option<Vec<PacificaPosition>>,
) -> Seq<StatusRowView> {
    let rows = match state.current_position {
        Some(pos) => position_rows(pos, hold_time_hours, hours) + gain_rows(pos.symbol@, extended) + entry_rows(pos.symbol@, pacifica),
        None => seq![
            row("Status"@, StatusValueView::Text("NO ACTIVE POSITION"@), CellStyle::Yellow),
        ],
    };
    rows.push(
        row(
            "Total Rotations"@,
            StatusValueView::Text(decimal(state.total_rotations as nat)),
            CellStyle::Plain,
        ),
    )
}

fn push_row(rows: &mut Vec<StatusRow>, label: &str, value: StatusValue, style: CellStyle)
    ensures
        row_views(final(rows)@) == row_views(old(rows)@).push(row(label@, value@, style)),
{
    let ghost before = rows@;
    rows.push(StatusRow { label: label.to_owned(), value, style });
    proof {
        assert(row_views(rows@) =~= row_views(before).push(row(label@, value@, style)));
    }
}

fn find_with_prefix(positions: &Vec<Position>, symbol: &str) -> (r: Option<Position>)
    ensures
        r == first_where(positions@, market_begins_with(symbol@)),
{
    let ghost wanted = market_begins_with(symbol@);
    let mut i: usize = 0;
    while i < positions.len()
        invariant
            i <= positions.len(),
            wanted == market_begins_with(symbol@),
            forall|j: int| 0 <= j < i ==> !wanted(#[trigger] positions@[j]),
        decreases positions.len() - i,
    {
        if has_prefix(positions[i].market.as_str(), symbol) {
            proof {
                crate::types::lemma_first_is(positions@, wanted, i as int);
            }
            return Some(positions[i].clone());
        }
        i = i + 1;
    }
    proof {
        crate::types::lemma_first_is_none(positions@, wanted);
    }
    None
}

fn push_position_rows(
    rows: &mut Vec<StatusRow>,
    pos: &DeltaNeutralPosition,
    hold_time_hours: u64,
    hours: Amount,
)
    requires
        rotation_second(*pos, hold_time_hours) <= u64::MAX,
    ensures
        row_views(final(rows)@) == row_views(old(rows)@) + position_rows(
            *pos,
            hold_time_hours,
            hours,
        ),
{
    let ghost before = row_views(rows@);
    let opened: String = date_text(pos.opened_at);
    let rotation: String = date_text(pos.opened_at + hold_time_hours * 3600);
    let urgency: CellStyle = if hours.below_one() {
        CellStyle::Red
    } else {
        CellStyle::Green
    };
    push_row(rows, "Symbol", StatusValue::Text(pos.symbol.clone()), CellStyle::Bold);
    push_row(
        rows,
        "Notional",
        StatusValue::Dollars(pos.target_notional_usd),
        CellStyle::Plain,
    );
    push_row(rows, "Opened", StatusValue::Text(opened), CellStyle::Plain);
    push_row(rows, "Rotation", StatusValue::Text(rotation), CellStyle::Plain);
    push_row(rows, "Time Remaining", StatusValue::Hours(hours), urgency);
    push_row(
        rows,
        "Extended Position",
        StatusValue::Leg(pos.extended_position.is_some()),
        CellStyle::Plain,
    );
    push_row(
        rows,
        "Pacifica Position",
        StatusValue::Leg(pos.pacifica_position.is_some()),
        CellStyle::Plain,
    );
    proof {
        assert(row_views(rows@) =~= before + position_rows(*pos, hold_time_hours, hours));
    }
}

fn push_gain_rows(rows: &mut Vec<StatusRow>, symbol: &str, live: &Option<Vec<Position>>)
    ensures
        row_views(final(rows)@) == row_views(old(rows)@) + gain_rows(symbol@, *live),
{
    let ghost before = row_views(rows@);
    match live {
        Some(positions) => match find_with_prefix(positions, symbol) {
            Some(p) => {
                let gain: Amount = match p.unrealized_pnl {
                    Some(gain) => gain,
                    None => Amount::zero(),
                };
                let style: CellStyle = if gain.at_least_zero() {
                    CellStyle::Green
                } else {
                    CellStyle::Red
                };
                push_row(rows, "Extended PnL", StatusValue::Dollars(gain), style);
            },
            None => {},
        },
        None => {},
    }
    proof {
        assert(row_views(rows@) =~= before + gain_rows(symbol@, *live));
    }
}

fn push_entry_rows(rows: &mut Vec<StatusRow>, symbol: &str, live: &Option<Vec<PacificaPosition>>)
    ensures
        row_views(final(rows)@) == row_views(old(rows)@) + entry_rows(symbol@, *live),
{
    let ghost before = row_views(rows@);
    match live {
        Some(positions) => match find_pacifica(positions, symbol) {
            Some(p) => {
                push_row(rows, "Pacifica Entry", StatusValue::Dollars(p.entry), CellStyle::Plain);
                push_row(rows, "Pacifica Size", StatusValue::Quantity(p.amount), CellStyle::Plain);
            },
            None => {},
        },
        None => {},
    }
    proof {
        assert(row_views(rows@) =~= before + entry_rows(symbol@, *live));
    }
}

/// The word for a leg that is there or is not.
pub fn leg_word(present: bool) -> (r: &'static str)
    ensures
        r@ == (if present {
            "ACTIVE"@
        } else {
            "NONE"@
        }),
{
    if present {
        "ACTIVE"
    } else {
        "NONE"
    }
}

/// The title of the status table.
pub fn status_title() -> (r: String)
    ensures
        r@ == "FUNDING RATE BOT STATUS"@,
{
    "FUNDING RATE BOT STATUS".to_owned()
}

/// What the status table comes to, where the clock says `now`.
pub open spec fn status_follows(
    state: BotState,
    hold_time_hours: u64,
    now: Option<u64>,
    extended: Option<Vec<Position>>,
    pacifica: Option<Vec<PacificaPosition>>,
    r: Result<Vec<StatusRow>, ClockFault>,
) -> bool {
    match hours_answer(state, hold_time_hours, now) {
        Err(fault) => r == Err::<Vec<StatusRow>, ClockFault>(fault),
        Ok(left) => r matches Ok(rows) && row_views(rows@) == status_rows(
            state,
            hold_time_hours,
            match left {
                Some(hours) => hours,
                None => Amount { bits: 0 },
            },
            extended,
            pacifica,
        ),
    }
}

impl FundingBot {
    /// The rows of the status table, given all live positions of each venue that
    /// answered.
    pub fn display_status(
        &self,
        extended: Option<Vec<Position>>,
        pacifica: Option<Vec<PacificaPosition>>,
    ) -> (r: Result<Vec<StatusRow>, ClockFault>)
        requires
            self.state.current_position matches Some(pos) ==> rotation_second(
                pos,
                self.hold_time_hours,
            ) <= u64::MAX,
        ensures
            exists|now: Option<u64>|
                #[trigger] status_follows(
                    self.state,
                    self.hold_time_hours,
                    now,
                    extended,
                    pacifica,
                    r,
                ),
    {
        let now: Option<u64> = unix_now();
        self.display_status_at(now, extended, pacifica)
    }

    /// The rows of the status table, given what the clock says and all live positions
    /// of each venue that answered.
    pub fn display_status_at(
        &self,
        now: Option<u64>,
        extended: Option<Vec<Position>>,
        pacifica: Option<Vec<PacificaPosition>>,
    ) -> (r: Result<Vec<StatusRow>, ClockFault>)
        requires
            self.state.current_position matches Some(pos) ==> rotation_second(
                pos,
                self.hold_time_hours,
            ) <= u64::MAX,
        ensures
            status_follows(self.state, self.hold_time_hours, now, extended, pacifica, r),
    {
        let hours: Amount = match self.state.hours_until_rotation_given(self.hold_time_hours, now) {
            Err(fault) => {
                return Err(fault);
            },
            Ok(left) => match left {
                Some(hours) => hours,
                None => Amount::zero(),
            },
        };
        let mut rows: Vec<StatusRow> = Vec::new();
        assert(row_views(rows@) =~= Seq::<StatusRowView>::empty());
        match &self.state.current_position {
            Some(pos) => {
                push_position_rows(&mut rows, pos, self.hold_time_hours, hours);
                push_gain_rows(&mut rows, pos.symbol.as_str(), &extended);
                push_entry_rows(&mut rows, pos.symbol.as_str(), &pacifica);
            },
            None => {
                push_row(
                    &mut rows,
                    "Status",
                    StatusValue::Text("NO ACTIVE POSITION".to_owned()),
                    CellStyle::Yellow,
                );
            },
        }
        push_row(
            &mut rows,
            "Total Rotations",
            StatusValue::Text(decimal_text(self.state.total_rotations)),
            CellStyle::Plain,
        );
        assert(row_views(rows@) =~= status_rows(
            self.state,
            self.hold_time_hours,
            hours,
            extended,
            pacifica,
        ));
        Ok(rows)
    }
}

/// The table of a bot with a position shows its symbol, its value, when it was opened and when
/// it will be rotated, the hours left, in red exactly where they are less than one, and which of
/// its legs are there.
pub proof fn law_the_table_shows_the_position(
    state: BotState,
    hold_time_hours: u64,
    hours: Amount,
    extended: Option<Vec<Position>>,
    pacifica: Option<Vec<PacificaPosition>>,
)
    ensures
        state.current_position matches Some(pos) ==> {
            let rows = status_rows(state, hold_time_hours, hours, extended, pacifica);
            &&& rows.len() >= 8
            &&& rows[0] == row("Symbol"@, StatusValueView::Text(pos.symbol@), CellStyle::Bold)
            &&& rows[1].label == "Notional"@
            &&& rows[1].value == StatusValueView::Dollars(pos.target_notional_usd)
            &&& rows[2].label == "Opened"@
            &&& rows[2].value == StatusValueView::Text(
                date_or_unknown(utc_text(pos.opened_at as i64, "%Y-%m-%d %H:%M:%S UTC"@)),
            )
            &&& rows[3].label == "Rotation"@
            &&& pos.opened_at + hold_time_hours * 3600 <= i64::MAX ==> rows[3].value
                == StatusValueView::Text(
                date_or_unknown(
                    utc_text(
                        (pos.opened_at + hold_time_hours * 3600) as i64,
                        "%Y-%m-%d %H:%M:%S UTC"@,
                    ),
                ),
            )
            &&& rows[4].label == "Time Remaining"@
            &&& rows[4].value == StatusValueView::Hours(hours)
            &&& rows[4].style is Red <==> !hours.is_nan() && hours.rank() < crate::amount::ONE_BITS
            &&& rows[4].style is Red || rows[4].style is Green
            &&& rows[5].label == "Extended Position"@
            &&& rows[5].value == StatusValueView::Leg(pos.extended_position is Some)
            &&& rows[6].label == "Pacifica Position"@
            &&& rows[6].value == StatusValueView::Leg(pos.pacifica_position is Some)
            &&& rows[1].style is Plain && rows[2].style is Plain && rows[3].style is Plain
            &&& rows[5].style is Plain && rows[6].style is Plain
        },
{
}

/// The table of a bot without a position says so, and every table ends with the count of
/// rotations. It holds no other row than these, those on the position and those on its legs.
pub proof fn law_every_table_ends_with_the_rotations(
    state: BotState,
    hold_time_hours: u64,
    hours: Amount,
    extended: Option<Vec<Position>>,
    pacifica: Option<Vec<PacificaPosition>>,
)
    ensures
        ({
            let rows = status_rows(state, hold_time_hours, hours, extended, pacifica);
            &&& rows.last() == row(
                "Total Rotations"@,
                StatusValueView::Text(decimal(state.total_rotations as nat)),
                CellStyle::Plain,
            )
            &&& state.current_position is None ==> rows.len() == 2 && rows[0] == row(
                "Status"@,
                StatusValueView::Text("NO ACTIVE POSITION"@),
                CellStyle::Yellow,
            )
            &&& state.current_position matches Some(pos) ==> rows.len() == 8 + gain_rows(
                pos.symbol@,
                extended,
            ).len() + entry_rows(pos.symbol@, pacifica).len()
            &&& state.current_position matches Some(pos) ==> rows.subrange(
                7,
                7 + gain_rows(pos.symbol@, extended).len() as int,
            ) == gain_rows(pos.symbol@, extended)
            &&& state.current_position matches Some(pos) ==> rows.subrange(
                7 + gain_rows(pos.symbol@, extended).len() as int,
                rows.len() - 1,
            ) == entry_rows(pos.symbol@, pacifica)
        }),
{
    if let Some(pos) = state.current_position {
        let rows = status_rows(state, hold_time_hours, hours, extended, pacifica);
        let g = gain_rows(pos.symbol@, extended);
        assert(rows.subrange(7, 7 + g.len() as int) =~= g);
        assert(rows.subrange(7 + g.len() as int, rows.len() - 1) =~= entry_rows(pos.symbol@, pacifica));
    }
}

/// The gain is shown exactly where the Extended venue answered and has a position whose market
/// begins with the symbol: that of the first such position, 0 where it reports none, in green
/// exactly where it is not below zero.
pub proof fn law_the_gain_is_that_of_the_first_match(
    symbol: Seq<char>,
    positions: Vec<Position>,
)
    ensures
        gain_rows(symbol, None).len() == 0,
        gain_rows(symbol, Some(positions)).len() == 0 <==> forall|i: int|
            0 <= i < positions@.len() ==> !begins_with((#[trigger] positions@[i]).market@, symbol),
        gain_rows(symbol, Some(positions)).len() <= 1,
        gain_rows(symbol, Some(positions)).len() == 1 ==> exists|i: int|
            {
                &&& 0 <= i < positions@.len()
                &&& begins_with((#[trigger] positions@[i]).market@, symbol)
                &&& forall|j: int|
                    0 <= j < i ==> !begins_with((#[trigger] positions@[j]).market@, symbol)
                &&& {
                    let shown = gain_rows(symbol, Some(positions))[0];
                    let gain = match positions@[i].unrealized_pnl {
                        Some(g) => g,
                        None => Amount { bits: 0 },
                    };
                    &&& shown.label == "Extended PnL"@
                    &&& shown.value == StatusValueView::Dollars(gain)
                    &&& shown.style is Green <==> !gain.is_nan() && gain.rank() >= 0
                    &&& shown.style is Green || shown.style is Red
                }
            },
{
    let wanted = market_begins_with(symbol);
    crate::types::lemma_first_where(positions@, wanted);
    match first_where(positions@, wanted) {
        Some(found) => {
            let i = choose|i: int|
                0 <= i < positions@.len() && positions@[i] == found && wanted(positions@[i]) && (forall|
                    j: int,
                |
                    0 <= j < i ==> !wanted(#[trigger] positions@[j]));
            assert(begins_with(positions@[i].market@, symbol));
            assert forall|j: int| 0 <= j < i implies !begins_with(
                (#[trigger] positions@[j]).market@,
                symbol,
            ) by {
                assert(!wanted(positions@[j]));
            }
        },
        None => {
            assert forall|j: int| 0 <= j < positions@.len() implies !begins_with(
                (#[trigger] positions@[j]).market@,
                symbol,
            ) by {
                assert(!wanted(positions@[j]));
            }
        },
    }
}

/// The entry and the size are shown exactly where the Pacifica venue answered and has a position
/// with the symbol: those of the first such position.
pub proof fn law_the_entry_is_that_of_the_leg(symbol: Seq<char>, positions: Vec<PacificaPosition>)
    ensures
        entry_rows(symbol, None).len() == 0,
        entry_rows(symbol, Some(positions)).len() == 0 <==> forall|i: int|
            0 <= i < positions@.len() ==> (#[trigger] positions@[i]).symbol@ != symbol,
        entry_rows(symbol, Some(positions)).len() == 0 || entry_rows(symbol, Some(positions)).len() == 2,
        entry_rows(symbol, Some(positions)).len() == 2 ==> exists|i: int|
            {
                &&& 0 <= i < positions@.len()
                &&& (#[trigger] positions@[i]).symbol@ == symbol
                &&& forall|j: int| 0 <= j < i ==> (#[trigger] positions@[j]).symbol@ != symbol
                &&& entry_rows(symbol, Some(positions))[0] == row(
                    "Pacifica Entry"@,
                    StatusValueView::Dollars(positions@[i].entry),
                    CellStyle::Plain,
                )
                &&& entry_rows(symbol, Some(positions))[1] == row(
                    "Pacifica Size"@,
                    StatusValueView::Quantity(positions@[i].amount),
                    CellStyle::Plain,
                )
            },
{
    crate::live::law_the_legs_are_the_first_with_the_symbol(
        Seq::<Position>::empty(),
        positions@,
        symbol,
    );
    if let Some(leg) = pacifica_leg(positions@, symbol) {
        let i = choose|i: int|
            0 <= i < positions@.len() && #[trigger] positions@[i] == leg && leg.symbol@ == symbol && (
            forall|j: int| 0 <= j < i ==> (#[trigger] positions@[j]).symbol@ != symbol);
        assert(positions@[i].symbol@ == symbol);
    } else {
        assert forall|j: int| 0 <= j < positions@.len() implies (
        #[trigger] positions@[j]).symbol@ != symbol by {
            assert(!crate::live::on_pacifica(positions@, symbol));
        }
    }
}

/// There is a table exactly where there is no position or the clock stands no earlier than the
/// opening, and it shows what is left of the holding time then. Else there is a fault, that of a
/// clock before the epoch exactly where there is no reading.
pub proof fn law_the_table_shows_the_hours_left(
    state: BotState,
    hold_time_hours: u64,
    now: Option<u64>,
    extended: Option<Vec<Position>>,
    pacifica: Option<Vec<PacificaPosition>>,
    r: Result<Vec<StatusRow>, ClockFault>,
)
    requires
        status_follows(state, hold_time_hours, now, extended, pacifica, r),
    ensures
        r is Ok <==> state.current_position is None || (now matches Some(t)
            && state.current_position->0.opened_at <= t),
        r matches Ok(rows) ==> (state.current_position matches Some(pos) ==> row_views(rows@)[4].value
            == StatusValueView::Hours(
            crate::rounding::hours_left_of(hold_time_hours, (now->0 - pos.opened_at) as u64),
        )),
        r == Err::<Vec<StatusRow>, ClockFault>(ClockFault::BeforeEpoch) <==> state.current_position
            is Some && now is None,
{
}

/// Styles are written in the letters of the table printer: `b` for bold, and `F` before the first
/// letter of a colour.
pub proof fn law_styles_have_their_letters(style: CellStyle)
    ensures
        style.code() == match style {
            CellStyle::Plain => Seq::empty(),
            CellStyle::Bold => seq!['b'],
            CellStyle::Red => seq!['F', 'r'],
            CellStyle::Green => seq!['F', 'g'],
            CellStyle::Yellow => seq!['F', 'y'],
        },
{
    reveal_strlit("");
    reveal_strlit("b");
    reveal_strlit("Fr");
    reveal_strlit("Fg");
    reveal_strlit("Fy");
    let code = style.code();
    match style {
        CellStyle::Plain => assert(code =~= Seq::empty()),
        CellStyle::Bold => assert(code =~= seq!['b']),
        CellStyle::Red => assert(code =~= seq!['F', 'r']),
        CellStyle::Green => assert(code =~= seq!['F', 'g']),
        CellStyle::Yellow => assert(code =~= seq!['F', 'y']),
    }
}

} // verus!
