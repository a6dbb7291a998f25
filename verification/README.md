# extended_connector

A delta-neutral funding-rate bot and its connector to the Extended venue. The
bot holds one pair of opposite positions, one leg on Extended and one on
Pacifica, for a set number of hours, and then rotates into the best opportunity.

`src/` is the library, verified with Verus. Everything that decides stands here.
What needs the network, a file or the terminal is written as a step function: it
takes a stage and an event and gives the next stage and the action to perform, so
that the decisions hold whatever the outside answers.

| module | what it decides |
| --- | --- |
| `amount` | comparisons of floating-point numbers, held as their bits |
| `rounding` | the nearest double to a fraction, and the hours left in floating point |
| `text`, `symbols` | texts, numbers in texts, ordered sets of symbols |
| `clock` | readings of the clock and dates in words |
| `http`, `types` | requests, statuses, the values of the venues |
| `rest` | the requests of the connector and what the replies mean |
| `order` | placing a market order, from its size to the reply |
| `state` | the state of the bot, loading and saving it |
| `bot` | the bot and the names of markets |
| `live` | live positions that the bot does not know of |
| `reconcile` | bringing the state in line with the venues |
| `close`, `open` | closing and opening a position |
| `status` | the rows of the status table |
| `run` | the rounds of the bot |

Proof functions whose names begin with `law_` state what holds across calls: that
a saved state is loaded again, that nothing is opened beside positions the bot
does not know of, that no position is opened before the leverage is set on both
venues, that no hours are left exactly when a rotation is due, that an account is reported as flat only after both venues were asked.

`app/` performs the actions: HTTP, files, the terminal, floating-point arithmetic.
The Pacifica venue, the search for opportunities, the trading of a pair and the
signing of orders come in through the traits of `app/collaborators.rs`.
`tests/` runs the library.
