# agents

Verified building blocks of a multi-tier trading-agent simulation:

- `market`: prices, quantities, cash, orders, trades, sectors.
- `assoc_map`, `lists`: the keyed and inline-list storage the rest is built on.
- `borrow_ledger`, `position_limits`: short-selling locates and order risk checks.
- `state`, `accounting`, `guards`: per-agent bookkeeping, background-flow P&L,
  position guards, crossover signals and fill handling of polled strategies.
- `tiers`, `wake_index`: wake conditions of reactive agents and their index.
- `models`: shape checks of exported classifier models.
- `reactive`: reactive agents, their strategies, wake context and decisions.
- `sectors`, `rotation`, `news`, `pairs`, `pool`, `regime`, `draws`: sector
  models, rotation universes, news windows and scheduling, spread positions,
  background order steps and the random draws they make.

`src/` is checked by Verus. `app/` holds what cannot stand there: the
floating-point parts (strategy parameters, sentiment, distributions, cost
tracking, model parameters), the JSON parse of exported models, serde-facing
copies of library types and parallel helpers. It calls into the library for
the decisions of the reactive agents, the background pool and the news
generator, and for the shape checks of model exports. The polled strategies,
the sector rotator and the model-driven agents rest on a market context
that this crate does not include; the library holds
their integer decisions (`guards`, `pairs`, `rotation`) for such a caller.
