# parashield

Parametric insurance on a ledger, verified with Verus. A policy pays when a
measured condition is met, and nobody has to judge a loss.

`src/` is the library. Four parts follow the four contracts:

| module | what it decides |
|---|---|
| `oracle_verifier` | who may report readings, and the weighted median that readings amount to |
| `policy_engine` | products, policies, premiums, refunds, expiry |
| `claims_processor` | claims from submission to settlement, disputes, fraud scoring, payouts |
| `governance_dao` | proposals, votes, quorum, deposits, timelocks |

In each part `types` holds the records, `state` the contract's state as
mathematics with one function per request, `mod` the executable contract, and
`laws` what holds of the contract as a whole. `policy_engine::catalog`,
`claims_processor::batches` and `governance_dao::accounts` add laws on products,
on automatic runs over the queue of claims, and on tokens.

A contract never touches the ledger. It gets the time, balances and the answers
of other contracts as arguments, and it leaves in its `outbox` what the ledger
has to do: whose authorisation to demand, which tokens to move, which contract to
call, what to announce. A request that is refused leaves no trace.

The claims processor needs answers in the middle of a request. It returns the
question (`Step::Ask`), and the caller asks again with the answer; a question
changes nothing.

`host` reads addresses and symbols of the ledger host into plain texts. It is
the only place where the library calls the host, and what it takes on trust is
written there.

`app/` is the contracts on the ledger: storage, tokens, events and calls between
contracts around the library.
