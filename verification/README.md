# agentloom_db

The store of a desktop application in which agents work on a user's projects: sessions and their
messages, runs and what they produced, the agents and how a session is staffed, the memory that a
session keeps, and what a paired phone is told of all that. It lives in one SQLite database.

The library is written in Verus. Every function states what it asks of SQLite, in which order and
with which parameters, and what it makes of the replies; Verus proves that the code does so.

## How it is stated

What SQLite replies depends on the database file, on other connections and on the machine. So the
contracts do not speak of tables. A `Db` carries, as ghost state, the trace of its connection: each
request with its reply, and each milestone that was published. The contract of an operation relates
the trace before to the trace after and to the result.

- `engine` holds `Db`, the trace and the errors; `sqlite` holds the calls into `rusqlite`, each of
  which adds to the trace the request that it made and the reply that it returns.
- `rows` reads rows as values and states what single requests do; `tx` does the same for scripts and
  transactions; `trace` speaks of how one trace goes on from another.
- `text`, `json`, `clock` and `events` hold strings, JSON values, the time and the milestones.
- The other modules are the store: `schema`, `settings`, `agents`, `sessions`, `messages`, `blocks`,
  `cards`, `anchors`, `memory`, `contracts`, `lead`, `runs`, `artifacts`, `documents`, `runtime`,
  `index` and `remote`. `settled` and `upkeep` hold the laws on a second run of the set-up, `made`
  those on what a first run makes of any store, and `harness` those on what becomes of the agents.

Proof functions whose names begin with `law_` state what holds of several operations, such as that
a deletion is announced only after it was committed, or that no update of a memory slot is lost.
Where a law needs to know what a statement does to rows, a small spec function beside it says so for
that statement; it is a reading of the statement's text, and no contract rests on it.

## What is left to the surroundings

`app/` holds what the library leaves open: the database file behind a lock, serde's derives on
copies of the library's types, the codec of message contents, and the milestones on their way to
the phone. Operations that store or read message contents take that codec as a function.
