# spaces

A Discord-like communication module (servers, channels, threads, messages,
reactions, direct messages, presence and a five-role hierarchy) written in
Verus. The database is held in memory as one `Vec` per table with an id
counter each; every reducer is verified against a contract that says when it
fails, with which message, and what it changes when it succeeds, and every
reducer keeps the database well formed.

Layout of `src/`:

- `tables`, `types`, `identity`: the rows, the enums, identities and times.
- `rows`: lookup, update and delete by key, with the lemmas they rest on.
- `db`: the database, its well-formedness and the reducer context.
- `validation`, `auth`: the checks the reducers run, each with the error it gives.
- `reducers/*`, `lifecycle`, `cascade`: the reducers and what a delete removes.
- `laws`: properties that span several reducers, proved over their contracts.
- `client`, `commands`, `views`, `lines`, `ordering`: the command-line client's
  logic: reading input and commands, choosing and ordering rows, and the text
  it prints for them.

`app/` holds the host-side wrappers that check a reducer's preconditions, run
it and write the log line.
