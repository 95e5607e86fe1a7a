# Lantern

Daily check-ins for Hoyoverse games and nCore, nCore hit-and-run seeding
upkeep, and ntfy alerts when a task fails, behind an invite-only web API.

- `src/` is the library, verified with Verus: the task schedule and the civil
  calendar under it, the Hoyoverse and nCore check-in steps as state machines,
  reading the nCore hit-and-run page and deciding what to do with each torrent,
  user and session rules, request validation and the API's error answers.
  Hashing, randomness, the clock and HTML selection are called from their
  crates through small trusted functions whose contracts are stated beside
  them.
- `app/` is the program around it: the command line, the database, HTTP
  client and server, the BitTorrent session and the scheduler loop. It hands
  the library plain values and acts on what comes back.
- `tests/` runs the library on concrete inputs.
