# kactus

Kactus is a cache of GTFS-realtime feeds kept in Redis: ingest programs fetch
each configured agency's vehicle positions, trip updates and alerts, and a
small HTTP server hands the stored feeds to clients, answering 204 when a
client's copy is still current.

`src/` is the verified library (Verus):

- `text` — replacing, splitting, trimming, ordering, reading and writing
  decimal numbers, with their specifications;
- `keys`, `insert` — the Redis keys of a feed and what storing a feed writes;
- `config`, `ingest` — the agency configuration and the fetches it asks for,
  when a feed is due, how a fetch carries its key;
- `metrolink` — the Metrolink ingest schedule and its alerts page;
- `server` — the answers of the cache server and its websocket sessions;
- `transit` — agency-specific reshaping (Amtrak, MTA railroads, DoubleMap,
  Swiftly);
- `ops` — the fallback watchdog.

`app/` holds the programs around it (HTTP, Redis, the fetch loops), chosen by
the first command-line argument: `server`, `ingest`, `agency-ingest`,
`metrolink`, `nyc-rail`, `amtrak`, `swiftly`, `doublemap`, `fallback`,
`list-agencies`.
