# twilight-dispatch

A Discord gateway dispatcher: it runs clusters of gateway shards, keeps a
state cache of guilds, channels, members and messages in Redis, publishes
every dispatch to a RabbitMQ exchange and sends the commands it receives on
a queue through the right shard.

- `src/` is the library, verified with Verus: cache keys and their helper
  sets, the plan of each cache update, expiry of cached entries, how shards
  are spread over clusters and which sessions are resumed, shard statuses
  and metrics, the reports of connection and guild events, the routing of
  commands, what a message update changes in a cached message and how an
  arriving guild is split into what is stored, and the cache plans of the
  music player's events.
- `tests/` runs the library on concrete values.
- `app/` is the program around it: configuration, Redis, RabbitMQ, the
  gateway clusters, the Discord log channel and the metrics server. It runs
  the gateway only; the music player's node client is not part of it, so
  the player plans are not run here.
